use node_api::napi_value::IntoNapiValue;
use node_api::number::{Double, Single};

fn samples_u64() -> Vec<u64> {
    let mut v: Vec<u64> = vec![0, 1, 2, 3, 42, 255, 65535, 4294967295, 4294967296];
    let mut k: u32 = 50;
    while k < 64 {
        let p: u64 = 1u64 << k;
        let mut d: u64 = 0;
        while d < 5000 {
            v.push(p.wrapping_add(d));
            v.push(p.wrapping_sub(d));
            d += 1;
        }
        k += 1;
    }
    v.push(u64::MAX);
    v.push(u64::MAX - 1023);
    v.push(u64::MAX - 1024);
    v.push(9007199254740993);
    v
}

#[test]
fn unsigned_integers_convert_as_the_machine_does() {
    for x in samples_u64() {
        assert_eq!(Double::from_u64(x).to_bits(), (x as f64).to_bits(), "from_u64({})", x);
    }
}

#[test]
fn signed_integers_convert_as_the_machine_does() {
    for u in samples_u64() {
        let x = u as i64;
        assert_eq!(Double::from_i64(x).to_bits(), (x as f64).to_bits(), "from_i64({})", x);
        let y = x.wrapping_neg();
        assert_eq!(Double::from_i64(y).to_bits(), (y as f64).to_bits(), "from_i64({})", y);
    }
    assert_eq!(Double::from_i64(i64::MIN).to_bits(), (i64::MIN as f64).to_bits());
    assert_eq!(Double::from_i64(i64::MAX).to_bits(), (i64::MAX as f64).to_bits());
}

fn samples_f64() -> Vec<f64> {
    let mut v = vec![
        0.0, -0.0, 0.5, -0.5, 0.999, 1.0, -1.0, 1.5, -1.5, 2.5, 42.1337, -42.1337, 4294967295.0,
        4294967296.0, 4294967297.5, -4294967297.5, 1e15, -1e15, 9007199254740992.0,
        9223372036854775807.0, -9223372036854775808.0, 1e19, -1e19, 1e300, -1e300, 5e-324,
        f64::MIN_POSITIVE,
    ];
    let mut x = 1.0f64;
    let mut i = 0;
    while i < 80 {
        v.push(x * 1.37);
        v.push(-x * 1.37);
        x *= 2.0;
        i += 1;
    }
    v
}

#[test]
fn doubles_truncate_to_i64_as_the_machine_does() {
    for x in samples_f64() {
        assert_eq!(Double::from_bits(x.to_bits()).to_i64(), x as i64, "to_i64({})", x);
    }
}

#[test]
fn doubles_reduce_to_u32_modulo_two_to_the_32() {
    for x in samples_f64() {
        let expected = (x.trunc().rem_euclid(4294967296.0)) as u32;
        assert_eq!(Double::from_bits(x.to_bits()).to_u32(), expected, "to_u32({})", x);
    }
}

#[test]
fn infinities_and_nan_convert_to_zero() {
    for x in [f64::INFINITY, f64::NEG_INFINITY, f64::NAN] {
        assert_eq!(Double::from_bits(x.to_bits()).to_i64(), 0);
        assert_eq!(Double::from_bits(x.to_bits()).to_u32(), 0);
    }
}

#[test]
fn precision_is_lost_above_two_to_the_53() {
    // 2^53 + 1 lies between two doubles and goes to the even one
    assert_eq!(Double::from_i64(9007199254740993).to_i64(), 9007199254740992);
    assert_eq!(Double::from_i64(9007199254740995).to_i64(), 9007199254740996);
    assert_eq!(Double::from_i64(-9007199254740993).to_i64(), -9007199254740992);
    // the largest 64-bit integer rounds up to 2^63 and is held to the range on the way back
    assert_eq!(Double::from_i64(i64::MAX).to_i64(), i64::MAX);
    assert_eq!(Double::from_u64(u64::MAX).to_bits(), 18446744073709551616.0f64.to_bits());
}

#[test]
fn integers_up_to_two_to_the_53_round_trip() {
    for x in [0i64, 1, -1, 42, -42, 9007199254740992, -9007199254740992, 9007199254740991] {
        assert_eq!(Double::from_i64(x).to_i64(), x);
    }
}

#[test]
fn single_precision_widens_as_the_machine_does() {
    let mut samples: Vec<f32> = vec![
        0.0, -0.0, 1.0, -1.0, 0.1, -0.1, 42.1337, 3.4028235e38, -3.4028235e38, 1.17549435e-38,
        1e-45, -1e-45, 5.877472e-39, 1.1754942e-38, f32::INFINITY, f32::NEG_INFINITY, f32::NAN,
    ];
    let mut bits: u32 = 1;
    while bits < 0x0080_0000 {
        samples.push(f32::from_bits(bits));
        samples.push(f32::from_bits(bits | 0x8000_0000));
        samples.push(f32::from_bits(bits + 0x3f00_0000));
        bits = bits * 3 + 1;
    }
    for x in samples {
        let d = Double::from_single(Single::from_bits(x.to_bits()));
        assert_eq!(d.to_bits(), (x as f64).to_bits(), "from_single({})", x);
    }
}

#[test]
fn a_single_encodes_as_a_number() {
    let mut env = node_api::NapiEnv::new();
    let h = Single::from_bits(1.5f32.to_bits()).into_napi_value(&mut env).unwrap();
    assert_eq!(node_api::get_value_double(&mut env, h).unwrap().to_bits(), 1.5f64.to_bits());
}
