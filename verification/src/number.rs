//! Double-precision numbers by their bit pattern. The host's numbers are
//! doubles; this crate carries them as the 64 bits of their encoding and
//! converts between them and the integer types with integer arithmetic.

use vstd::prelude::*;
use vstd::arithmetic::power2::pow2;

verus! {

/// Two to the power 52: the weight of the hidden bit of a significand.
pub const TWO_52: u64 = 0x10_0000_0000_0000;

/// Two to the power 53: up to here every integer is a double.
pub const TWO_53: u64 = 0x20_0000_0000_0000;

/// Two to the power 63: the sign bit of an encoding.
pub const TWO_63: u64 = 0x8000_0000_0000_0000;

/// A double-precision number, held as the 64 bits of its encoding: one sign
/// bit, eleven exponent bits, fifty-two fraction bits. Two values are equal
/// when their bits are, so a NaN equals itself and the two zeros differ.
#[derive(Debug, Clone, Copy, PartialEq, Eq, Structural)]
pub struct Double {
    pub bits: u64,
}

/// The distance between neighbouring doubles at the magnitude `m`: 1 below
/// two to the 53, and twice as much with every further bit.
pub open spec fn spacing(m: nat) -> nat
    decreases m,
{
    if m < TWO_53 {
        1
    } else {
        2 * spacing(m / 2)
    }
}

/// Whether `v` is the multiple of the spacing at `m` that lies nearest to
/// `m`, the one with the even quotient where two lie equally near. Below two
/// to the 53 that is `m` itself.
pub open spec fn nearest_even(m: nat, v: nat) -> bool {
    let u = spacing(m);
    let distance = if v >= m {
        v - m
    } else {
        m - v
    };
    &&& v % u == 0
    &&& 2 * distance <= u
    &&& (2 * distance == u ==> (v / u) % 2 == 0)
}

impl Double {
    /// Whether the sign bit is set.
    pub open spec fn negative(self) -> bool {
        self.bits >= TWO_63
    }

    /// The eleven exponent bits.
    pub open spec fn exponent(self) -> int {
        (self.bits as int / TWO_52 as int) % 2048
    }

    /// The fifty-two fraction bits.
    pub open spec fn fraction(self) -> int {
        self.bits as int % TWO_52 as int
    }

    /// Whether the number is neither an infinity nor a NaN.
    pub open spec fn is_finite(self) -> bool {
        self.exponent() != 2047
    }

    /// The significand as an integer: the fraction with the hidden bit,
    /// which a subnormal number has not.
    pub open spec fn significand(self) -> int {
        if self.exponent() == 0 {
            self.fraction()
        } else {
            self.fraction() + TWO_52
        }
    }

    /// The power of two by which the significand is scaled: the absolute
    /// value of a finite number is `significand * 2^scale`.
    pub open spec fn scale(self) -> int {
        if self.exponent() == 0 {
            -1074
        } else {
            self.exponent() - 1075
        }
    }

    /// The integer part of the absolute value of a finite number.
    pub open spec fn magnitude(self) -> int {
        if self.scale() >= 0 {
            self.significand() * pow2(self.scale() as nat)
        } else {
            self.significand() / (pow2((-self.scale()) as nat) as int)
        }
    }

    /// Whether the number is finite and has no fractional part.
    pub open spec fn is_integer(self) -> bool {
        &&& self.is_finite()
        &&& self.scale() < 0 ==> self.significand() % (pow2((-self.scale()) as nat) as int) == 0
    }

    /// A finite number rounded toward zero to an integer.
    pub open spec fn truncated(self) -> int {
        if self.negative() {
            -self.magnitude()
        } else {
            self.magnitude()
        }
    }

    /// The number as the host converts it to a 64-bit integer: rounded
    /// toward zero, held to the range of the type, and 0 for an infinity or
    /// a NaN.
    pub open spec fn to_i64_spec(self) -> i64 {
        if !self.is_finite() {
            0
        } else if self.truncated() > i64::MAX {
            i64::MAX
        } else if self.truncated() < i64::MIN {
            i64::MIN
        } else {
            self.truncated() as i64
        }
    }

    /// The number as the host converts it to an unsigned 32-bit integer:
    /// rounded toward zero and reduced modulo two to the 32, and 0 for an
    /// infinity or a NaN.
    pub open spec fn to_u32_spec(self) -> u32 {
        if !self.is_finite() {
            0
        } else {
            (self.truncated() % 0x1_0000_0000) as u32
        }
    }

    /// The number as the host converts it to a signed 32-bit integer: the
    /// low 32 bits of the number rounded toward zero, read as a signed
    /// integer, and 0 for an infinity or a NaN.
    pub open spec fn to_i32_spec(self) -> i32 {
        if self.to_u32_spec() >= 0x8000_0000 {
            (self.to_u32_spec() - 0x1_0000_0000) as i32
        } else {
            self.to_u32_spec() as i32
        }
    }

    /// The number with the given encoding.
    pub fn from_bits(bits: u64) -> (d: Double)
        ensures
            d.bits == bits,
    {
        Double { bits }
    }

    /// The encoding of the number.
    pub fn to_bits(self) -> (bits: u64)
        ensures
            bits == self.bits,
    {
        self.bits
    }

    /// The double nearest to `x`, the one with the even significand where
    /// two lie equally near. Up to two to the 53 the conversion is exact.
    pub fn from_u64(x: u64) -> (d: Double)
        ensures
            stands_for(d, x as int),
            d == double_of(x as int),
    {
        let d = Double::nearest(x);
        proof {
            lemma_double_of(x as int, d);
        }
        d
    }

    /// The double nearest to a magnitude.
    fn nearest(x: u64) -> (d: Double)
        ensures
            !d.negative(),
            d.is_integer(),
            nearest_even(x as nat, d.magnitude() as nat),
            d.magnitude() >= 0,
    {
        if x == 0 {
            let d = Double { bits: 0 };
            proof {
                lemma_zero_double();
            }
            return d;
        }
        if x < TWO_53 {
            let mut m: u64 = x;
            let mut e: u64 = 1075;
            proof {
                vstd::arithmetic::power2::lemma2_to64();
                assert(x * pow2(0) == x) by (nonlinear_arith)
                    requires
                        pow2(0) == 1,
                ;
            }
            while m < TWO_52
                invariant
                    1 <= m < TWO_53,
                    1023 <= e <= 1075,
                    m == x * pow2((1075 - e) as nat),
                    m >= pow2((1075 - e) as nat),
                decreases e,
            {
                proof {
                    vstd::arithmetic::power2::lemma_pow2_unfold((1075 - e + 1) as nat);
                    vstd::arithmetic::power2::lemma2_to64_rest();
                    if 1075 - e > 52 {
                        vstd::arithmetic::power2::lemma_pow2_strictly_increases(
                            52,
                            (1075 - e) as nat,
                        );
                    }
                    assert(1075 - e < 52);
                    assert(x * (2 * pow2((1075 - e) as nat)) == 2 * (x * pow2((1075 - e) as nat)))
                        by (nonlinear_arith);
                }
                m = m * 2;
                e = e - 1;
            }
            let d = Double { bits: e * TWO_52 + (m - TWO_52) };
            proof {
                lemma_exact_fields(x as nat, m as nat, e as nat);
                assert(spacing(x as nat) == 1);
            }
            d
        } else {
            let mut q: u64 = x;
            let mut u: u64 = 1;
            let mut r: u64 = 0;
            let mut e: u64 = 1075;
            proof {
                lemma_rounding_start(x as nat);
            }
            while q >= TWO_53
                invariant
                    rounding(x as nat, q as nat, u as nat, r as nat, e as nat),
                decreases q,
            {
                proof {
                    lemma_rounding_step(x as nat, q as nat, u as nat, r as nat, e as nat);
                }
                r = r + (q % 2) * u;
                q = q / 2;
                u = 2 * u;
                e = e + 1;
            }
            proof {
                lemma_rounded(x as nat, q as nat, u as nat, r as nat, e as nat);
            }
            let half = u / 2;
            let up = r > half || (r == half && q % 2 == 1);
            let q2 = if up {
                q + 1
            } else {
                q
            };
            Double { bits: e * TWO_52 + (q2 - TWO_52) }
        }
    }

    /// The double nearest to `x`. Between minus and plus two to the 53 the
    /// conversion is exact.
    pub fn from_i64(x: i64) -> (d: Double)
        ensures
            stands_for(d, x as int),
            d == double_of(x as int),
    {
        let d = if x < 0 {
            let m: u64 = if x == i64::MIN {
                TWO_63
            } else {
                (-x) as u64
            };
            let p = Double::nearest(m);
            proof {
                lemma_sign(p);
            }
            Double { bits: p.bits + TWO_63 }
        } else {
            Double::nearest(x as u64)
        };
        proof {
            lemma_double_of(x as int, d);
        }
        d
    }

    /// The number as a 64-bit integer: rounded toward zero, held to the
    /// range of the type, and 0 for an infinity or a NaN.
    pub fn to_i64(self) -> (r: i64)
        ensures
            r == self.to_i64_spec(),
    {
        let e = (self.bits >> 52) & 0x7ff;
        let f = self.bits & 0xf_ffff_ffff_ffff;
        let neg = (self.bits >> 63) == 1;
        proof {
            let b = self.bits;
            assert((b >> 52) & 0x7ff == (b / 0x10_0000_0000_0000) % 0x800) by (bit_vector);
            assert(b & 0xf_ffff_ffff_ffff == b % 0x10_0000_0000_0000) by (bit_vector);
            assert(((b >> 63) == 1) == (b >= 0x8000_0000_0000_0000)) by (bit_vector);
            assert(e == self.exponent());
            assert(f == self.fraction());
            vstd::arithmetic::power2::lemma2_to64();
            vstd::arithmetic::power2::lemma2_to64_rest();
        }
        if e == 0x7ff {
            return 0;
        }
        if e < 1023 {
            proof {
                let s = (-self.scale()) as nat;
                assert(s >= 53);
                if s > 53 {
                    vstd::arithmetic::power2::lemma_pow2_strictly_increases(53, s);
                }
                vstd::arithmetic::div_mod::lemma_basic_div(self.significand(), pow2(s) as int);
                assert(self.magnitude() == 0);
            }
            return 0;
        }
        let m = f + TWO_52;
        if e >= 1086 {
            proof {
                let s = self.scale() as nat;
                if s > 11 {
                    vstd::arithmetic::power2::lemma_pow2_strictly_increases(11, s);
                }
                assert(m * pow2(s) >= 0x8000_0000_0000_0000) by (nonlinear_arith)
                    requires
                        m >= 0x10_0000_0000_0000,
                        pow2(s) >= 0x800,
                ;
            }
            return if neg {
                i64::MIN
            } else {
                i64::MAX
            };
        }
        let mag: u64 = if e >= 1075 {
            let s = e - 1075;
            proof {
                if s < 10 {
                    vstd::arithmetic::power2::lemma_pow2_strictly_increases(s as nat, 10);
                }
                assert(m * pow2(s as nat) < 0x8000_0000_0000_0000) by (nonlinear_arith)
                    requires
                        0 <= m < 0x20_0000_0000_0000,
                        0 < pow2(s as nat) <= 0x400,
                ;
                vstd::bits::lemma_u64_shl_is_mul(m, s);
            }
            m << s
        } else {
            let s = 1075 - e;
            proof {
                vstd::bits::lemma_u64_shr_is_div(m, s);
            }
            m >> s
        };
        assert(mag == self.magnitude());
        if neg {
            -(mag as i64)
        } else {
            mag as i64
        }
    }

    /// The number as an unsigned 32-bit integer: rounded toward zero and
    /// reduced modulo two to the 32, and 0 for an infinity or a NaN.
    pub fn to_u32(self) -> (r: u32)
        ensures
            r == self.to_u32_spec(),
    {
        let e = (self.bits >> 52) & 0x7ff;
        let f = self.bits & 0xf_ffff_ffff_ffff;
        let neg = (self.bits >> 63) == 1;
        proof {
            let b = self.bits;
            assert((b >> 52) & 0x7ff == (b / 0x10_0000_0000_0000) % 0x800) by (bit_vector);
            assert(b & 0xf_ffff_ffff_ffff == b % 0x10_0000_0000_0000) by (bit_vector);
            assert(((b >> 63) == 1) == (b >= 0x8000_0000_0000_0000)) by (bit_vector);
            assert(e == self.exponent());
            assert(f == self.fraction());
            vstd::arithmetic::power2::lemma2_to64();
            vstd::arithmetic::power2::lemma2_to64_rest();
        }
        if e == 0x7ff {
            return 0;
        }
        if e < 1023 {
            proof {
                let s = (-self.scale()) as nat;
                if s > 53 {
                    vstd::arithmetic::power2::lemma_pow2_strictly_increases(53, s);
                }
                vstd::arithmetic::div_mod::lemma_basic_div(self.significand(), pow2(s) as int);
                assert(self.magnitude() == 0);
            }
            return 0;
        }
        let m = f + TWO_52;
        if e >= 1107 {
            proof {
                let s = self.scale() as nat;
                let rest = pow2((s - 32) as nat) as int;
                vstd::arithmetic::power2::lemma_pow2_adds((s - 32) as nat, 32);
                assert(m * (rest * 0x1_0000_0000) == (m * rest) * 0x1_0000_0000)
                    by (nonlinear_arith);
                vstd::arithmetic::div_mod::lemma_mod_multiples_basic(m * rest, 0x1_0000_0000);
                vstd::arithmetic::div_mod::lemma_mod_multiples_basic(-(m * rest), 0x1_0000_0000);
                assert((-(m * rest)) * 0x1_0000_0000 == -((m * rest) * 0x1_0000_0000))
                    by (nonlinear_arith);
                assert(self.truncated() % 0x1_0000_0000 == 0);
            }
            return 0;
        }
        let low: u64 = if e >= 1075 {
            let s = e - 1075;
            let a = m & 0xffff_ffff;
            proof {
                assert(m & 0xffff_ffff == m % 0x1_0000_0000) by (bit_vector);
                if s < 31 {
                    vstd::arithmetic::power2::lemma_pow2_strictly_increases(s as nat, 31);
                }
                assert(a * pow2(s as nat) < 0x8000_0000_0000_0000) by (nonlinear_arith)
                    requires
                        0 <= a < 0x1_0000_0000,
                        0 < pow2(s as nat) <= 0x8000_0000,
                ;
                vstd::bits::lemma_u64_shl_is_mul(a, s);
                let shifted = a << s;
                assert(shifted & 0xffff_ffff == shifted % 0x1_0000_0000) by (bit_vector);
                vstd::arithmetic::div_mod::lemma_mul_mod_noop_left(
                    m as int,
                    pow2(s as nat) as int,
                    0x1_0000_0000,
                );
            }
            (a << s) & 0xffff_ffff
        } else {
            let s = 1075 - e;
            proof {
                vstd::bits::lemma_u64_shr_is_div(m, s);
                let shifted = m >> s;
                assert(shifted & 0xffff_ffff == shifted % 0x1_0000_0000) by (bit_vector);
            }
            (m >> s) & 0xffff_ffff
        };
        assert(low == self.magnitude() % 0x1_0000_0000);
        if neg && low != 0 {
            (0x1_0000_0000 - low) as u32
        } else {
            low as u32
        }
    }


    /// The number as a signed 32-bit integer: the low 32 bits of the number
    /// rounded toward zero, read as a signed integer.
    pub fn to_i32(self) -> (r: i32)
        ensures
            r == self.to_i32_spec(),
    {
        let low = self.to_u32();
        if low >= 0x8000_0000 {
            ((low - 0x8000_0000) as i32) + i32::MIN
        } else {
            low as i32
        }
    }
}

/// Setting the sign bit of a positive encoding changes the sign and nothing
/// else.
proof fn lemma_sign(p: Double)
    requires
        !p.negative(),
    ensures
        ({
            let d = Double { bits: (p.bits + TWO_63) as u64 };
            &&& p.bits + TWO_63 <= u64::MAX
            &&& d.negative()
            &&& d.exponent() == p.exponent()
            &&& d.fraction() == p.fraction()
            &&& d.magnitude() == p.magnitude()
            &&& d.is_integer() == p.is_integer()
        }),
{
    let b = p.bits;
    let c = (b + TWO_63) as u64;
    assert((b as int + 0x8000_0000_0000_0000) / 0x10_0000_0000_0000 == b as int
        / 0x10_0000_0000_0000 + 2048);
    assert((b as int + 0x8000_0000_0000_0000) % 0x10_0000_0000_0000 == b as int
        % 0x10_0000_0000_0000);
}

/// The fields of the encoding that is put together from an exponent and a
/// fraction.
proof fn lemma_fields(e: u64, f: u64)
    requires
        1 <= e < 2047,
        f < TWO_52,
    ensures
        ({
            let d = Double { bits: (e * TWO_52 + f) as u64 };
            &&& e * TWO_52 + f <= u64::MAX
            &&& !d.negative()
            &&& d.exponent() == e
            &&& d.fraction() == f
            &&& d.is_finite()
            &&& d.significand() == f + TWO_52
            &&& d.scale() == e - 1075
        }),
{
    let b = e * TWO_52 + f;
    assert(b < TWO_63) by (nonlinear_arith)
        requires
            b == e * 0x10_0000_0000_0000 + f,
            e < 2047,
            f < 0x10_0000_0000_0000,
    ;
    vstd::arithmetic::div_mod::lemma_fundamental_div_mod_converse(
        b as int,
        TWO_52 as int,
        e as int,
        f as int,
    );
}

/// Whether `q`, `u`, `r` and `e` are a stage on the way of the magnitude
/// `x` to its double: `x` is `q * u + r` with `r` below the unit `u`, which
/// is the power of two that goes with the exponent field `e`.
pub open spec fn rounding(x: nat, q: nat, u: nat, r: nat, e: nat) -> bool {
    &&& x <= u64::MAX
    &&& q >= TWO_52
    &&& 1075 <= e <= 1086
    &&& u == pow2((e - 1075) as nat)
    &&& 1 <= u <= 2048
    &&& r < u
    &&& q * u + r == x
    &&& spacing(x) == u * spacing(q)
    &&& e == 1075 ==> q >= TWO_53
}

/// The quotient of the last stage, rounded: up where the remainder is more
/// than half the unit, and to the even neighbour where it is exactly half.
pub open spec fn rounded_quotient(q: nat, u: nat, r: nat) -> nat {
    if r > u / 2 || (r == u / 2 && q % 2 == 1) {
        q + 1
    } else {
        q
    }
}

/// A magnitude from two to the 53 on starts at the unit 1.
proof fn lemma_rounding_start(x: nat)
    requires
        TWO_53 <= x <= u64::MAX,
    ensures
        rounding(x, x, 1, 0, 1075),
{
    vstd::arithmetic::power2::lemma2_to64();
    assert(x * 1 + 0 == x);
    assert(1 * spacing(x) == spacing(x));
}

/// A stage whose quotient is too wide for a significand leads to the next:
/// the quotient is halved and the unit doubled.
proof fn lemma_rounding_step(x: nat, q: nat, u: nat, r: nat, e: nat)
    requires
        rounding(x, q, u, r, e),
        q >= TWO_53,
    ensures
        rounding(x, q / 2, 2 * u, r + (q % 2) * u, e + 1),
        u < 2048,
        r + (q % 2) * u < 4096,
{
    vstd::arithmetic::power2::lemma_pow2_unfold((e - 1075 + 1) as nat);
    assert(u < 2048) by (nonlinear_arith)
        requires
            q * u + r == x,
            q >= 0x20_0000_0000_0000,
            x <= 0xffff_ffff_ffff_ffff,
            u >= 1,
    ;
    vstd::arithmetic::power2::lemma2_to64();
    assert(e < 1086);
    if e + 1 < 1086 {
        vstd::arithmetic::power2::lemma_pow2_strictly_increases((e + 1 - 1075) as nat, 11);
    }
    assert(spacing(q) == 2 * spacing(q / 2));
    assert(u * (2 * spacing(q / 2)) == (2 * u) * spacing(q / 2)) by (nonlinear_arith);
    assert((q / 2) * (2 * u) + (r + (q % 2) * u) == q * u + r) by (nonlinear_arith)
        requires
            q == 2 * (q / 2) + q % 2,
    ;
    assert((q % 2) * u <= u) by (nonlinear_arith)
        requires
            0 <= q % 2 <= 1,
            u >= 0,
    ;
}

/// At the last stage the rounded quotient is the significand of the double
/// nearest to `x`.
proof fn lemma_rounded(x: nat, q: nat, u: nat, r: nat, e: nat)
    requires
        rounding(x, q, u, r, e),
        q < TWO_53,
    ensures
        ({
            let q2 = rounded_quotient(q, u, r);
            let d = Double { bits: (e * TWO_52 + (q2 - TWO_52)) as u64 };
            &&& e * TWO_52 + (q2 - TWO_52) <= u64::MAX
            &&& !d.negative()
            &&& d.is_integer()
            &&& d.magnitude() >= 0
            &&& nearest_even(x, d.magnitude() as nat)
        }),
{
    let q2 = rounded_quotient(q, u, r);
    let up = q2 != q;
    let d = Double { bits: (e * TWO_52 + (q2 - TWO_52)) as u64 };
    assert(spacing(q) == 1);
    assert(u >= 2) by {
        vstd::arithmetic::power2::lemma_pow2_unfold((e - 1075) as nat);
        vstd::arithmetic::power2::lemma_pow2_pos((e - 1076) as nat);
    }
    let half = u / 2;
    if q2 == TWO_53 {
        lemma_fields((e + 1) as u64, 0);
        vstd::arithmetic::power2::lemma_pow2_unfold((e + 1 - 1075) as nat);
        assert(d.magnitude() == TWO_52 * (2 * u));
        assert(TWO_52 * (2 * u) == q2 * u) by (nonlinear_arith)
            requires
                q2 == 0x20_0000_0000_0000,
        ;
    } else {
        lemma_fields(e as u64, (q2 - TWO_52) as u64);
        assert(d.magnitude() == q2 * u);
    }
    let v = d.magnitude();
    assert(v == q2 * u);
    assert(u == 2 * half) by {
        lemma_spacing_even(e as u64, u as u64);
    }
    vstd::arithmetic::div_mod::lemma_mod_multiples_basic(q2 as int, u as int);
    vstd::arithmetic::div_mod::lemma_div_multiples_vanish(q2 as int, u as int);
    assert(q2 * u == u * q2) by (nonlinear_arith);
    assert(v / (u as int) == q2);
    if up {
        assert(v - x == u - r) by (nonlinear_arith)
            requires
                v == (q + 1) * u,
                q * u + r == x,
        ;
    } else {
        assert(x - v == r) by (nonlinear_arith)
            requires
                v == q * u,
                q * u + r == x,
        ;
    }
    assert(v >= 0) by (nonlinear_arith)
        requires
            v == q2 * u,
            q2 >= 0,
            u >= 0,
    ;
    assert(spacing(x) == u) by (nonlinear_arith)
        requires
            spacing(x) == u * spacing(q),
            spacing(q) == 1,
    ;
    let distance = if v >= x {
        v - x
    } else {
        x - v
    };
    assert(v % (u as int) == 0);
    assert(2 * distance <= u);
    assert(2 * distance == u ==> (v / (u as int)) % 2 == 0);
    assert(nearest_even(x, v as nat));
    assert(!d.negative());
    assert(d.is_integer());
}

/// From every stage on the way of `x` a double is reached that is nearest
/// to `x`.
proof fn lemma_rounded_double(x: nat, q: nat, u: nat, r: nat, e: nat) -> (d: Double)
    requires
        rounding(x, q, u, r, e),
    ensures
        !d.negative(),
        d.is_integer(),
        d.magnitude() >= 0,
        nearest_even(x, d.magnitude() as nat),
    decreases q,
{
    if q >= TWO_53 {
        lemma_rounding_step(x, q, u, r, e);
        lemma_rounded_double(x, q / 2, 2 * u, r + (q % 2) * u, e + 1)
    } else {
        lemma_rounded(x, q, u, r, e);
        Double { bits: (e * TWO_52 + (rounded_quotient(q, u, r) - TWO_52)) as u64 }
    }
}

/// Every integer whose magnitude is a 64-bit number has a double that
/// stands for it.
pub proof fn lemma_integer_has_double(x: int)
    requires
        -(u64::MAX as int) <= x <= u64::MAX as int,
    ensures
        stands_for(double_of(x), x),
{
    let m = (if x < 0 {
        -x
    } else {
        x
    }) as nat;
    if m <= TWO_53 {
        lemma_small_integer(x);
    } else {
        lemma_rounding_start(m);
        let p = lemma_rounded_double(m, m, 1, 0, 1075);
        let d = if x < 0 {
            lemma_sign(p);
            Double { bits: (p.bits + TWO_63) as u64 }
        } else {
            p
        };
        assert(stands_for(d, x));
    }
}

/// The double that is put together from a magnitude below two to the 53
/// that was scaled up to a full significand.
proof fn lemma_exact_fields(x: nat, m: nat, e: nat)
    requires
        TWO_52 <= m < TWO_53,
        1023 <= e <= 1075,
        m == x * pow2((1075 - e) as nat),
    ensures
        ({
            let d = Double { bits: (e * TWO_52 + (m - TWO_52)) as u64 };
            &&& e * TWO_52 + (m - TWO_52) <= u64::MAX
            &&& !d.negative()
            &&& d.is_integer()
            &&& d.magnitude() == x
        }),
{
    let d = Double { bits: (e * TWO_52 + (m - TWO_52)) as u64 };
    let k = pow2((1075 - e) as nat) as int;
    vstd::arithmetic::power2::lemma_pow2_pos((1075 - e) as nat);
    lemma_fields(e as u64, (m - TWO_52) as u64);
    assert(d.significand() == m);
    assert(d.scale() == e - 1075);
    if e == 1075 {
        vstd::arithmetic::power2::lemma2_to64();
        assert(x * 1 == x);
        assert(m * 1 == m);
    } else {
        assert(m == k * (x as int)) by (nonlinear_arith)
            requires
                m == x * k,
        ;
        vstd::arithmetic::div_mod::lemma_div_multiples_vanish(x as int, k);
        vstd::arithmetic::div_mod::lemma_mod_multiples_basic(x as int, k);
    }
}

/// A magnitude below two to the 53 that is not zero is the magnitude of a
/// positive double without fractional part.
proof fn lemma_exact_double(x: nat, m: nat, e: nat) -> (d: Double)
    requires
        1 <= m < TWO_53,
        1023 <= e <= 1075,
        m == x * pow2((1075 - e) as nat),
        m >= pow2((1075 - e) as nat),
    ensures
        !d.negative(),
        d.is_integer(),
        d.magnitude() == x,
    decreases e,
{
    if m >= TWO_52 {
        lemma_exact_fields(x, m, e);
        Double { bits: (e * TWO_52 + (m - TWO_52)) as u64 }
    } else {
        vstd::arithmetic::power2::lemma_pow2_unfold((1075 - e + 1) as nat);
        vstd::arithmetic::power2::lemma2_to64_rest();
        if 1075 - e > 52 {
            vstd::arithmetic::power2::lemma_pow2_strictly_increases(52, (1075 - e) as nat);
        }
        assert(x * (2 * pow2((1075 - e) as nat)) == 2 * (x * pow2((1075 - e) as nat)))
            by (nonlinear_arith);
        lemma_exact_double(x, 2 * m, (e - 1) as nat)
    }
}

/// Every integer up to two to the 53 in magnitude has a double that stands
/// for it, and is read back from it as it was.
pub proof fn lemma_small_integer(x: int)
    requires
        -(TWO_53 as int) <= x <= TWO_53 as int,
    ensures
        stands_for(double_of(x), x),
        double_of(x).truncated() == x,
        double_of(x).to_i64_spec() == x,
{
    let m = (if x < 0 {
        -x
    } else {
        x
    }) as nat;
    let p = if m == 0 {
        lemma_zero_double();
        Double { bits: 0 }
    } else if m < TWO_53 {
        vstd::arithmetic::power2::lemma2_to64();
        assert(m * pow2(0) == m) by (nonlinear_arith)
            requires
                pow2(0) == 1,
        ;
        assert(spacing(m) == 1);
        lemma_exact_double(m, m, 1075)
    } else {
        lemma_fields(1076, 0);
        vstd::arithmetic::power2::lemma2_to64();
        assert(spacing(m) == 2 * spacing(m / 2));
        assert(spacing(m / 2) == 1);
        Double { bits: (1076 * TWO_52) as u64 }
    };
    assert(p.magnitude() == m);
    assert(nearest_even(m, m));
    let d = if x < 0 {
        lemma_sign(p);
        Double { bits: (p.bits + TWO_63) as u64 }
    } else {
        p
    };
    assert(stands_for(d, x));
    lemma_exact_below_two_53(x);
}

/// Positive zero is the integer 0.
proof fn lemma_zero_double()
    ensures
        ({
            let d = Double { bits: 0 };
            &&& !d.negative()
            &&& d.is_integer()
            &&& d.magnitude() == 0
            &&& nearest_even(0, 0)
        }),
{
    let d = Double { bits: 0 };
    assert(d.exponent() == 0);
    assert(d.significand() == 0);
    vstd::arithmetic::power2::lemma_pow2_pos(1074);
    assert(spacing(0) == 1);
}

/// The spacing above two to the 53 is even.
proof fn lemma_spacing_even(e: u64, u: u64)
    requires
        1075 < e <= 1086,
        u == pow2((e - 1075) as nat),
    ensures
        u == 2 * (u / 2),
{
    vstd::arithmetic::power2::lemma_pow2_unfold((e - 1075) as nat);
}

/// Whether `d` is the double that stands for the integer `x`: it has the
/// sign of `x`, no fractional part, and the magnitude nearest to that of
/// `x`. Zero is stood for by positive zero.
pub open spec fn stands_for(d: Double, x: int) -> bool {
    &&& d.negative() == (x < 0)
    &&& d.is_integer()
    &&& d.magnitude() >= 0
    &&& nearest_even(
        (if x < 0 {
            -x
        } else {
            x
        }) as nat,
        d.magnitude() as nat,
    )
}

/// The double that stands for the integer `x`.
pub open spec fn double_of(x: int) -> Double {
    choose|d: Double| stands_for(d, x)
}

/// The spacing is positive.
pub proof fn lemma_spacing_positive(m: nat)
    ensures
        spacing(m) >= 1,
    decreases m,
{
    if m >= TWO_53 {
        lemma_spacing_positive(m / 2);
    }
}

/// Only one multiple of the spacing is the nearest.
pub proof fn lemma_nearest_even_unique(m: nat, v1: nat, v2: nat)
    requires
        nearest_even(m, v1),
        nearest_even(m, v2),
    ensures
        v1 == v2,
{
    let u = spacing(m) as int;
    lemma_spacing_positive(m);
    let a = v1 as int / u;
    let b = v2 as int / u;
    vstd::arithmetic::div_mod::lemma_fundamental_div_mod(v1 as int, u);
    vstd::arithmetic::div_mod::lemma_fundamental_div_mod(v2 as int, u);
    assert(v1 == u * a);
    assert(v2 == u * b);
    if a != b {
        // the two lie one spacing apart, each half a spacing from `m`
        assert(a - b == 1 || b - a == 1) by (nonlinear_arith)
            requires
                a != b,
                u >= 1,
                v1 == u * a,
                v2 == u * b,
                -u <= v1 - v2 <= u,
        ;
        assert(u * a - u * b == u * (a - b)) by (nonlinear_arith);
        assert(v1 - v2 == u || v2 - v1 == u) by (nonlinear_arith)
            requires
                a - b == 1 || b - a == 1,
                v1 - v2 == u * (a - b),
        ;
        let d1 = if v1 >= m {
            v1 - m
        } else {
            m - v1
        };
        let d2 = if v2 >= m {
            v2 - m
        } else {
            m - v2
        };
        assert(d1 + d2 >= u);
        assert(2 * d1 == u && 2 * d2 == u);
        assert(a % 2 == 0 && b % 2 == 0);
        assert(false);
    }
}

/// The fields of an integer that is not zero: it is a normal number, and
/// its magnitude lies in the binade that its exponent names.
proof fn lemma_integer_binade(d: Double)
    requires
        d.is_integer(),
        d.magnitude() > 0,
    ensures
        1023 <= d.exponent() < 2047,
        pow2((d.exponent() - 1023) as nat) <= d.magnitude() < pow2((d.exponent() - 1022) as nat),
        d.scale() >= 0 ==> d.magnitude() == d.significand() * pow2(d.scale() as nat),
        d.scale() < 0 ==> d.significand() == d.magnitude() * pow2((-d.scale()) as nat),
{
    let e = d.exponent();
    let m = d.significand();
    let v = d.magnitude();
    vstd::arithmetic::power2::lemma2_to64_rest();
    if e == 0 {
        vstd::arithmetic::power2::lemma_pow2_strictly_increases(52, 1074);
        vstd::arithmetic::div_mod::lemma_basic_div(m, pow2(1074) as int);
        assert(false);
    }
    if d.scale() >= 0 {
        let s = d.scale() as nat;
        vstd::arithmetic::power2::lemma_pow2_adds(52, s);
        vstd::arithmetic::power2::lemma_pow2_adds(53, s);
        vstd::arithmetic::power2::lemma_pow2_pos(s);
        assert(pow2(52) * pow2(s) <= m * pow2(s) < pow2(53) * pow2(s)) by (nonlinear_arith)
            requires
                pow2(52) <= m < pow2(53),
                pow2(s) > 0,
        ;
    } else {
        let t = (-d.scale()) as nat;
        let k = pow2(t) as int;
        vstd::arithmetic::power2::lemma_pow2_pos(t);
        vstd::arithmetic::div_mod::lemma_fundamental_div_mod(m, k);
        assert(m == k * v);
        assert(m == v * k) by (nonlinear_arith)
            requires
                m == k * v,
        ;
        if t > 52 {
            vstd::arithmetic::power2::lemma_pow2_strictly_increases(53, (t + 1) as nat);
            vstd::arithmetic::power2::lemma_pow2_unfold((t + 1) as nat);
            assert(v * k >= k) by (nonlinear_arith)
                requires
                    v >= 1,
                    k > 0,
            ;
            if t > 53 {
                vstd::arithmetic::power2::lemma_pow2_strictly_increases(53, t);
            }
            assert(false);
        }
        vstd::arithmetic::power2::lemma_pow2_adds((52 - t) as nat, t);
        vstd::arithmetic::power2::lemma_pow2_adds((53 - t) as nat, t);
        let lo = pow2((52 - t) as nat) as int;
        let hi = pow2((53 - t) as nat) as int;
        assert(lo <= v < hi) by (nonlinear_arith)
            requires
                lo * k <= v * k < hi * k,
                k > 0,
        ;
    }
}

/// An integer of magnitude zero is a zero.
proof fn lemma_integer_zero(d: Double)
    requires
        d.is_integer(),
        d.magnitude() == 0,
    ensures
        d.exponent() == 0,
        d.fraction() == 0,
{
    let m = d.significand();
    vstd::arithmetic::power2::lemma2_to64_rest();
    if d.exponent() != 0 {
        if d.scale() >= 0 {
            let s = d.scale() as nat;
            vstd::arithmetic::power2::lemma_pow2_pos(s);
            assert(m * pow2(s) > 0) by (nonlinear_arith)
                requires
                    m > 0,
                    pow2(s) > 0,
            ;
        } else {
            let t = (-d.scale()) as nat;
            let k = pow2(t) as int;
            vstd::arithmetic::power2::lemma_pow2_pos(t);
            vstd::arithmetic::div_mod::lemma_fundamental_div_mod(m, k);
            assert(m / k == 0);
            assert(m % k == 0);
            assert(k * (m / k) == 0) by (nonlinear_arith)
                requires
                    m / k == 0,
            ;
            assert(m == 0);
            assert(m >= TWO_52);
        }
        assert(false);
    } else {
        vstd::arithmetic::power2::lemma_pow2_strictly_increases(52, 1074);
        vstd::arithmetic::div_mod::lemma_small_mod(m as nat, pow2(1074));
    }
}

/// An encoding is its three fields.
proof fn lemma_fields_are_bits(a: Double, b: Double)
    requires
        a.negative() == b.negative(),
        a.exponent() == b.exponent(),
        a.fraction() == b.fraction(),
    ensures
        a == b,
{
    let x = a.bits as int;
    let y = b.bits as int;
    assert(x == (x / 0x10_0000_0000_0000) * 0x10_0000_0000_0000 + x % 0x10_0000_0000_0000);
    assert(y == (y / 0x10_0000_0000_0000) * 0x10_0000_0000_0000 + y % 0x10_0000_0000_0000);
    assert(x / 0x10_0000_0000_0000 < 4096);
    assert(y / 0x10_0000_0000_0000 < 4096);
    assert((x >= 0x8000_0000_0000_0000) == (x / 0x10_0000_0000_0000 >= 2048));
    assert((y >= 0x8000_0000_0000_0000) == (y / 0x10_0000_0000_0000 >= 2048));
}

/// An integer has one double that stands for it, and no other.
pub proof fn lemma_stands_for_unique(x: int, a: Double, b: Double)
    requires
        stands_for(a, x),
        stands_for(b, x),
    ensures
        a == b,
{
    let m = (if x < 0 {
        -x
    } else {
        x
    }) as nat;
    lemma_nearest_even_unique(m, a.magnitude() as nat, b.magnitude() as nat);
    let v = a.magnitude();
    if v == 0 {
        lemma_integer_zero(a);
        lemma_integer_zero(b);
    } else {
        lemma_integer_binade(a);
        lemma_integer_binade(b);
        let ea = a.exponent();
        let eb = b.exponent();
        if ea < eb {
            if ea + 1 < eb {
                vstd::arithmetic::power2::lemma_pow2_strictly_increases(
                    (ea - 1022) as nat,
                    (eb - 1023) as nat,
                );
            }
            assert(false);
        }
        if eb < ea {
            if eb + 1 < ea {
                vstd::arithmetic::power2::lemma_pow2_strictly_increases(
                    (eb - 1022) as nat,
                    (ea - 1023) as nat,
                );
            }
            assert(false);
        }
        if a.scale() >= 0 {
            let k = pow2(a.scale() as nat) as int;
            vstd::arithmetic::power2::lemma_pow2_pos(a.scale() as nat);
            assert(a.significand() == b.significand()) by (nonlinear_arith)
                requires
                    a.significand() * k == b.significand() * k,
                    k > 0,
            ;
        }
    }
    lemma_fields_are_bits(a, b);
}

/// The double that [`Double::from_i64`] and its like compute is the one
/// that stands for the integer.
pub proof fn lemma_double_of(x: int, d: Double)
    requires
        stands_for(d, x),
    ensures
        d == double_of(x),
{
    lemma_stands_for_unique(x, d, double_of(x));
}

/// Up to two to the 53 in magnitude, an integer is read back from its
/// double as it was.
proof fn lemma_exact_below_two_53(x: int)
    requires
        -(TWO_53 as int) <= x <= TWO_53 as int,
        stands_for(double_of(x), x),
    ensures
        double_of(x).truncated() == x,
        double_of(x).to_i64_spec() == x,
{
    let d = double_of(x);
    let m = (if x < 0 {
        -x
    } else {
        x
    }) as nat;
    if m < TWO_53 {
        assert(spacing(m) == 1);
    } else {
        assert(spacing(m) == 2 * spacing(m / 2));
        assert(spacing(m / 2) == 1);
    }
    let v = d.magnitude();
    assert(v == m) by {
        let u = spacing(m) as int;
        assert(u == 1 || u == 2);
        assert(v % u == 0);
        assert(m as int % u == 0);
    }
    assert(d.truncated() == x);
    assert(i64::MIN <= x <= i64::MAX);
    assert(d.is_finite());
}

/// Two to the power 23: the weight of the hidden bit of a single-precision
/// significand.
pub const TWO_23: u32 = 0x80_0000;

/// A single-precision number, held as the 32 bits of its encoding: one sign
/// bit, eight exponent bits, twenty-three fraction bits.
#[derive(Debug, Clone, Copy, PartialEq, Eq, Structural)]
pub struct Single {
    pub bits: u32,
}

impl Single {
    /// Whether the sign bit is set.
    pub open spec fn negative(self) -> bool {
        self.bits >= 0x8000_0000
    }

    /// The eight exponent bits.
    pub open spec fn exponent(self) -> int {
        (self.bits as int / TWO_23 as int) % 256
    }

    /// The twenty-three fraction bits.
    pub open spec fn fraction(self) -> int {
        self.bits as int % TWO_23 as int
    }

    /// Whether the number is neither an infinity nor a NaN.
    pub open spec fn is_finite(self) -> bool {
        self.exponent() != 255
    }

    /// The significand as an integer.
    pub open spec fn significand(self) -> int {
        if self.exponent() == 0 {
            self.fraction()
        } else {
            self.fraction() + TWO_23
        }
    }

    /// The power of two by which the significand is scaled.
    pub open spec fn scale(self) -> int {
        if self.exponent() == 0 {
            -149
        } else {
            self.exponent() - 150
        }
    }

    /// The number with the given encoding.
    pub fn from_bits(bits: u32) -> (s: Single)
        ensures
            s.bits == bits,
    {
        Single { bits }
    }

    /// The encoding of the number.
    pub fn to_bits(self) -> (bits: u32)
        ensures
            bits == self.bits,
    {
        self.bits
    }
}

/// The exponent and fraction bits of the double with the significand `m`,
/// scaled up to its full width, where `e` is the exponent field that goes
/// with `m` as it stands.
pub open spec fn normalized(m: nat, e: nat) -> nat
    decreases e,
{
    if m >= TWO_52 || e == 0 {
        (e * TWO_52 + (m - TWO_52)) as nat
    } else {
        normalized(2 * m, (e - 1) as nat)
    }
}

/// The encoding of the double with the value of a single-precision number.
/// An infinity stays one, and a NaN keeps its fraction bits in the high
/// places.
pub open spec fn widened(s: Single) -> nat {
    let sign: nat = if s.negative() {
        TWO_63 as nat
    } else {
        0
    };
    if s.exponent() == 255 {
        (sign + 2047 * TWO_52 + s.fraction() * 0x2000_0000) as nat
    } else if s.exponent() == 0 {
        if s.fraction() == 0 {
            sign
        } else {
            sign + normalized(s.fraction() as nat, 926)
        }
    } else {
        (sign + (s.exponent() + 896) * TWO_52 + s.fraction() * 0x2000_0000) as nat
    }
}

impl Double {
    /// The double with the value of a single-precision number. Every such
    /// number is a double: nothing is rounded.
    pub fn from_single(s: Single) -> (d: Double)
        ensures
            d.bits == widened(s),
            d.negative() == s.negative(),
            d.is_finite() == s.is_finite(),
            s.is_finite() ==> d.scale() <= s.scale() && d.significand() == s.significand() * pow2(
                (s.scale() - d.scale()) as nat,
            ),
            !s.is_finite() ==> (d.fraction() == 0) == (s.fraction() == 0),
    {
        let e = (s.bits >> 23) & 0xff;
        let f = s.bits & 0x7f_ffff;
        let neg = (s.bits >> 31) == 1;
        proof {
            let b = s.bits;
            assert((b >> 23) & 0xff == (b / 0x80_0000) % 0x100) by (bit_vector);
            assert(b & 0x7f_ffff == b % 0x80_0000) by (bit_vector);
            assert(((b >> 31) == 1) == (b >= 0x8000_0000)) by (bit_vector);
            vstd::arithmetic::power2::lemma2_to64();
            vstd::arithmetic::power2::lemma2_to64_rest();
        }
        let p: Double = if e == 255 {
            let bits = 2047 * TWO_52 + (f as u64) * 0x2000_0000;
            proof {
                lemma_nonfinite_fields((f as u64 * 0x2000_0000) as u64);
            }
            Double { bits }
        } else if e == 0 {
            if f == 0 {
                proof {
                    lemma_zero_double();
                    assert(0 * pow2(925) == 0);
                }
                Double { bits: 0 }
            } else {
                let mut m: u64 = f as u64;
                let mut x: u64 = 926;
                proof {
                    assert(f * pow2(0) == f) by (nonlinear_arith)
                        requires
                            pow2(0) == 1,
                    ;
                }
                while m < TWO_52
                    invariant
                        1 <= m < TWO_53,
                        874 <= x <= 926,
                        m == f * pow2((926 - x) as nat),
                        m >= pow2((926 - x) as nat),
                        normalized(f as nat, 926) == normalized(m as nat, x as nat),
                    decreases x,
                {
                    proof {
                        vstd::arithmetic::power2::lemma_pow2_unfold((926 - x + 1) as nat);
                        vstd::arithmetic::power2::lemma2_to64_rest();
                        if 926 - x > 52 {
                            vstd::arithmetic::power2::lemma_pow2_strictly_increases(
                                52,
                                (926 - x) as nat,
                            );
                        }
                        assert(926 - x < 52);
                        assert(f * (2 * pow2((926 - x) as nat)) == 2 * (f * pow2((926 - x) as nat)))
                            by (nonlinear_arith);
                    }
                    m = m * 2;
                    x = x - 1;
                }
                proof {
                    lemma_fields(x, (m - TWO_52) as u64);
                }
                Double { bits: x * TWO_52 + (m - TWO_52) }
            }
        } else {
            let x = (e as u64) + 896;
            let frac = (f as u64) * 0x2000_0000;
            proof {
                lemma_fields(x, frac);
                assert((f + 0x80_0000) * 0x2000_0000 == f * 0x2000_0000 + 0x10_0000_0000_0000)
                    by (nonlinear_arith);
            }
            Double { bits: x * TWO_52 + frac }
        };
        if neg {
            proof {
                lemma_sign(p);
            }
            Double { bits: p.bits + TWO_63 }
        } else {
            p
        }
    }
}

/// The fields of the encoding of an infinity or a NaN.
proof fn lemma_nonfinite_fields(f: u64)
    requires
        f < TWO_52,
    ensures
        ({
            let d = Double { bits: (2047 * TWO_52 + f) as u64 };
            &&& 2047 * TWO_52 + f < TWO_63
            &&& !d.negative()
            &&& d.exponent() == 2047
            &&& d.fraction() == f
            &&& !d.is_finite()
        }),
{
    let b = 2047 * TWO_52 + f;
    vstd::arithmetic::div_mod::lemma_fundamental_div_mod_converse(
        b as int,
        TWO_52 as int,
        2047,
        f as int,
    );
}

} // verus!
