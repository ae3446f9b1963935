use node_api::error::{NapiError, NapiErrorType};
use node_api::host::NapiEnv;
use node_api::napi::{
    array_with_length, create_number, create_object, create_string_utf8, get_array_length,
    get_boolean, get_element, get_null, get_undefined, get_value_bool, get_value_double,
    get_value_int64, get_value_string_utf8, get_value_uint32, set_element, type_of,
};
use node_api::napi_value::{
    check_napi_args_length, check_napi_type, get_value_uint64, FromNapiValue, FromNapiValues,
    IntoNapiValue,
};
use node_api::number::Double;
use node_api::NapiValueType;

#[test]
fn it_works() {}

#[test]
fn text_round_trip() {
    let mut env = NapiEnv::new();
    let h = "hello".to_string().into_napi_value(&mut env).unwrap();
    let back = String::from_napi_values(&mut env, 0, &[h]).unwrap();
    assert_eq!(back, "hello");
}

#[test]
fn text_beyond_ascii_round_trips() {
    let mut env = NapiEnv::new();
    let text = "h\u{e9}llo \u{2713} \u{1F600}";
    let h = text.into_napi_value(&mut env).unwrap();
    assert_eq!(get_value_string_utf8(&mut env, h).unwrap(), text);
    let empty = "".into_napi_value(&mut env).unwrap();
    assert_eq!(get_value_string_utf8(&mut env, empty).unwrap(), "");
}

#[test]
fn bool_round_trip() {
    let mut env = NapiEnv::new();
    for x in [true, false] {
        let h = x.into_napi_value(&mut env).unwrap();
        assert_eq!(bool::from_napi_values(&mut env, 0, &[h]).unwrap(), x);
    }
}

#[test]
fn double_round_trip() {
    let mut env = NapiEnv::new();
    for x in [0.0f64, -0.0, 42.1337, -1.5e300, f64::INFINITY, f64::MIN_POSITIVE] {
        let h = Double::from_bits(x.to_bits()).into_napi_value(&mut env).unwrap();
        let back = Double::from_napi_values(&mut env, 0, &[h]).unwrap();
        assert_eq!(back.to_bits(), x.to_bits());
    }
}

#[test]
fn i64_round_trip() {
    let mut env = NapiEnv::new();
    for x in [0i64, 1, -1, 42, -42, 1 << 40, 9007199254740992, -9007199254740992] {
        let h = x.into_napi_value(&mut env).unwrap();
        assert_eq!(i64::from_napi_values(&mut env, 0, &[h]).unwrap(), x);
    }
}

#[test]
fn i64_beyond_two_to_the_53_loses_precision() {
    let mut env = NapiEnv::new();
    let h = 9007199254740993i64.into_napi_value(&mut env).unwrap();
    assert_eq!(i64::from_napi_values(&mut env, 0, &[h]).unwrap(), 9007199254740992);
    let h = (i64::MAX - 1).into_napi_value(&mut env).unwrap();
    assert_eq!(i64::from_napi_values(&mut env, 0, &[h]).unwrap(), i64::MAX);
}

#[test]
fn small_integers_encode_as_numbers() {
    let mut env = NapiEnv::new();
    let a = 200u8.into_napi_value(&mut env).unwrap();
    let b = 65535u16.into_napi_value(&mut env).unwrap();
    let c = 4000000000u32.into_napi_value(&mut env).unwrap();
    let d = (-128i8).into_napi_value(&mut env).unwrap();
    let e = (-32768i16).into_napi_value(&mut env).unwrap();
    let f = i32::MIN.into_napi_value(&mut env).unwrap();
    let g = 42u64.into_napi_value(&mut env).unwrap();
    assert_eq!(get_value_double(&mut env, a).unwrap().to_bits(), 200.0f64.to_bits());
    assert_eq!(get_value_double(&mut env, b).unwrap().to_bits(), 65535.0f64.to_bits());
    assert_eq!(get_value_double(&mut env, c).unwrap().to_bits(), 4000000000.0f64.to_bits());
    assert_eq!(get_value_double(&mut env, d).unwrap().to_bits(), (-128.0f64).to_bits());
    assert_eq!(get_value_double(&mut env, e).unwrap().to_bits(), (-32768.0f64).to_bits());
    assert_eq!(get_value_double(&mut env, f).unwrap().to_bits(), (-2147483648.0f64).to_bits());
    assert_eq!(get_value_double(&mut env, g).unwrap().to_bits(), 42.0f64.to_bits());
    for h in [a, b, c, d, e, f, g] {
        assert_eq!(type_of(&mut env, h).unwrap(), NapiValueType::Number);
    }
}

#[test]
fn u64_is_read_through_32_bits() {
    let mut env = NapiEnv::new();
    let h = 7u64.into_napi_value(&mut env).unwrap();
    assert_eq!(u64::from_napi_values(&mut env, 0, &[h]).unwrap(), 7);
    // 2^32 + 5 comes back as 5
    let big = 4294967301u64.into_napi_value(&mut env).unwrap();
    assert_eq!(u64::from_napi_values(&mut env, 0, &[big]).unwrap(), 5);
    assert_eq!(get_value_uint64(&mut env, big).unwrap(), 5);
    assert_eq!(get_value_uint32(&mut env, big).unwrap(), 5);
    assert_eq!(get_value_int64(&mut env, big).unwrap(), 4294967301);
    let negative = create_number(&mut env, Double::from_bits((-1.0f64).to_bits())).unwrap();
    assert_eq!(get_value_uint32(&mut env, negative).unwrap(), u32::MAX);
    assert_eq!(get_value_int64(&mut env, negative).unwrap(), -1);
}

#[test]
fn unit_decodes_from_anything_and_encodes_to_undefined() {
    let mut env = NapiEnv::new();
    let h = get_boolean(&mut env, true).unwrap();
    assert!(<()>::from_napi_values(&mut env, 0, &[]).is_ok());
    assert!(<()>::from_napi_values(&mut env, 0, &[h, h, 99]).is_ok());
    let u = ().into_napi_value(&mut env).unwrap();
    assert_eq!(type_of(&mut env, u).unwrap(), NapiValueType::Undefined);
}

#[test]
fn scalar_arity_is_enforced() {
    let mut env = NapiEnv::new();
    let h = get_boolean(&mut env, true).unwrap();
    let none: Result<bool, NapiError> = bool::from_napi_values(&mut env, 0, &[]);
    let e = none.unwrap_err();
    assert_eq!(e.error_code, NapiErrorType::InvalidArg);
    assert_eq!(e.error_message, "expected 1 argument, got 0");
    assert_eq!(e.engine_error_code, 0);
    let two = bool::from_napi_values(&mut env, 0, &[h, h]).unwrap_err();
    assert_eq!(two.error_code, NapiErrorType::InvalidArg);
    assert_eq!(two.error_message, "expected 1 argument, got 2");
    let many = i64::from_napi_values(&mut env, 0, &[h; 12]).unwrap_err();
    assert_eq!(many.error_message, "expected 1 argument, got 12");
    assert_eq!(String::from_napi_values(&mut env, 0, &[]).unwrap_err().error_code, NapiErrorType::InvalidArg);
    assert_eq!(Double::from_napi_values(&mut env, 0, &[h, h, h]).unwrap_err().error_code, NapiErrorType::InvalidArg);
    assert_eq!(u64::from_napi_values(&mut env, 0, &[]).unwrap_err().error_code, NapiErrorType::InvalidArg);
}

#[test]
fn argument_count_is_checked_exactly() {
    let env = NapiEnv::new();
    assert!(check_napi_args_length(&env, &[1, 2, 3], 3).is_ok());
    assert!(check_napi_args_length(&env, &[], 0).is_ok());
    let e = check_napi_args_length(&env, &[1, 2, 3], 2).unwrap_err();
    assert_eq!(e.error_message, "expected 2 argument, got 3");
    assert_eq!(e.error_code, NapiErrorType::InvalidArg);
    let args = vec![0usize; 1234];
    let e = check_napi_args_length(&env, &args, 100).unwrap_err();
    assert_eq!(e.error_message, "expected 100 argument, got 1234");
}

#[test]
fn type_mismatch_names_both_types() {
    let mut env = NapiEnv::new();
    let text = create_string_utf8(&mut env, "text").unwrap();
    let flag = get_boolean(&mut env, false).unwrap();
    let e = bool::from_napi_values(&mut env, 0, &[text]).unwrap_err();
    assert_eq!(e.error_code, NapiErrorType::BooleanExpected);
    assert_eq!(
        e.error_message,
        "expected argument to be of type Boolean, but found it to be of type String"
    );
    let e = String::from_napi_values(&mut env, 0, &[flag]).unwrap_err();
    assert_eq!(e.error_code, NapiErrorType::StringExpected);
    assert_eq!(
        e.error_message,
        "expected argument to be of type String, but found it to be of type Boolean"
    );
    for e in [
        i64::from_napi_values(&mut env, 0, &[text]).unwrap_err(),
        u64::from_napi_values(&mut env, 0, &[text]).unwrap_err(),
        Double::from_napi_values(&mut env, 0, &[text]).unwrap_err(),
    ] {
        assert_eq!(e.error_code, NapiErrorType::NumberExpected);
        assert_eq!(
            e.error_message,
            "expected argument to be of type Number, but found it to be of type String"
        );
    }
}

#[test]
fn type_check_reports_every_tag() {
    let mut env = NapiEnv::new();
    let undefined = get_undefined(&mut env).unwrap();
    let null = get_null(&mut env).unwrap();
    let object = create_object(&mut env).unwrap();
    assert!(check_napi_type(&mut env, NapiValueType::Undefined, undefined).is_ok());
    assert!(check_napi_type(&mut env, NapiValueType::Null, null).is_ok());
    let e = check_napi_type(&mut env, NapiValueType::Object, null).unwrap_err();
    assert_eq!(e.error_code, NapiErrorType::ObjectExpected);
    assert_eq!(e.error_message, "expected argument to be of type Object, but found it to be of type Null");
    let e = check_napi_type(&mut env, NapiValueType::Function, object).unwrap_err();
    assert_eq!(e.error_code, NapiErrorType::FunctionExpected);
    assert_eq!(e.error_message, "expected argument to be of type Function, but found it to be of type Object");
    let e = check_napi_type(&mut env, NapiValueType::Symbol, undefined).unwrap_err();
    assert_eq!(e.error_code, NapiErrorType::InvalidArg);
    assert_eq!(e.error_message, "expected argument to be of type Symbol, but found it to be of type Undefined");
    let e = check_napi_type(&mut env, NapiValueType::External, undefined).unwrap_err();
    assert_eq!(e.error_code, NapiErrorType::InvalidArg);
    // a handle that names no value is the host's failure, not a mismatch
    let e = check_napi_type(&mut env, NapiValueType::Number, 999).unwrap_err();
    assert_eq!(e.error_code, NapiErrorType::InvalidArg);
    assert_eq!(e.error_message, "Invalid argument");
}

#[test]
fn single_values_are_read_with_a_type_check() {
    let mut env = NapiEnv::new();
    let n = create_number(&mut env, Double::from_bits(42.0f64.to_bits())).unwrap();
    assert_eq!(i64::from_napi_value(&mut env, n).unwrap(), 42);
    assert_eq!(u64::from_napi_value(&mut env, n).unwrap(), 42);
    assert_eq!(Double::from_napi_value(&mut env, n).unwrap().to_bits(), 42.0f64.to_bits());
    assert_eq!(bool::from_napi_value(&mut env, n).unwrap_err().error_code, NapiErrorType::BooleanExpected);
    assert_eq!(String::from_napi_value(&mut env, n).unwrap_err().error_code, NapiErrorType::StringExpected);
}

#[test]
fn decodes_sequence_of_text() {
    let mut env = NapiEnv::new();
    let h = vec!["one", "two", "three"].into_napi_value(&mut env).unwrap();
    assert_eq!(get_array_length(&mut env, h).unwrap(), 3);
    let back: Vec<String> = Vec::from_napi_values(&mut env, 0, &[h]).unwrap();
    assert_eq!(back, vec!["one".to_string(), "two".to_string(), "three".to_string()]);
}

#[test]
fn decodes_two_scalar_elements() {
    let mut env = NapiEnv::new();
    let a = create_string_utf8(&mut env, "1").unwrap();
    let b = create_string_utf8(&mut env, "2").unwrap();
    let array = array_with_length(&mut env, 2).unwrap();
    set_element(&mut env, array, 0, a).unwrap();
    set_element(&mut env, array, 1, b).unwrap();
    let back: Vec<String> = Vec::from_napi_values(&mut env, 0, &[array]).unwrap();
    assert_eq!(back, vec!["1".to_string(), "2".to_string()]);
}

#[test]
fn sequence_from_a_value_that_is_no_array() {
    let mut env = NapiEnv::new();
    let object = create_object(&mut env).unwrap();
    let e = Vec::<String>::from_napi_values(&mut env, 0, &[object]).unwrap_err();
    assert_eq!(e.error_code, NapiErrorType::InvalidArg);
    assert_eq!(e.error_message, "expected array");
    let text = create_string_utf8(&mut env, "abc").unwrap();
    let e = Vec::<i64>::from_napi_values(&mut env, 0, &[text]).unwrap_err();
    assert_eq!(e.error_message, "expected array");
    let e = Vec::<i64>::from_napi_values(&mut env, 0, &[]).unwrap_err();
    assert_eq!(e.error_message, "expected 1 argument, got 0");
    let e = Vec::<i64>::from_napi_values(&mut env, 0, &[12345]).unwrap_err();
    assert_eq!(e.error_message, "Invalid argument");
}

#[test]
fn sequence_fails_with_the_error_of_its_element() {
    let mut env = NapiEnv::new();
    let a = create_string_utf8(&mut env, "1").unwrap();
    let b = get_boolean(&mut env, true).unwrap();
    let c = create_string_utf8(&mut env, "3").unwrap();
    let array = array_with_length(&mut env, 3).unwrap();
    set_element(&mut env, array, 0, a).unwrap();
    set_element(&mut env, array, 1, b).unwrap();
    set_element(&mut env, array, 2, c).unwrap();
    let e = Vec::<String>::from_napi_values(&mut env, 0, &[array]).unwrap_err();
    assert_eq!(e.error_code, NapiErrorType::StringExpected);
    assert_eq!(
        e.error_message,
        "expected argument to be of type String, but found it to be of type Boolean"
    );
}

#[test]
fn holes_of_an_array_decode_as_undefined() {
    let mut env = NapiEnv::new();
    let array = array_with_length(&mut env, 2).unwrap();
    let units: Vec<()> = Vec::from_napi_values(&mut env, 0, &[array]).unwrap();
    assert_eq!(units.len(), 2);
    let e = Vec::<bool>::from_napi_values(&mut env, 0, &[array]).unwrap_err();
    assert_eq!(e.error_code, NapiErrorType::BooleanExpected);
    assert_eq!(
        e.error_message,
        "expected argument to be of type Boolean, but found it to be of type Undefined"
    );
}

#[test]
fn nested_sequences_round_trip() {
    let mut env = NapiEnv::new();
    let value = vec![vec![1i64, 2], vec![], vec![3]];
    let h = value.clone().into_napi_value(&mut env).unwrap();
    let back: Vec<Vec<i64>> = Vec::from_napi_values(&mut env, 0, &[h]).unwrap();
    assert_eq!(back, value);
}

#[test]
fn slices_encode_as_arrays() {
    let mut env = NapiEnv::new();
    let items = [true, false, true];
    let h = (&items[..]).into_napi_value(&mut env).unwrap();
    assert_eq!(get_array_length(&mut env, h).unwrap(), 3);
    let second = get_element(&mut env, h, 1).unwrap();
    assert_eq!(get_value_bool(&mut env, second).unwrap(), false);
    let back: Vec<bool> = Vec::from_napi_values(&mut env, 0, &[h]).unwrap();
    assert_eq!(back, vec![true, false, true]);
}

#[test]
fn sequence_encoding_stops_at_the_first_failure() {
    let mut env = NapiEnv::new();
    let before = env.value_count();
    let e = vec!["fine", "with\0zero", "never"].into_napi_value(&mut env).unwrap_err();
    assert_eq!(e.error_code, NapiErrorType::GenericFailure);
    assert_eq!(e.error_message, "string must not contain 0 byte");
    // the array and the first element were created, the third never was
    assert_eq!(env.value_count(), before + 2);
}

#[test]
fn empty_sequence_round_trips() {
    let mut env = NapiEnv::new();
    let h = Vec::<String>::new().into_napi_value(&mut env).unwrap();
    assert_eq!(get_array_length(&mut env, h).unwrap(), 0);
    let back: Vec<String> = Vec::from_napi_values(&mut env, 0, &[h]).unwrap();
    assert!(back.is_empty());
}

#[test]
fn fixed_size_lists_encode_as_arrays() {
    let mut env = NapiEnv::new();
    let h = [1i64, 2, 3].into_napi_value(&mut env).unwrap();
    assert_eq!(get_array_length(&mut env, h).unwrap(), 3);
    let back: Vec<i64> = Vec::from_napi_values(&mut env, 0, &[h]).unwrap();
    assert_eq!(back, vec![1, 2, 3]);
    let none: [bool; 0] = [];
    let h = none.into_napi_value(&mut env).unwrap();
    assert_eq!(get_array_length(&mut env, h).unwrap(), 0);
}
