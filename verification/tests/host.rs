use node_api::error::{ExtendedErrorInfo, NapiError, NapiErrorType, NapiStatus};
use node_api::host::NapiEnv;
use node_api::napi::{
    array_with_length, call_function, create_array, create_number, create_object,
    create_string_utf8, get_array_length, get_boolean, get_element, get_global,
    get_last_error_info, get_last_napi_error, get_named_property, get_null, get_undefined,
    get_value_bool, get_value_double, get_value_int64, get_value_string_utf8, is_array,
    module_register, napi_either, set_element, set_named_property, throw_error, type_of,
};
use node_api::number::Double;
use node_api::text::{contains_nul, decimal_string};
use node_api::{create_function, NapiModule, NapiValueType};

#[test]
fn a_new_environment_is_empty() {
    let env = NapiEnv::new();
    assert_eq!(env.value_count(), 0);
    assert_eq!(env.call_count(), 0);
    assert_eq!(env.module_count(), 0);
    assert!(env.pending_exception().is_none());
    assert!(env.call(0).is_none());
    assert!(env.async_work(0).is_none());
    assert!(!env.slot_attached(0));
}

#[test]
fn values_are_created_with_increasing_handles() {
    let mut env = NapiEnv::new();
    assert_eq!(get_undefined(&mut env).unwrap(), 0);
    assert_eq!(get_null(&mut env).unwrap(), 1);
    assert_eq!(get_boolean(&mut env, true).unwrap(), 2);
    assert_eq!(create_object(&mut env).unwrap(), 3);
    assert_eq!(create_array(&mut env).unwrap(), 4);
    assert_eq!(array_with_length(&mut env, 5).unwrap(), 5);
    assert_eq!(create_number(&mut env, Double::from_bits(1.5f64.to_bits())).unwrap(), 6);
    assert_eq!(create_string_utf8(&mut env, "s").unwrap(), 7);
    assert_eq!(env.value_count(), 8);
    let tags = [
        NapiValueType::Undefined,
        NapiValueType::Null,
        NapiValueType::Boolean,
        NapiValueType::Object,
        NapiValueType::Object,
        NapiValueType::Object,
        NapiValueType::Number,
        NapiValueType::String,
    ];
    for (h, tag) in tags.iter().enumerate() {
        assert_eq!(type_of(&mut env, h).unwrap(), *tag);
    }
    assert_eq!(is_array(&mut env, 3).unwrap(), false);
    assert_eq!(is_array(&mut env, 4).unwrap(), true);
    assert_eq!(get_array_length(&mut env, 5).unwrap(), 5);
}

#[test]
fn the_global_object_is_created_once() {
    let mut env = NapiEnv::new();
    let g = get_global(&mut env).unwrap();
    let h = get_global(&mut env).unwrap();
    assert_eq!(g, h);
    assert_eq!(env.value_count(), 1);
    assert_eq!(type_of(&mut env, g).unwrap(), NapiValueType::Object);
}

#[test]
fn host_failures_carry_the_kind_of_their_status() {
    let mut env = NapiEnv::new();
    let text = create_string_utf8(&mut env, "x").unwrap();
    let cases = [
        (get_value_bool(&mut env, text).unwrap_err(), NapiErrorType::BooleanExpected, "A boolean was expected"),
        (get_value_double(&mut env, text).map(|_| ()).unwrap_err(), NapiErrorType::NumberExpected, "A number was expected"),
        (get_value_int64(&mut env, text).map(|_| ()).unwrap_err(), NapiErrorType::NumberExpected, "A number was expected"),
        (get_array_length(&mut env, text).map(|_| ()).unwrap_err(), NapiErrorType::ArrayExpected, "An array was expected"),
        (get_named_property(&mut env, text, "p").map(|_| ()).unwrap_err(), NapiErrorType::ObjectExpected, "An object was expected"),
        (set_named_property(&mut env, text, "p", text).unwrap_err(), NapiErrorType::ObjectExpected, "An object was expected"),
        (get_element(&mut env, text, 0).map(|_| ()).unwrap_err(), NapiErrorType::ArrayExpected, "An array was expected"),
        (set_element(&mut env, text, 0, text).unwrap_err(), NapiErrorType::ArrayExpected, "An array was expected"),
        (call_function(&mut env, text, text, &[]).map(|_| ()).unwrap_err(), NapiErrorType::FunctionExpected, "A function was expected"),
        (type_of(&mut env, 77).map(|_| ()).unwrap_err(), NapiErrorType::InvalidArg, "Invalid argument"),
        (is_array(&mut env, 77).map(|_| ()).unwrap_err(), NapiErrorType::InvalidArg, "Invalid argument"),
    ];
    for (e, kind, message) in cases {
        assert_eq!(e.error_code, kind);
        assert_eq!(e.error_message, message);
        assert_eq!(e.engine_error_code, 0);
    }
    let flag = get_boolean(&mut env, true).unwrap();
    let e = get_value_string_utf8(&mut env, flag).unwrap_err();
    assert_eq!(e.error_code, NapiErrorType::StringExpected);
    assert_eq!(e.error_message, "A string was expected");
}

#[test]
fn the_last_error_is_kept_until_the_next_success() {
    let mut env = NapiEnv::new();
    assert_eq!(get_last_error_info(&env).unwrap_err(), NapiStatus::GenericFailure);
    assert_eq!(get_last_napi_error(&env).unwrap_err(), NapiErrorType::GenericFailure);
    let _ = type_of(&mut env, 5);
    let info = get_last_error_info(&env).unwrap();
    assert_eq!(info.error_code, NapiStatus::InvalidArg);
    assert_eq!(info.error_message.as_deref(), Some("Invalid argument"));
    assert_eq!(get_last_napi_error(&env).unwrap().error_code, NapiErrorType::InvalidArg);
    get_undefined(&mut env).unwrap();
    assert!(get_last_error_info(&env).is_err());
}

#[test]
fn a_status_becomes_a_value_or_the_recorded_error() {
    let mut env = NapiEnv::new();
    assert_eq!(napi_either(&env, NapiStatus::Success, 7).unwrap(), 7);
    // nothing is recorded yet: the failure has no record to go by
    let e = napi_either(&env, NapiStatus::ObjectExpected, 7).unwrap_err();
    assert_eq!(e.error_code, NapiErrorType::GenericFailure);
    assert_eq!(e.error_message, "error fetching last napi error");
    let _ = type_of(&mut env, 5);
    let e = napi_either(&env, NapiStatus::ObjectExpected, 7).unwrap_err();
    assert_eq!(e.error_code, NapiErrorType::InvalidArg);
    assert_eq!(e.error_message, "Invalid argument");
}

#[test]
fn every_status_has_its_kind() {
    let cases = [
        (NapiStatus::InvalidArg, NapiErrorType::InvalidArg),
        (NapiStatus::ObjectExpected, NapiErrorType::ObjectExpected),
        (NapiStatus::StringExpected, NapiErrorType::StringExpected),
        (NapiStatus::NameExpected, NapiErrorType::NameExpected),
        (NapiStatus::FunctionExpected, NapiErrorType::FunctionExpected),
        (NapiStatus::NumberExpected, NapiErrorType::NumberExpected),
        (NapiStatus::BooleanExpected, NapiErrorType::BooleanExpected),
        (NapiStatus::ArrayExpected, NapiErrorType::ArrayExpected),
        (NapiStatus::GenericFailure, NapiErrorType::GenericFailure),
        (NapiStatus::PendingException, NapiErrorType::PendingException),
        (NapiStatus::Cancelled, NapiErrorType::Cancelled),
        (NapiStatus::StatusLast, NapiErrorType::GenericFailure),
        (NapiStatus::Success, NapiErrorType::GenericFailure),
    ];
    for (status, kind) in cases {
        assert_eq!(NapiErrorType::from(status), kind);
    }
}

#[test]
fn an_error_record_becomes_an_error() {
    let e = NapiError::from_error_info(ExtendedErrorInfo {
        error_message: Some("boom".to_string()),
        engine_error_code: 17,
        error_code: NapiStatus::Cancelled,
    });
    assert_eq!(e.error_message, "boom");
    assert_eq!(e.engine_error_code, 17);
    assert_eq!(e.error_code, NapiErrorType::Cancelled);
    let e = NapiError::from_error_info(ExtendedErrorInfo {
        error_message: None,
        engine_error_code: 0,
        error_code: NapiStatus::StatusLast,
    });
    assert_eq!(e.error_message, "");
    assert_eq!(e.error_code, NapiErrorType::GenericFailure);
    assert_eq!(NapiError::from_nul_error().error_message, "string must not contain 0 byte");
    assert_eq!(NapiError::from_utf8_error().error_code, NapiErrorType::GenericFailure);
}

#[test]
fn text_with_a_zero_byte_is_refused() {
    let mut env = NapiEnv::new();
    let object = create_object(&mut env).unwrap();
    let count = env.value_count();
    for e in [
        create_string_utf8(&mut env, "a\0b").map(|_| ()).unwrap_err(),
        set_named_property(&mut env, object, "\0", object).unwrap_err(),
        get_named_property(&mut env, object, "p\0").map(|_| ()).unwrap_err(),
        create_function(&mut env, "f\0", |_: &NapiEnv, _: usize, _: ()| ()).map(|_| ()).unwrap_err(),
    ] {
        assert_eq!(e.error_code, NapiErrorType::GenericFailure);
        assert_eq!(e.error_message, "string must not contain 0 byte");
    }
    assert_eq!(env.value_count(), count);
    assert!(!env.slot_attached(0));
    assert!(contains_nul("\0"));
    assert!(contains_nul("abc\0"));
    assert!(!contains_nul(""));
    assert!(!contains_nul("abc \u{1F600}"));
}

#[test]
fn properties_are_written_and_read_by_name() {
    let mut env = NapiEnv::new();
    let object = create_object(&mut env).unwrap();
    let a = get_boolean(&mut env, true).unwrap();
    let b = get_boolean(&mut env, false).unwrap();
    set_named_property(&mut env, object, "a", a).unwrap();
    set_named_property(&mut env, object, "b", b).unwrap();
    assert_eq!(get_named_property(&mut env, object, "a").unwrap(), a);
    assert_eq!(get_named_property(&mut env, object, "b").unwrap(), b);
    // a second write replaces the first
    set_named_property(&mut env, object, "a", b).unwrap();
    assert_eq!(get_named_property(&mut env, object, "a").unwrap(), b);
    // a property that was never written reads as a new undefined value
    let count = env.value_count();
    let missing = get_named_property(&mut env, object, "c").unwrap();
    assert_eq!(missing, count);
    assert_eq!(type_of(&mut env, missing).unwrap(), NapiValueType::Undefined);
    // the value must exist
    let e = set_named_property(&mut env, object, "d", 9999).unwrap_err();
    assert_eq!(e.error_code, NapiErrorType::InvalidArg);
}

#[test]
fn elements_are_written_and_read_by_index() {
    let mut env = NapiEnv::new();
    let array = create_array(&mut env).unwrap();
    let a = get_boolean(&mut env, true).unwrap();
    // writing past the end extends the array with holes
    set_element(&mut env, array, 3, a).unwrap();
    assert_eq!(get_array_length(&mut env, array).unwrap(), 4);
    assert_eq!(get_element(&mut env, array, 3).unwrap(), a);
    let count = env.value_count();
    let hole = get_element(&mut env, array, 1).unwrap();
    assert_eq!(hole, count);
    assert_eq!(type_of(&mut env, hole).unwrap(), NapiValueType::Undefined);
    let beyond = get_element(&mut env, array, 100).unwrap();
    assert_eq!(type_of(&mut env, beyond).unwrap(), NapiValueType::Undefined);
    set_element(&mut env, array, 0, a).unwrap();
    assert_eq!(get_array_length(&mut env, array).unwrap(), 4);
    assert_eq!(get_element(&mut env, array, 0).unwrap(), a);
}

#[test]
fn the_host_counts_elements_in_32_bits() {
    let mut env = NapiEnv::new();
    let array = array_with_length(&mut env, 2).unwrap();
    let a = get_boolean(&mut env, true).unwrap();
    let index: u64 = (1u64 << 32) + 1;
    if let Ok(index) = usize::try_from(index) {
        set_element(&mut env, array, index, a).unwrap();
        assert_eq!(get_array_length(&mut env, array).unwrap(), 2);
        assert_eq!(get_element(&mut env, array, 1).unwrap(), a);
        assert_eq!(get_element(&mut env, array, index).unwrap(), a);
    }
}

#[test]
fn calls_of_host_functions_are_recorded() {
    let mut env = NapiEnv::new();
    let (f, _slot) = create_function(&mut env, "f", |_: &NapiEnv, _: usize, _: ()| ()).unwrap();
    let recv = create_object(&mut env).unwrap();
    let arg = get_boolean(&mut env, true).unwrap();
    let count = env.value_count();
    let result = call_function(&mut env, recv, f, &[arg, arg]).unwrap();
    assert_eq!(result, count);
    assert_eq!(type_of(&mut env, result).unwrap(), NapiValueType::Undefined);
    assert_eq!(env.call_count(), 1);
    let call = env.call(0).unwrap();
    assert_eq!(call.func, f);
    assert_eq!(call.recv, recv);
    assert_eq!(call.args, vec![arg, arg]);
    // an argument must name a value
    let e = call_function(&mut env, recv, f, &[arg, 9999]).unwrap_err();
    assert_eq!(e.error_code, NapiErrorType::InvalidArg);
    let e = call_function(&mut env, 9999, f, &[]).unwrap_err();
    assert_eq!(e.error_code, NapiErrorType::InvalidArg);
    assert_eq!(env.call_count(), 1);
}

#[test]
fn a_pending_exception_blocks_calls_and_further_throws() {
    let mut env = NapiEnv::new();
    let (f, _slot) = create_function(&mut env, "f", |_: &NapiEnv, _: usize, _: ()| ()).unwrap();
    let first = NapiError {
        error_message: "first".to_string(),
        engine_error_code: 1,
        error_code: NapiErrorType::GenericFailure,
    };
    let second = NapiError {
        error_message: "second".to_string(),
        engine_error_code: 2,
        error_code: NapiErrorType::InvalidArg,
    };
    throw_error(&mut env, first).unwrap();
    let e = throw_error(&mut env, second).unwrap_err();
    assert_eq!(e.error_code, NapiErrorType::PendingException);
    assert_eq!(e.error_message, "An exception is pending");
    assert_eq!(env.pending_exception().unwrap().error_message, "first");
    let e = call_function(&mut env, f, f, &[]).unwrap_err();
    assert_eq!(e.error_code, NapiErrorType::PendingException);
    assert_eq!(env.call_count(), 0);
    let taken = env.take_exception().unwrap();
    assert_eq!(taken.error_message, "first");
    assert_eq!(taken.engine_error_code, 1);
    assert!(env.pending_exception().is_none());
    assert!(env.take_exception().is_none());
    assert!(call_function(&mut env, f, f, &[]).is_ok());
}

#[test]
fn a_module_registers_with_names_that_the_host_can_take() {
    let mut env = NapiEnv::new();
    let module = NapiModule {
        version: 1,
        flags: 0,
        filename: "tests".to_string(),
        modname: "tests".to_string(),
    };
    module_register(&mut env, module.clone()).unwrap();
    assert_eq!(env.module_count(), 1);
    let bad = NapiModule { filename: "te\0sts".to_string(), ..module.clone() };
    let e = module_register(&mut env, bad).unwrap_err();
    assert_eq!(e.error_code, NapiErrorType::GenericFailure);
    assert_eq!(e.error_message, "string must not contain 0 byte");
    let bad = NapiModule { modname: "\0".to_string(), ..module };
    assert!(module_register(&mut env, bad).is_err());
    assert_eq!(env.module_count(), 1);
}

#[test]
fn counts_are_rendered_in_decimal() {
    assert_eq!(decimal_string(0), "0");
    assert_eq!(decimal_string(7), "7");
    assert_eq!(decimal_string(10), "10");
    assert_eq!(decimal_string(1234567890), "1234567890");
    assert_eq!(decimal_string(usize::MAX), usize::MAX.to_string());
}

#[test]
fn properties_are_found_and_listed() {
    let mut env = NapiEnv::new();
    let object = create_object(&mut env).unwrap();
    let a = get_boolean(&mut env, true).unwrap();
    assert_eq!(node_api::has_named_property(&mut env, object, "b").unwrap(), false);
    set_named_property(&mut env, object, "b", a).unwrap();
    set_named_property(&mut env, object, "a", a).unwrap();
    set_named_property(&mut env, object, "b", a).unwrap();
    assert_eq!(node_api::has_named_property(&mut env, object, "b").unwrap(), true);
    assert_eq!(node_api::has_named_property(&mut env, object, "c").unwrap(), false);
    assert_eq!(node_api::get_property_names(&mut env, object).unwrap(), vec!["b", "a"]);
    assert_eq!(
        node_api::has_named_property(&mut env, a, "b").unwrap_err().error_code,
        NapiErrorType::ObjectExpected
    );
    assert_eq!(
        node_api::get_property_names(&mut env, a).unwrap_err().error_code,
        NapiErrorType::ObjectExpected
    );
    assert!(node_api::has_named_property(&mut env, object, "\0").is_err());
}

#[test]
fn numbers_are_read_as_signed_32_bits() {
    let mut env = NapiEnv::new();
    for (x, expected) in [
        (0.0f64, 0i32),
        (-1.0, -1),
        (2147483647.0, i32::MAX),
        (2147483648.0, i32::MIN),
        (4294967295.0, -1),
        (4294967296.0, 0),
        (-2147483649.0, i32::MAX),
        (1.9, 1),
        (-1.9, -1),
        (f64::NAN, 0),
        (f64::INFINITY, 0),
    ] {
        let h = create_number(&mut env, Double::from_bits(x.to_bits())).unwrap();
        assert_eq!(node_api::get_value_int32(&mut env, h).unwrap(), expected, "{}", x);
    }
}
