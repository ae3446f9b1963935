use std::cell::Cell;
use std::rc::Rc;

use node_api::adapter::{
    create_external, create_function, finalize_box, get_value_external, unwrap, wrap, wrapper,
    CallbackInfo, MAX_ARGS,
};
use node_api::error::{NapiError, NapiErrorType};
use node_api::host::NapiEnv;
use node_api::napi::{
    create_number, create_object, create_string_utf8, get_array_length, get_boolean, get_element,
    get_named_property, get_value_double, get_value_int64, get_value_string_utf8,
    set_named_property, type_of,
};
use node_api::napi_value::{FromNapiValues, IntoNapiValue};
use node_api::number::Double;
use node_api::{NapiValue, NapiValueType};

#[derive(Debug, PartialEq)]
struct Object {
    foo: String,
    bar: i64,
}

impl IntoNapiValue for Object {
    fn into_napi_value(self, env: &mut NapiEnv) -> Result<NapiValue, NapiError> {
        let object = create_object(env)?;
        let foo = self.foo.into_napi_value(env)?;
        let bar = self.bar.into_napi_value(env)?;
        set_named_property(env, object, "foo", foo)?;
        set_named_property(env, object, "bar", bar)?;
        Ok(object)
    }
}

impl FromNapiValues for Object {
    fn from_napi_values(
        env: &mut NapiEnv,
        this: NapiValue,
        napi_values: &[NapiValue],
    ) -> Result<Object, NapiError> {
        match napi_values.len() {
            1 => {
                let object = napi_values[0];
                let foo_property = get_named_property(env, object, "foo")?;
                let bar_property = get_named_property(env, object, "bar")?;
                Ok(Object {
                    foo: FromNapiValues::from_napi_values(env, this, &[foo_property])?,
                    bar: FromNapiValues::from_napi_values(env, this, &[bar_property])?,
                })
            }
            n => Err(NapiError {
                error_message: "expected one argument, got ".to_string() + &n.to_string(),
                engine_error_code: 0,
                error_code: NapiErrorType::InvalidArg,
            }),
        }
    }
}

fn info(this: NapiValue, args: &[NapiValue], data: usize) -> CallbackInfo {
    CallbackInfo { this, args: args.to_vec(), data }
}

#[test]
fn a_function_returns_an_aggregate() {
    let mut env = NapiEnv::new();
    let returns_objects = |_: &NapiEnv, _: NapiValue, _: ()| Object { foo: "hello".to_string(), bar: 42 };
    let (f, slot) = create_function(&mut env, "returns_objects", returns_objects).unwrap();
    assert_eq!(type_of(&mut env, f).unwrap(), NapiValueType::Function);
    let this = create_object(&mut env).unwrap();
    let result = wrapper(&mut env, &info(this, &[], slot.slot()), &slot);
    assert_eq!(type_of(&mut env, result).unwrap(), NapiValueType::Object);
    let foo = get_named_property(&mut env, result, "foo").unwrap();
    let bar = get_named_property(&mut env, result, "bar").unwrap();
    assert_eq!(type_of(&mut env, foo).unwrap(), NapiValueType::String);
    assert_eq!(get_value_string_utf8(&mut env, foo).unwrap(), "hello");
    assert_eq!(type_of(&mut env, bar).unwrap(), NapiValueType::Number);
    assert_eq!(get_value_double(&mut env, bar).unwrap().to_bits(), 42.0f64.to_bits());
    assert_eq!(get_value_int64(&mut env, bar).unwrap(), 42);
    assert!(env.pending_exception().is_none());
}

#[test]
fn a_function_returns_the_array_that_it_received() {
    let mut env = NapiEnv::new();
    let receives_arrays = |_: &NapiEnv, _: NapiValue, arg: Vec<String>| arg;
    let (_f, slot) = create_function(&mut env, "receives_arrays", receives_arrays).unwrap();
    let arg = vec!["one", "two", "three"].into_napi_value(&mut env).unwrap();
    let result = wrapper(&mut env, &info(0, &[arg], slot.slot()), &slot);
    assert!(env.pending_exception().is_none());
    assert_eq!(get_array_length(&mut env, result).unwrap(), 3);
    let mut texts = Vec::new();
    for i in 0..3 {
        let h = get_element(&mut env, result, i).unwrap();
        texts.push(get_value_string_utf8(&mut env, h).unwrap());
    }
    assert_eq!(texts, vec!["one", "two", "three"]);
    let back: Vec<String> = Vec::from_napi_values(&mut env, 0, &[result]).unwrap();
    assert_eq!(back, vec!["one", "two", "three"]);
}

#[test]
fn a_numeric_function_called_with_text_throws() {
    let mut env = NapiEnv::new();
    let called = Rc::new(Cell::new(0));
    let seen = called.clone();
    let receives_i64 = move |_: &NapiEnv, _: NapiValue, arg: i64| {
        seen.set(seen.get() + 1);
        arg
    };
    let (_f, slot) = create_function(&mut env, "receives_i64", receives_i64).unwrap();
    let text = create_string_utf8(&mut env, "forty-two").unwrap();
    let result = wrapper(&mut env, &info(0, &[text], slot.slot()), &slot);
    assert_eq!(type_of(&mut env, result).unwrap(), NapiValueType::Undefined);
    let thrown = env.pending_exception().unwrap();
    assert_eq!(thrown.error_code, NapiErrorType::NumberExpected);
    assert_eq!(
        thrown.error_message,
        "expected argument to be of type Number, but found it to be of type String"
    );
    assert_eq!(called.get(), 0);
}

#[test]
fn a_call_invokes_the_closure_once_and_encodes_once() {
    let mut env = NapiEnv::new();
    let called = Rc::new(Cell::new(0));
    let seen = called.clone();
    let double = move |_: &NapiEnv, _: NapiValue, arg: i64| {
        seen.set(seen.get() + 1);
        2 * arg
    };
    let (_f, slot) = create_function(&mut env, "double", double).unwrap();
    let arg = create_number(&mut env, Double::from_bits(21.0f64.to_bits())).unwrap();
    let before = env.value_count();
    let result = wrapper(&mut env, &info(0, &[arg], slot.slot()), &slot);
    assert_eq!(called.get(), 1);
    // one value was created: the encoded result
    assert_eq!(env.value_count(), before + 1);
    assert_eq!(result, before);
    assert_eq!(get_value_int64(&mut env, result).unwrap(), 42);
    let again = wrapper(&mut env, &info(0, &[arg], slot.slot()), &slot);
    assert_eq!(called.get(), 2);
    assert_eq!(get_value_int64(&mut env, again).unwrap(), 42);
}

#[test]
fn a_result_that_cannot_be_encoded_is_thrown() {
    let mut env = NapiEnv::new();
    let bad = |_: &NapiEnv, _: NapiValue, _: ()| "zero\0inside".to_string();
    let (_f, slot) = create_function(&mut env, "bad", bad).unwrap();
    let result = wrapper(&mut env, &info(0, &[], slot.slot()), &slot);
    assert_eq!(type_of(&mut env, result).unwrap(), NapiValueType::Undefined);
    let thrown = env.pending_exception().unwrap();
    assert_eq!(thrown.error_code, NapiErrorType::GenericFailure);
    assert_eq!(thrown.error_message, "string must not contain 0 byte");
}

#[test]
fn a_wrong_number_of_arguments_is_thrown() {
    let mut env = NapiEnv::new();
    let (_f, slot) = create_function(&mut env, "flag", |_: &NapiEnv, _: NapiValue, b: bool| b).unwrap();
    let t = get_boolean(&mut env, true).unwrap();
    let args = vec![t; MAX_ARGS];
    let result = wrapper(&mut env, &info(0, &args, slot.slot()), &slot);
    assert_eq!(type_of(&mut env, result).unwrap(), NapiValueType::Undefined);
    let thrown = env.take_exception().unwrap();
    assert_eq!(thrown.error_code, NapiErrorType::InvalidArg);
    assert_eq!(thrown.error_message, "expected 1 argument, got 16");
    let result = wrapper(&mut env, &info(0, &[], slot.slot()), &slot);
    assert_eq!(type_of(&mut env, result).unwrap(), NapiValueType::Undefined);
    assert_eq!(env.take_exception().unwrap().error_message, "expected 1 argument, got 0");
}

#[test]
fn an_aggregate_argument_is_decoded_by_its_properties() {
    let mut env = NapiEnv::new();
    let receives_objects = |_: &NapiEnv, _: NapiValue, arg: Object| arg;
    let (_f, slot) = create_function(&mut env, "receives_objects", receives_objects).unwrap();
    let arg = Object { foo: "x".to_string(), bar: -7 }.into_napi_value(&mut env).unwrap();
    let result = wrapper(&mut env, &info(0, &[arg], slot.slot()), &slot);
    let back = Object::from_napi_values(&mut env, 0, &[result]).unwrap();
    assert_eq!(back, Object { foo: "x".to_string(), bar: -7 });
    // a property of the wrong type fails with its own error
    let broken = create_object(&mut env).unwrap();
    let t = get_boolean(&mut env, true).unwrap();
    set_named_property(&mut env, broken, "foo", t).unwrap();
    set_named_property(&mut env, broken, "bar", t).unwrap();
    let e = Object::from_napi_values(&mut env, 0, &[broken]).unwrap_err();
    assert_eq!(e.error_code, NapiErrorType::StringExpected);
}

#[test]
fn the_closure_sees_the_receiver_and_the_host() {
    let mut env = NapiEnv::new();
    let count = |env: &NapiEnv, this: NapiValue, _: ()| (env.value_count() + this) as u64;
    let (_f, slot) = create_function(&mut env, "count", count).unwrap();
    let this = create_object(&mut env).unwrap();
    let values = env.value_count();
    let result = wrapper(&mut env, &info(this, &[], slot.slot()), &slot);
    assert_eq!(get_value_int64(&mut env, result).unwrap(), (values + this) as i64);
}

#[test]
fn the_finalizer_reclaims_a_closure_once() {
    let mut env = NapiEnv::new();
    let dropped = Rc::new(Cell::new(0));
    struct Guard(Rc<Cell<i32>>);
    impl Drop for Guard {
        fn drop(&mut self) {
            self.0.set(self.0.get() + 1);
        }
    }
    let guard = Guard(dropped.clone());
    let closure = move |_: &NapiEnv, _: NapiValue, _: ()| {
        let _ = &guard;
    };
    let (_f, slot) = create_function(&mut env, "guarded", closure).unwrap();
    let number = slot.slot();
    assert!(env.slot_attached(number));
    assert_eq!(dropped.get(), 0);
    assert!(finalize_box(&mut env, slot));
    assert_eq!(dropped.get(), 1);
    assert!(!env.slot_attached(number));
    // every function has a slot of its own
    let (_g, other) = create_function(&mut env, "other", |_: &NapiEnv, _: NapiValue, _: ()| ()).unwrap();
    assert_eq!(other.slot(), number + 1);
    assert!(env.slot_attached(other.slot()));
    assert!(!env.slot_attached(number));
}

#[test]
fn external_data_is_lent_to_its_holder() {
    let mut env = NapiEnv::new();
    let (value, native) = create_external(&mut env, Box::new(vec![1, 2, 3])).unwrap();
    let (other_value, other) = create_external(&mut env, Box::new(vec![9])).unwrap();
    assert_eq!(type_of(&mut env, value).unwrap(), NapiValueType::External);
    assert_eq!(native.data(), &vec![1, 2, 3]);
    assert_eq!(get_value_external(&mut env, value, &native).unwrap(), &vec![1, 2, 3]);
    assert_eq!(get_value_external(&mut env, other_value, &other).unwrap(), &vec![9]);
    // a value does not give out the data of another
    let e = get_value_external(&mut env, other_value, &native).unwrap_err();
    assert_eq!(e.error_code, NapiErrorType::InvalidArg);
    assert_eq!(e.error_message, "value does not hold this native data");
    // a value that is not external is the host's failure
    let object = create_object(&mut env).unwrap();
    let e = get_value_external(&mut env, object, &native).unwrap_err();
    assert_eq!(e.error_message, "Invalid argument");
    assert!(finalize_box(&mut env, other));
}

#[test]
fn native_data_is_wrapped_into_an_object_once() {
    let mut env = NapiEnv::new();
    let object = create_object(&mut env).unwrap();
    let (reference, native) = wrap(&mut env, object, Box::new(5u8)).unwrap();
    assert_eq!(reference, 0);
    assert_eq!(unwrap(&mut env, object, &native).unwrap(), &5u8);
    let e = wrap(&mut env, object, Box::new(6u8)).map(|_| ()).unwrap_err();
    assert_eq!(e.error_code, NapiErrorType::InvalidArg);
    let text = create_string_utf8(&mut env, "t").unwrap();
    let e = wrap(&mut env, text, Box::new(6u8)).map(|_| ()).unwrap_err();
    assert_eq!(e.error_code, NapiErrorType::ObjectExpected);
    let e = wrap(&mut env, 9999, Box::new(6u8)).map(|_| ()).unwrap_err();
    assert_eq!(e.error_code, NapiErrorType::InvalidArg);
    let plain = create_object(&mut env).unwrap();
    let e = unwrap(&mut env, plain, &native).unwrap_err();
    assert_eq!(e.error_code, NapiErrorType::InvalidArg);
    assert_eq!(e.error_message, "Invalid argument");
    let (second, other) = wrap(&mut env, plain, Box::new(7u8)).unwrap();
    assert_eq!(second, 1);
    assert_eq!(unwrap(&mut env, plain, &native).unwrap_err().error_message, "value does not hold this native data");
    assert_eq!(unwrap(&mut env, plain, &other).unwrap(), &7u8);
}

#[test]
fn a_slot_is_reclaimed_by_its_number_once() {
    let mut env = NapiEnv::new();
    let (_value, native) = create_external(&mut env, Box::new(1u8)).unwrap();
    let number = native.slot();
    assert!(node_api::finalize_slot(&mut env, number));
    assert!(!env.slot_attached(number));
    assert!(!node_api::finalize_slot(&mut env, number));
    assert!(!finalize_box(&mut env, native));
    assert!(!node_api::finalize_slot(&mut env, 9999));
}
