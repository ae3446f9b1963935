use node_api::error::{NapiError, NapiErrorType};
use node_api::executor::{
    begin_async_work, create_async_work, queue_async_work, spawn_fn, Async, NapiFuture, Received,
};
use node_api::host::{AsyncState, NapiEnv};
use node_api::napi::{
    create_object, get_boolean, get_named_property, get_value_int64, get_value_string_utf8, type_of,
};
use node_api::napi_futures::{complete_async_work, then, thenable_work, ThenArgs};
use node_api::napi_value::{FromNapiValues, IntoNapiValue};
use node_api::{create_function, NapiValue, NapiValueType};

fn continuations(env: &mut NapiEnv) -> ThenArgs {
    let (on_fulfilled, _) = create_function(env, "onFulfilled", |_: &NapiEnv, _: NapiValue, _: ()| ()).unwrap();
    let (on_rejected, _) = create_function(env, "onRejected", |_: &NapiEnv, _: NapiValue, _: ()| ()).unwrap();
    ThenArgs { on_fulfilled, on_rejected }
}

#[test]
fn work_goes_through_its_states_in_order() {
    let mut env = NapiEnv::new();
    let work = create_async_work(&mut env).unwrap();
    assert_eq!(work, 0);
    assert_eq!(env.async_work(work).unwrap().state, AsyncState::Created);
    // it cannot run before it is queued
    let e = begin_async_work(&mut env, work).unwrap_err();
    assert_eq!(e.error_code, NapiErrorType::GenericFailure);
    let e = complete_async_work::<i64, String>(&mut env, work, Ok(1)).unwrap_err();
    assert_eq!(e.error_code, NapiErrorType::GenericFailure);
    queue_async_work(&mut env, work).unwrap();
    assert_eq!(env.async_work(work).unwrap().state, AsyncState::Queued);
    assert!(queue_async_work(&mut env, work).is_err());
    begin_async_work(&mut env, work).unwrap();
    assert_eq!(env.async_work(work).unwrap().state, AsyncState::Running);
    complete_async_work::<i64, String>(&mut env, work, Ok(1)).unwrap();
    let record = env.async_work(work).unwrap();
    assert_eq!(record.state, AsyncState::Resolved);
    assert!(record.settled.is_some());
    assert!(!record.fired);
    // the last state is final
    assert!(queue_async_work(&mut env, work).is_err());
    assert!(begin_async_work(&mut env, work).is_err());
    assert!(complete_async_work::<i64, String>(&mut env, work, Err("late".to_string())).is_err());
    assert_eq!(env.async_work(work).unwrap(), record);
    // a number that names no work
    let e = queue_async_work(&mut env, 5).unwrap_err();
    assert_eq!(e.error_code, NapiErrorType::InvalidArg);
    let e = complete_async_work::<i64, String>(&mut env, 5, Ok(1)).unwrap_err();
    assert_eq!(e.error_code, NapiErrorType::InvalidArg);
}

#[test]
fn a_future_encodes_as_a_thenable() {
    let mut env = NapiEnv::new();
    let future: NapiFuture<i64, String> = spawn_fn(&mut env).unwrap();
    let work = future.work();
    assert_eq!(env.async_work(work).unwrap().state, AsyncState::Queued);
    let thenable = future.into_napi_value(&mut env).unwrap();
    assert_eq!(type_of(&mut env, thenable).unwrap(), NapiValueType::Object);
    let then_fn = get_named_property(&mut env, thenable, "then").unwrap();
    assert_eq!(type_of(&mut env, then_fn).unwrap(), NapiValueType::Function);
    let state = get_named_property(&mut env, thenable, "state").unwrap();
    assert_eq!(type_of(&mut env, state).unwrap(), NapiValueType::External);
    assert_eq!(thenable_work(&mut env, thenable).unwrap(), work);
    // an object that is no thenable
    let plain = create_object(&mut env).unwrap();
    assert_eq!(thenable_work(&mut env, plain).unwrap_err().error_code, NapiErrorType::InvalidArg);
}

#[test]
fn continuations_registered_first_fire_at_completion() {
    let mut env = NapiEnv::new();
    let future: NapiFuture<i64, String> = spawn_fn(&mut env).unwrap();
    let work = future.work();
    let thenable = future.into_napi_value(&mut env).unwrap();
    let args = continuations(&mut env);
    then(&mut env, thenable, args).unwrap();
    // nothing fires before the computation has produced a value
    assert_eq!(env.call_count(), 0);
    begin_async_work(&mut env, work).unwrap();
    assert_eq!(env.call_count(), 0);
    complete_async_work::<i64, String>(&mut env, work, Ok(42)).unwrap();
    assert_eq!(env.call_count(), 1);
    let call = env.call(0).unwrap();
    assert_eq!(call.func, args.on_fulfilled);
    assert_eq!(call.recv, thenable);
    assert_eq!(call.args.len(), 1);
    let value = call.args[0];
    assert_eq!(get_value_int64(&mut env, value).unwrap(), 42);
    let record = env.async_work(work).unwrap();
    assert_eq!(record.state, AsyncState::Resolved);
    assert!(record.fired);
    // neither fires again
    assert!(complete_async_work::<i64, String>(&mut env, work, Ok(43)).is_err());
    assert!(then(&mut env, thenable, args).is_err());
    assert_eq!(env.call_count(), 1);
}

#[test]
fn continuations_registered_late_fire_at_once() {
    let mut env = NapiEnv::new();
    let future: NapiFuture<i64, String> = spawn_fn(&mut env).unwrap();
    let work = future.work();
    let thenable = future.into_napi_value(&mut env).unwrap();
    begin_async_work(&mut env, work).unwrap();
    complete_async_work::<i64, String>(&mut env, work, Err("failed".to_string())).unwrap();
    assert_eq!(env.async_work(work).unwrap().state, AsyncState::Rejected);
    assert_eq!(env.call_count(), 0);
    let args = continuations(&mut env);
    then(&mut env, thenable, args).unwrap();
    assert_eq!(env.call_count(), 1);
    let call = env.call(0).unwrap();
    assert_eq!(call.func, args.on_rejected);
    let value = call.args[0];
    assert_eq!(get_value_string_utf8(&mut env, value).unwrap(), "failed");
    let e = then(&mut env, thenable, args).unwrap_err();
    assert_eq!(e.error_code, NapiErrorType::GenericFailure);
    assert_eq!(env.call_count(), 1);
}

#[test]
fn an_outcome_that_cannot_be_encoded_leaves_the_work_running() {
    let mut env = NapiEnv::new();
    let future: NapiFuture<String, String> = spawn_fn(&mut env).unwrap();
    let work = future.work();
    let thenable = future.into_napi_value(&mut env).unwrap();
    let args = continuations(&mut env);
    then(&mut env, thenable, args).unwrap();
    begin_async_work(&mut env, work).unwrap();
    let e = complete_async_work::<String, String>(&mut env, work, Ok("a\0b".to_string())).unwrap_err();
    assert_eq!(e.error_message, "string must not contain 0 byte");
    assert_eq!(env.async_work(work).unwrap().state, AsyncState::Running);
    assert_eq!(env.call_count(), 0);
    complete_async_work::<String, String>(&mut env, work, Err("could not encode".to_string())).unwrap();
    assert_eq!(env.call_count(), 1);
    assert_eq!(env.call(0).unwrap().func, args.on_rejected);
}

#[test]
fn then_takes_two_functions() {
    let mut env = NapiEnv::new();
    let args = continuations(&mut env);
    let decoded = ThenArgs::from_napi_values(&mut env, 0, &[args.on_fulfilled, args.on_rejected]).unwrap();
    assert_eq!(decoded, args);
    let e = ThenArgs::from_napi_values(&mut env, 0, &[args.on_fulfilled]).unwrap_err();
    assert_eq!(e.error_code, NapiErrorType::InvalidArg);
    assert_eq!(e.error_message, "expected 2 argument, got 1");
    let flag = get_boolean(&mut env, true).unwrap();
    let e = ThenArgs::from_napi_values(&mut env, 0, &[args.on_fulfilled, flag]).unwrap_err();
    assert_eq!(e.error_code, NapiErrorType::FunctionExpected);
    assert_eq!(
        e.error_message,
        "expected argument to be of type Function, but found it to be of type Boolean"
    );
    let e = ThenArgs::from_napi_values(&mut env, 0, &[flag, args.on_rejected]).unwrap_err();
    assert_eq!(e.error_code, NapiErrorType::FunctionExpected);
}

#[test]
fn a_poll_answers_by_what_was_received() {
    let mut future: NapiFuture<i64, String> = NapiFuture::new(3);
    assert_eq!(future.work(), 3);
    assert!(matches!(future.poll(Received::Value(Ok(5))), Ok(Async::Ready(5))));
    assert!(matches!(future.poll(Received::Value(Err("e".to_string()))), Err(e) if e == "e"));
    assert!(matches!(future.poll(Received::Empty), Ok(Async::NotReady)));
    assert!(matches!(future.poll(Received::Disconnected), Ok(Async::NotReady)));
    assert_eq!(future.work(), 3);
}

#[test]
fn a_failed_call_of_a_continuation_settles_nothing() {
    let mut env = NapiEnv::new();
    let future: NapiFuture<i64, String> = spawn_fn(&mut env).unwrap();
    let work = future.work();
    let thenable = future.into_napi_value(&mut env).unwrap();
    let args = continuations(&mut env);
    then(&mut env, thenable, args).unwrap();
    begin_async_work(&mut env, work).unwrap();
    node_api::napi::throw_error(
        &mut env,
        NapiError {
            error_message: "pending".to_string(),
            engine_error_code: 0,
            error_code: NapiErrorType::GenericFailure,
        },
    )
    .unwrap();
    let e = complete_async_work::<i64, String>(&mut env, work, Ok(1)).unwrap_err();
    assert_eq!(e.error_code, NapiErrorType::PendingException);
    assert_eq!(env.async_work(work).unwrap().state, AsyncState::Running);
    assert_eq!(env.call_count(), 0);
    env.take_exception();
    complete_async_work::<i64, String>(&mut env, work, Ok(1)).unwrap();
    assert_eq!(env.call_count(), 1);
}
