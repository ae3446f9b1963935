//! Native data in the hands of the host, and the adapter that presents a
//! native closure of any typed signature as a function that the host calls
//! with a receiver and a list of handles.

use vstd::prelude::*;
use vstd::utf8::encode_utf8;
use crate::error::{NapiError, NapiErrorType, NapiErrorView, NapiStatus};
use crate::error::plain_error;
use crate::host::{find_wrap, HostState, HostValue, HostValueView, NapiEnv, NapiRef, NapiValue};
use crate::host::SlotState;
use crate::napi::{get_undefined, napi_either, throw_error};
use crate::napi::{answer, created, nul_error, refused, throw_error_spec};
use crate::napi_value::{FromNapiValues, IntoNapiValue};
use crate::text::{contains_nul, has_nul};

verus! {

/// The most arguments that the host hands to a native function.
pub const MAX_ARGS: usize = 16;

/// A piece of native data that was handed to the host. The host knows it by
/// its slot number; it is reclaimed by the host's finalizer and by nothing
/// else.
pub struct NativeSlot<T> {
    slot: usize,
    data: Box<T>,
}

impl<T> NativeSlot<T> {
    /// The slot number under which the host knows the data.
    pub closed spec fn slot_spec(&self) -> usize {
        self.slot
    }

    /// The data.
    pub closed spec fn data_spec(&self) -> T {
        *self.data
    }

    /// The slot number under which the host knows the data.
    #[verifier::when_used_as_spec(slot_spec)]
    pub fn slot(&self) -> (s: usize)
        ensures
            s == self.slot(),
    {
        self.slot
    }

    /// The data.
    pub fn data(&self) -> (d: &T)
        ensures
            *d == self.data_spec(),
    {
        &*self.data
    }
}

/// What the host hands to a native function that it calls: the receiver,
/// the arguments, and the slot of the native data attached to the function.
pub struct CallbackInfo {
    pub this: NapiValue,
    pub args: Vec<NapiValue>,
    pub data: usize,
}

/// The state after native data was handed to the host: it has the next slot
/// number.
pub open spec fn attach(st: HostState) -> HostState {
    HostState { slots: st.slots.push(SlotState::Attached), ..st }
}

/// What [`create_external`] does: the data gets the next slot, and a value
/// that holds the slot is created.
pub open spec fn create_external_spec(st: HostState) -> (HostState, Result<NapiValue, NapiErrorView>) {
    created(attach(st), HostValueView::External(st.slots.len() as usize))
}

/// Hands native data to the host and creates the value that stands for it.
/// The host owns the data from here on; the slot that comes back is the
/// host's hold on it.
pub fn create_external<T>(env: &mut NapiEnv, t: Box<T>) -> (r: Result<
    (NapiValue, NativeSlot<T>),
    NapiError,
>)
    ensures
        r matches Ok((h, native)) && (final(env)@, Ok::<NapiValue, NapiErrorView>(h))
            == create_external_spec(old(env)@) && native.slot() == old(env)@.slots.len()
            && native.data_spec() == *t,
{
    let slot = env.raw_attach();
    let result = env.allocate(HostValue::External(slot));
    match napi_either(env, NapiStatus::Success, result) {
        Ok(h) => Ok((h, NativeSlot { slot, data: t })),
        Err(e) => Err(e),
    }
}

/// The error for a value that does not hold the native data that is asked
/// of it, or whose data the host has reclaimed.
pub open spec fn foreign_data_error() -> NapiErrorView {
    plain_error(NapiErrorType::InvalidArg, "value does not hold this native data"@)
}

/// What [`get_value_external`] does.
pub open spec fn get_value_external_spec(st: HostState, value: NapiValue, slot: usize) -> (
    HostState,
    Result<(), NapiErrorView>,
) {
    if !(st.valid(value) && st.values[value as int] is External) {
        answer(st, NapiStatus::InvalidArg, ())
    } else if st.values[value as int]->External_0 == slot && st.attached(slot) {
        (st.pass(), Ok(()))
    } else {
        (st.pass(), Err(foreign_data_error()))
    }
}

/// The native data that an external value stands for. The data stays with
/// the host: it is lent, not given back.
pub fn get_value_external<'a, T>(env: &mut NapiEnv, value: NapiValue, native: &'a NativeSlot<T>) -> (r:
    Result<&'a T, NapiError>)
    ensures
        final(env)@ == get_value_external_spec(old(env)@, value, native.slot()).0,
        match r {
            Ok(d) => get_value_external_spec(old(env)@, value, native.slot()).1 is Ok && *d
                == native.data_spec(),
            Err(e) => get_value_external_spec(old(env)@, value, native.slot()).1 == Err::<
                (),
                NapiErrorView,
            >(e@),
        },
{
    let (status, data) = env.raw_get_value_external(value);
    match napi_either(env, status, data) {
        Err(e) => Err(e),
        Ok(held) => {
            if held == native.slot && env.slot_attached(held) {
                Ok(&*native.data)
            } else {
                Err(
                    NapiError {
                        error_message: String::from_str("value does not hold this native data"),
                        engine_error_code: 0,
                        error_code: NapiErrorType::InvalidArg,
                    },
                )
            }
        },
    }
}

/// What [`wrap`] does: native data is wrapped into an object that nothing
/// was wrapped into before. The data gets the next slot; the reference that
/// is returned is the number of the wrapping.
pub open spec fn wrap_spec(st: HostState, js_object: NapiValue) -> (
    HostState,
    Result<NapiRef, NapiErrorView>,
) {
    let status = st.wrap_status(js_object);
    if status == NapiStatus::Success {
        (st.wrapped(js_object), Ok(st.wraps.len() as usize))
    } else {
        answer(st, status, 0usize)
    }
}

/// Wraps native data into a host object and hands it to the host. Where the
/// host refuses, the data is dropped.
pub fn wrap<T>(env: &mut NapiEnv, js_object: NapiValue, native_object: Box<T>) -> (r: Result<
    (NapiRef, NativeSlot<T>),
    NapiError,
>)
    ensures
        final(env)@ == wrap_spec(old(env)@, js_object).0,
        match r {
            Ok((reference, native)) => {
                &&& wrap_spec(old(env)@, js_object).1 == Ok::<NapiRef, NapiErrorView>(reference)
                &&& native.slot() == old(env)@.slots.len()
                &&& native.data_spec() == *native_object
            },
            Err(e) => wrap_spec(old(env)@, js_object).1 == Err::<NapiRef, NapiErrorView>(e@),
        },
{
    let (status, reference, slot) = env.raw_wrap(js_object);
    match napi_either(env, status, reference) {
        Ok(reference) => Ok((reference, NativeSlot { slot, data: native_object })),
        Err(e) => Err(e),
    }
}

/// What [`unwrap`] does.
pub open spec fn unwrap_spec(st: HostState, js_object: NapiValue, slot: usize) -> (
    HostState,
    Result<(), NapiErrorView>,
) {
    let i = find_wrap(st.wraps, js_object, 0);
    if !(i < st.wraps.len()) {
        answer(st, NapiStatus::InvalidArg, ())
    } else if st.wraps[i].1 == slot && st.attached(slot) {
        (st.pass(), Ok(()))
    } else {
        (st.pass(), Err(foreign_data_error()))
    }
}

/// The native data that was wrapped into an object. The data stays with the
/// host: it is lent, not given back.
pub fn unwrap<'a, T>(env: &mut NapiEnv, js_object: NapiValue, native: &'a NativeSlot<T>) -> (r: Result<
    &'a T,
    NapiError,
>)
    ensures
        final(env)@ == unwrap_spec(old(env)@, js_object, native.slot()).0,
        match r {
            Ok(d) => unwrap_spec(old(env)@, js_object, native.slot()).1 is Ok && *d
                == native.data_spec(),
            Err(e) => unwrap_spec(old(env)@, js_object, native.slot()).1 == Err::<(), NapiErrorView>(
                e@,
            ),
        },
{
    let (found, held) = env.wrap_of(js_object);
    let status = if found {
        env.succeed()
    } else {
        env.refuse(NapiStatus::InvalidArg)
    };
    match napi_either(env, status, held) {
        Err(e) => Err(e),
        Ok(held) => {
            if held == native.slot && env.slot_attached(held) {
                Ok(&*native.data)
            } else {
                Err(
                    NapiError {
                        error_message: String::from_str("value does not hold this native data"),
                        engine_error_code: 0,
                        error_code: NapiErrorType::InvalidArg,
                    },
                )
            }
        },
    }
}

/// The state after the host's finalizer ran on `slot`.
pub open spec fn release(st: HostState, slot: usize) -> HostState {
    if st.attached(slot) {
        HostState { slots: st.slots.update(slot as int, SlotState::Released), ..st }
    } else {
        st
    }
}

/// The host's finalizer: reclaims native data that was handed to the host.
/// The answer says whether the host still held it. Data that was reclaimed
/// before is not reclaimed again.
pub fn finalize_box<T>(env: &mut NapiEnv, native: NativeSlot<T>) -> (released: bool)
    ensures
        released == old(env)@.attached(native.slot()),
        final(env)@ == release(old(env)@, native.slot()),
        !final(env)@.attached(native.slot()),
{
    finalize_slot(env, native.slot)
}

/// The host's finalizer for a slot by its number. This is how the host
/// reclaims native data that has no holder on the native side, as the `then`
/// of a thenable has none.
pub fn finalize_slot(env: &mut NapiEnv, slot: usize) -> (released: bool)
    ensures
        released == old(env)@.attached(slot),
        final(env)@ == release(old(env)@, slot),
        !final(env)@.attached(slot),
{
    env.raw_release(slot)
}

/// What [`create_function`] does. A name that holds a zero byte is refused
/// and the host is not touched. Else the closure gets the next slot and a
/// function value that holds the slot is created.
pub open spec fn create_function_spec(st: HostState, name: Seq<char>) -> (
    HostState,
    Result<NapiValue, NapiErrorView>,
) {
    if has_nul(encode_utf8(name)) {
        refused(st, nul_error())
    } else {
        created(attach(st), HostValueView::Function { name, data: st.slots.len() as usize })
    }
}

/// Creates a host function named `utf8name` that stands for the native
/// closure `f`, and hands the closure to the host. The slot that comes back
/// is the host's hold on the closure: the host passes it to [`wrapper`] when
/// it calls the function and to [`finalize_box`] when it reclaims it.
pub fn create_function<F, T, R>(env: &mut NapiEnv, utf8name: &str, f: F) -> (r: Result<
    (NapiValue, NativeSlot<Option<F>>),
    NapiError,
>) where F: Fn(&NapiEnv, NapiValue, T) -> R, T: FromNapiValues, R: IntoNapiValue
    ensures
        final(env)@ == create_function_spec(old(env)@, utf8name@).0,
        match r {
            Ok((h, native)) => {
                &&& create_function_spec(old(env)@, utf8name@).1 == Ok::<NapiValue, NapiErrorView>(h)
                &&& native.slot() == old(env)@.slots.len()
                &&& native.data_spec() == Some(f)
            },
            Err(e) => create_function_spec(old(env)@, utf8name@).1 == Err::<NapiValue, NapiErrorView>(
                e@,
            ),
        },
{
    if contains_nul(utf8name) {
        return Err(NapiError::from_nul_error());
    }
    let boxed_f = Box::new(Some(f));
    let slot = env.raw_attach();
    let napi_val = env.allocate(
        HostValue::Function { name: String::from_str(utf8name), data: slot },
    );
    match napi_either(env, NapiStatus::Success, napi_val) {
        Ok(h) => Ok((h, NativeSlot { slot, data: boxed_f })),
        Err(e) => Err(e),
    }
}

/// What the adapter does with a failed conversion: the error is thrown into
/// the host, unless one is pending already, and the call answers with a new
/// undefined value.
pub open spec fn surface(st: HostState, e: NapiErrorView) -> (HostState, NapiValue) {
    let thrown = throw_error_spec(st, e).0;
    (thrown.create(HostValueView::Undefined), thrown.values.len() as usize)
}

/// Throws a failed conversion into the host and answers with undefined.
fn surface_error(env: &mut NapiEnv, e: NapiError) -> (r: NapiValue)
    ensures
        (final(env)@, r) == surface(old(env)@, e@),
{
    let _ = throw_error(env, e);
    match get_undefined(env) {
        Ok(h) => h,
        Err(_) => 0,
    }
}

/// Whether the call of a native function ended in state `post` with the
/// answer `r`: the arguments were decoded, the closure was called once on
/// what they decoded to, and what it returned was encoded once. A failed
/// decoding or encoding is thrown into the host and answered with undefined.
pub open spec fn adapted<F, T, R>(
    f: F,
    pre: HostState,
    this: NapiValue,
    args: Seq<NapiValue>,
    post: HostState,
    r: NapiValue,
) -> bool where F: Fn(&NapiEnv, NapiValue, T) -> R, T: FromNapiValues, R: IntoNapiValue {
    let (decoded, failure) = T::decode_outcome(pre, this, args);
    match failure {
        Some(e) => (post, r) == surface(decoded, e),
        None => exists|mid: NapiEnv, a: T, ret: R|
            {
                &&& mid@ == decoded
                &&& T::decodes_to(pre, this, args, a)
                &&& #[trigger] call_ensures(f, (&mid, this, a), ret)
                &&& match ret.encode_spec(decoded) {
                    (encoded, Ok(h)) => post == encoded && r == h,
                    (encoded, Err(e)) => (post, r) == surface(encoded, e),
                }
            },
    }
}

/// The function that the host calls for every native function: it takes the
/// receiver and the arguments from `cbinfo`, decodes the arguments to the
/// type that the closure takes, calls the closure, and encodes what it
/// returns.
///
/// The host hands at most [`MAX_ARGS`] arguments, and the slot of the very
/// closure that the function was created with, which it has not reclaimed.
pub fn wrapper<F, T, R>(env: &mut NapiEnv, cbinfo: &CallbackInfo, native: &NativeSlot<Option<F>>) -> (r:
    NapiValue) where F: Fn(&NapiEnv, NapiValue, T) -> R, T: FromNapiValues, R: IntoNapiValue
    requires
        cbinfo.args@.len() <= MAX_ARGS,
        cbinfo.data == native.slot(),
        old(env)@.attached(native.slot()),
        native.data_spec() is Some,
        forall|e: &NapiEnv, a: T|
            call_requires(native.data_spec()->Some_0, (e, cbinfo.this, a)),
    ensures
        T::obeys_decode_spec() && R::obeys_encode_spec() ==> adapted::<F, T, R>(
            native.data_spec()->Some_0,
            old(env)@,
            cbinfo.this,
            cbinfo.args@,
            final(env)@,
            r,
        ),
{
    let this = cbinfo.this;
    let args = match T::from_napi_values(env, this, cbinfo.args.as_slice()) {
        Ok(a) => a,
        Err(e) => {
            return surface_error(env, e);
        },
    };
    let ghost decoded = env@;
    let ghost a = args;
    let held: &Option<F> = &*native.data;
    let return_value = match held {
        Some(callback) => callback(&*env, this, args),
        None => unreached(),
    };
    let ghost ret = return_value;
    assert(call_ensures(native.data_spec()->Some_0, (&*env, this, a), ret));
    match return_value.into_napi_value(env) {
        Ok(h) => h,
        Err(e) => surface_error(env, e),
    }
}

} // verus!
