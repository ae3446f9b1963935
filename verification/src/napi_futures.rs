//! The bridge from asynchronous work to a thenable: a host object with a
//! `then` function, through which the host registers the continuations that
//! are called when the work has ended.

use vstd::prelude::*;
use crate::adapter::create_function_spec;
use crate::error::{NapiError, NapiErrorView, NapiStatus};
use crate::error::result_view;
use crate::executor::NapiFuture;
use crate::host::{AsyncState, AsyncWork, HostState, HostValue, HostValueView, NapiEnv, NapiValue};
use crate::host::{NapiValueType, Registration};
use crate::napi::{call_function, create_object, get_named_property, napi_either, set_named_property};
use crate::napi::{answer, call_function_spec, created, get_named_property_spec};
use crate::napi::set_named_property_spec;
use crate::napi_value::{check_napi_args_length, check_napi_type, FromNapiValues, IntoNapiValue};
use crate::napi_value::{arity_error, check_napi_type_spec};

verus! {

/// The continuations that the host hands to `then`: one for an outcome that
/// is a value, one for an outcome that is an error.
#[derive(Debug, Clone, Copy, PartialEq, Eq, Structural)]
pub struct ThenArgs {
    pub on_fulfilled: NapiValue,
    pub on_rejected: NapiValue,
}

impl FromNapiValues for ThenArgs {
    open spec fn obeys_decode_spec() -> bool {
        true
    }

    /// The list must hold exactly two handles, and both must be functions.
    open spec fn decode_outcome(st: HostState, this: NapiValue, values: Seq<NapiValue>) -> (
        HostState,
        Option<NapiErrorView>,
    ) {
        if values.len() != 2 {
            (st, Some(arity_error(2, values.len())))
        } else {
            let (s1, r1) = check_napi_type_spec(st, NapiValueType::Function, values[0]);
            match r1 {
                Err(e) => (s1, Some(e)),
                Ok(_) => {
                    let (s2, r2) = check_napi_type_spec(s1, NapiValueType::Function, values[1]);
                    match r2 {
                        Err(e) => (s2, Some(e)),
                        Ok(_) => (s2, None),
                    }
                },
            }
        }
    }

    open spec fn decodes_to(st: HostState, this: NapiValue, values: Seq<NapiValue>, v: Self) -> bool {
        v == (ThenArgs { on_fulfilled: values[0], on_rejected: values[1] })
    }

    fn from_napi_values(env: &mut NapiEnv, this: NapiValue, napi_values: &[NapiValue]) -> (r: Result<
        Self,
        NapiError,
    >) {
        match check_napi_args_length(env, napi_values, 2) {
            Err(e) => {
                return Err(e);
            },
            Ok(_) => {},
        }
        let on_fulfilled = napi_values[0];
        let on_rejected = napi_values[1];
        match check_napi_type(env, NapiValueType::Function, on_fulfilled) {
            Err(e) => {
                return Err(e);
            },
            Ok(_) => {},
        }
        match check_napi_type(env, NapiValueType::Function, on_rejected) {
            Err(e) => {
                return Err(e);
            },
            Ok(_) => {},
        }
        Ok(ThenArgs { on_fulfilled, on_rejected })
    }
}

/// What encoding a future does: an object is created, then the state that
/// names the work, then the function `then`, whose native data the host
/// takes; the two are written to the object as `then` and `state`.
pub open spec fn thenable_spec(st: HostState, work: usize) -> (
    HostState,
    Result<NapiValue, NapiErrorView>,
) {
    let obj = st.values.len() as usize;
    let s1 = st.create(HostValueView::Object(Seq::empty()));
    let state = s1.values.len() as usize;
    let s2 = s1.create(HostValueView::AsyncState(work));
    let (s3, then) = create_function_spec(s2, "then"@);
    match then {
        Err(e) => (s3, Err(e)),
        Ok(then) => {
            let (s4, r4) = set_named_property_spec(s3, obj, "then"@, then);
            match r4 {
                Err(e) => (s4, Err(e)),
                Ok(_) => {
                    let (s5, r5) = set_named_property_spec(s4, obj, "state"@, state);
                    match r5 {
                        Err(e) => (s5, Err(e)),
                        Ok(_) => (s5, Ok(obj)),
                    }
                },
            }
        },
    }
}

impl<T: IntoNapiValue, E: IntoNapiValue> IntoNapiValue for NapiFuture<T, E> {
    open spec fn obeys_encode_spec() -> bool {
        true
    }

    open spec fn encode_spec(&self, st: HostState) -> (HostState, Result<NapiValue, NapiErrorView>) {
        thenable_spec(st, self.work())
    }

    fn into_napi_value(self, env: &mut NapiEnv) -> (r: Result<NapiValue, NapiError>) {
        proof {
            crate::text::lemma_nul_is_zero_char("then"@);
            reveal_strlit("then");
        }
        let obj = match create_object(env) {
            Ok(h) => h,
            Err(e) => {
                return Err(e);
            },
        };
        let state = env.allocate(HostValue::AsyncState(self.work()));
        let slot = env.raw_attach();
        let then = env.allocate(HostValue::Function { name: String::from_str("then"), data: slot });
        match set_named_property(env, obj, "then", then) {
            Ok(_) => {},
            Err(e) => {
                return Err(e);
            },
        }
        match set_named_property(env, obj, "state", state) {
            Ok(_) => {},
            Err(e) => {
                return Err(e);
            },
        }
        Ok(obj)
    }
}

/// The continuation of `reg` that an outcome calls: the first for a value,
/// the second for an error.
pub open spec fn continuation(reg: Registration, fulfilled: bool) -> NapiValue {
    if fulfilled {
        reg.on_fulfilled
    } else {
        reg.on_rejected
    }
}

/// What the host knows of work that has ended with the encoded outcome `h`.
pub open spec fn settled_work(w: AsyncWork, fulfilled: bool, h: NapiValue) -> AsyncWork {
    AsyncWork {
        state: if fulfilled {
            AsyncState::Resolved
        } else {
            AsyncState::Rejected
        },
        settled: Some(h),
        ..w
    }
}

/// The end of running work, once its outcome is encoded as `h`. Where
/// continuations are registered, the one that the outcome names is called
/// with `h`; only when that call was made is the work settled. Work that is
/// not running is refused with `GenericFailure`, a number that names no work
/// with `InvalidArg`.
pub open spec fn settle_spec(st: HostState, work: usize, fulfilled: bool, h: NapiValue) -> (
    HostState,
    Result<(), NapiErrorView>,
) {
    if !st.has_work(work) {
        answer(st, NapiStatus::InvalidArg, ())
    } else if st.works[work as int].state != AsyncState::Running {
        answer(st, NapiStatus::GenericFailure, ())
    } else {
        let w = st.works[work as int];
        match w.registered {
            None => (st.with_work(work, settled_work(w, fulfilled, h)), Ok(())),
            Some(reg) => {
                let (s1, r1) = call_function_spec(
                    st,
                    reg.this,
                    continuation(reg, fulfilled),
                    seq![h],
                );
                match r1 {
                    Err(e) => (s1, Err(e)),
                    Ok(_) => (
                        s1.with_work(
                            work,
                            AsyncWork { fired: true, ..settled_work(w, fulfilled, h) },
                        ),
                        Ok(()),
                    ),
                }
            },
        }
    }
}

/// Ends running work with the encoded outcome `h`.
fn settle(env: &mut NapiEnv, work: usize, fulfilled: bool, h: NapiValue) -> (r: Result<(), NapiError>)
    ensures
        (final(env)@, result_view(r)) == settle_spec(old(env)@, work, fulfilled, h),
{
    let w = match env.raw_work(work) {
        None => {
            let status = env.refuse(NapiStatus::InvalidArg);
            return napi_either(env, status, ());
        },
        Some(w) => w,
    };
    if w.state != AsyncState::Running {
        let status = env.refuse(NapiStatus::GenericFailure);
        return napi_either(env, status, ());
    }
    let state = if fulfilled {
        AsyncState::Resolved
    } else {
        AsyncState::Rejected
    };
    match w.registered {
        None => {
            env.raw_set_work(work, AsyncWork { state, settled: Some(h), ..w });
            Ok(())
        },
        Some(reg) => {
            let func = if fulfilled {
                reg.on_fulfilled
            } else {
                reg.on_rejected
            };
            let napi_args = [h];
            assert(napi_args@ =~= seq![h]);
            match call_function(env, reg.this, func, napi_args.as_slice()) {
                Err(e) => Err(e),
                Ok(_) => {
                    env.raw_set_work(work, AsyncWork { state, settled: Some(h), fired: true, ..w });
                    Ok(())
                },
            }
        },
    }
}

/// What encoding the outcome of a piece of work does.
pub open spec fn encode_outcome<T: IntoNapiValue, E: IntoNapiValue>(
    st: HostState,
    outcome: Result<T, E>,
) -> (HostState, Result<NapiValue, NapiErrorView>) {
    match outcome {
        Ok(val) => val.encode_spec(st),
        Err(err) => err.encode_spec(st),
    }
}

/// What [`complete_async_work`] does: the outcome of running work is encoded
/// and the work is settled with it. Nothing is encoded for a number that
/// names no work or for work that is not running; an outcome that cannot be
/// encoded leaves the work running.
pub open spec fn complete_spec<T: IntoNapiValue, E: IntoNapiValue>(
    st: HostState,
    work: usize,
    outcome: Result<T, E>,
) -> (HostState, Result<(), NapiErrorView>) {
    if !st.has_work(work) {
        answer(st, NapiStatus::InvalidArg, ())
    } else if st.works[work as int].state != AsyncState::Running {
        answer(st, NapiStatus::GenericFailure, ())
    } else {
        let (s1, r1) = encode_outcome(st, outcome);
        match r1 {
            Err(e) => (s1, Err(e)),
            Ok(h) => settle_spec(s1, work, outcome is Ok, h),
        }
    }
}

/// Completes running work with the outcome of its computation: a value
/// resolves it, an error rejects it. This is where the outcome becomes a
/// host value, and where the continuation that the outcome names is called,
/// if the host has registered it.
pub fn complete_async_work<T: IntoNapiValue, E: IntoNapiValue>(
    env: &mut NapiEnv,
    work: usize,
    outcome: Result<T, E>,
) -> (r: Result<(), NapiError>)
    ensures
        T::obeys_encode_spec() && E::obeys_encode_spec() ==> (final(env)@, result_view(r))
            == complete_spec(old(env)@, work, outcome),
{
    match env.raw_work(work) {
        None => {
            let status = env.refuse(NapiStatus::InvalidArg);
            return napi_either(env, status, ());
        },
        Some(w) => {
            if w.state != AsyncState::Running {
                let status = env.refuse(NapiStatus::GenericFailure);
                return napi_either(env, status, ());
            }
        },
    }
    let fulfilled = outcome.is_ok();
    let encoded = match outcome {
        Ok(val) => val.into_napi_value(env),
        Err(err) => err.into_napi_value(env),
    };
    match encoded {
        Err(e) => Err(e),
        Ok(h) => settle(env, work, fulfilled, h),
    }
}

/// The work that the thenable `this` waits for: what its property `state`
/// names. A receiver that is no thenable is refused with `InvalidArg`.
pub open spec fn thenable_work_spec(st: HostState, this: NapiValue) -> (
    HostState,
    Result<usize, NapiErrorView>,
) {
    let (s1, r1) = get_named_property_spec(st, this, "state"@);
    match r1 {
        Err(e) => (s1, Err(e)),
        Ok(h) => answer(
            s1,
            if s1.valid(h) && s1.values[h as int] is AsyncState {
                NapiStatus::Success
            } else {
                NapiStatus::InvalidArg
            },
            s1.values[h as int]->AsyncState_0,
        ),
    }
}

/// The work that the thenable `this` waits for.
pub fn thenable_work(env: &mut NapiEnv, this: NapiValue) -> (r: Result<usize, NapiError>)
    ensures
        (final(env)@, result_view(r)) == thenable_work_spec(old(env)@, this),
{
    let state = match get_named_property(env, this, "state") {
        Ok(h) => h,
        Err(e) => {
            return Err(e);
        },
    };
    let (status, work) = env.raw_get_async_state(state);
    napi_either(env, status, work)
}

/// What [`then`] does: the continuations are registered with the work that
/// the thenable `this` waits for. Where the work has ended already, the
/// continuation that its outcome names is called at once with the encoded
/// outcome; else none is called. Continuations are registered once: a second
/// registration is refused with `GenericFailure`.
pub open spec fn then_spec(st: HostState, this: NapiValue, then_args: ThenArgs) -> (
    HostState,
    Result<(), NapiErrorView>,
) {
    let (s1, r1) = thenable_work_spec(st, this);
    match r1 {
        Err(e) => (s1, Err(e)),
        Ok(work) => {
            if !s1.has_work(work) {
                answer(s1, NapiStatus::InvalidArg, ())
            } else if s1.works[work as int].registered is Some {
                answer(s1, NapiStatus::GenericFailure, ())
            } else {
                let w = s1.works[work as int];
                let reg = Registration {
                    this,
                    on_fulfilled: then_args.on_fulfilled,
                    on_rejected: then_args.on_rejected,
                };
                match w.settled {
                    None => (s1.with_work(work, AsyncWork { registered: Some(reg), ..w }), Ok(())),
                    Some(h) => {
                        let (s2, r2) = call_function_spec(
                            s1,
                            this,
                            continuation(reg, w.state == AsyncState::Resolved),
                            seq![h],
                        );
                        match r2 {
                            Err(e) => (s2, Err(e)),
                            Ok(_) => (
                                s2.with_work(
                                    work,
                                    AsyncWork { registered: Some(reg), fired: true, ..w },
                                ),
                                Ok(()),
                            ),
                        }
                    },
                }
            }
        },
    }
}

/// The `then` of a thenable: registers the continuations of the host with
/// the work that the receiver waits for.
pub fn then(env: &mut NapiEnv, this: NapiValue, then_args: ThenArgs) -> (r: Result<(), NapiError>)
    ensures
        (final(env)@, result_view(r)) == then_spec(old(env)@, this, then_args),
{
    let work = match thenable_work(env, this) {
        Ok(w) => w,
        Err(e) => {
            return Err(e);
        },
    };
    let w = match env.raw_work(work) {
        None => {
            let status = env.refuse(NapiStatus::InvalidArg);
            return napi_either(env, status, ());
        },
        Some(w) => w,
    };
    if w.registered.is_some() {
        let status = env.refuse(NapiStatus::GenericFailure);
        return napi_either(env, status, ());
    }
    let reg = Registration {
        this,
        on_fulfilled: then_args.on_fulfilled,
        on_rejected: then_args.on_rejected,
    };
    match w.settled {
        None => {
            env.raw_set_work(work, AsyncWork { registered: Some(reg), ..w });
            Ok(())
        },
        Some(h) => {
            let func = if w.state == AsyncState::Resolved {
                reg.on_fulfilled
            } else {
                reg.on_rejected
            };
            let napi_args = [h];
            assert(napi_args@ =~= seq![h]);
            match call_function(env, this, func, napi_args.as_slice()) {
                Err(e) => Err(e),
                Ok(_) => {
                    env.raw_set_work(work, AsyncWork { registered: Some(reg), fired: true, ..w });
                    Ok(())
                },
            }
        },
    }
}

} // verus!
