//! What holds of marshaling, of the adapter and of the async bridge as a
//! whole, stated over the functions that say what each operation does.

use vstd::prelude::*;
use crate::adapter::{create_function_spec, release};
use crate::error::{NapiErrorType, NapiErrorView, NapiStatus};
use crate::executor::{advance_spec, create_async_work_spec, spawn_spec};
use crate::host::{host_error, AsyncState, AsyncWork, CallView, HostState, HostValueView, NapiValue};
use crate::host::{NapiValueType, Registration};
use crate::napi::get_element_spec;
use crate::napi_futures::{complete_spec, continuation, encode_outcome, settle_spec, then_spec};
use crate::napi_futures::{thenable_work_spec, ThenArgs};
use crate::napi_value::{arity_error, check_napi_type_spec, decode_elements, expected_array_error};
use crate::napi_value::{expected_kind, single_outcome, type_error};
use crate::napi_value::{FromNapiValue, FromNapiValues, IntoNapiValue};
use crate::number::{double_of, lemma_integer_has_double, lemma_small_integer, stands_for, Double};
use crate::number::TWO_53;
use crate::text::lemma_nul_is_zero_char;

verus! {

/// A boolean is decoded from its encoding as it was.
pub proof fn lemma_bool_round_trip(st: HostState, this: NapiValue, x: bool)
    requires
        st.fits(),
    ensures
        ({
            let (s1, r1) = x.encode_spec(st);
            &&& r1 is Ok
            &&& <bool as FromNapiValues>::decode_outcome(s1, this, seq![r1->Ok_0]).1 is None
            &&& forall|v: bool|
                <bool as FromNapiValues>::decodes_to(s1, this, seq![r1->Ok_0], v) ==> v == x
        }),
{
}

/// A double is decoded from its encoding with the bits that it had.
pub proof fn lemma_double_round_trip(st: HostState, this: NapiValue, x: Double)
    requires
        st.fits(),
    ensures
        ({
            let (s1, r1) = x.encode_spec(st);
            &&& r1 is Ok
            &&& <Double as FromNapiValues>::decode_outcome(s1, this, seq![r1->Ok_0]).1 is None
            &&& forall|v: Double|
                <Double as FromNapiValues>::decodes_to(s1, this, seq![r1->Ok_0], v) ==> v == x
        }),
{
}

/// Text without the zero character, and shorter than the longest buffer, is
/// decoded from its encoding as it was.
pub proof fn lemma_text_round_trip(st: HostState, this: NapiValue, x: String)
    requires
        st.fits(),
        !x@.contains('\0'),
        vstd::utf8::encode_utf8(x@).len() < usize::MAX,
    ensures
        ({
            let (s1, r1) = x.encode_spec(st);
            &&& r1 is Ok
            &&& <String as FromNapiValues>::decode_outcome(s1, this, seq![r1->Ok_0]).1 is None
            &&& forall|v: String|
                <String as FromNapiValues>::decodes_to(s1, this, seq![r1->Ok_0], v) ==> v@ == x@
        }),
{
    lemma_nul_is_zero_char(x@);
}

/// A 64-bit integer up to two to the 53 in magnitude is decoded from its
/// encoding as it was. Above that the host's numbers are too coarse.
pub proof fn lemma_i64_round_trip(st: HostState, this: NapiValue, x: i64)
    requires
        st.fits(),
        -(TWO_53 as int) <= x <= TWO_53 as int,
    ensures
        ({
            let (s1, r1) = x.encode_spec(st);
            &&& r1 is Ok
            &&& <i64 as FromNapiValues>::decode_outcome(s1, this, seq![r1->Ok_0]).1 is None
            &&& forall|v: i64|
                <i64 as FromNapiValues>::decodes_to(s1, this, seq![r1->Ok_0], v) ==> v == x
        }),
{
    lemma_small_integer(x as int);
}

/// A 64-bit integer is encoded as the double that stands for it, the nearest
/// one, and decoded as that double held to the range of the type. This is
/// what becomes of an integer above two to the 53.
pub proof fn lemma_i64_decodes_rounded(st: HostState, this: NapiValue, x: i64)
    requires
        st.fits(),
    ensures
        ({
            let (s1, r1) = x.encode_spec(st);
            &&& r1 is Ok
            &&& stands_for(double_of(x as int), x as int)
            &&& s1.values[r1->Ok_0 as int] == HostValueView::Number(double_of(x as int).bits)
            &&& <i64 as FromNapiValues>::decode_outcome(s1, this, seq![r1->Ok_0]).1 is None
            &&& forall|v: i64|
                <i64 as FromNapiValues>::decodes_to(s1, this, seq![r1->Ok_0], v) ==> v == double_of(
                    x as int,
                ).to_i64_spec()
        }),
{
    lemma_integer_has_double(x as int);
}

/// An unsigned 64-bit integer is encoded as the double that stands for it
/// and decoded as that double reduced modulo two to the 32.
pub proof fn lemma_u64_decodes_reduced(st: HostState, this: NapiValue, x: u64)
    requires
        st.fits(),
    ensures
        ({
            let (s1, r1) = x.encode_spec(st);
            &&& r1 is Ok
            &&& stands_for(double_of(x as int), x as int)
            &&& s1.values[r1->Ok_0 as int] == HostValueView::Number(double_of(x as int).bits)
            &&& <u64 as FromNapiValues>::decode_outcome(s1, this, seq![r1->Ok_0]).1 is None
            &&& forall|v: u64|
                <u64 as FromNapiValues>::decodes_to(s1, this, seq![r1->Ok_0], v) ==> v == double_of(
                    x as int,
                ).to_u32_spec()
        }),
{
    lemma_integer_has_double(x as int);
}

/// An unsigned integer below two to the 32 is decoded from its encoding as
/// it was. The decoder asks the host for 32 bits only.
pub proof fn lemma_u64_round_trip(st: HostState, this: NapiValue, x: u64)
    requires
        st.fits(),
        x < 0x1_0000_0000,
    ensures
        ({
            let (s1, r1) = x.encode_spec(st);
            &&& r1 is Ok
            &&& <u64 as FromNapiValues>::decode_outcome(s1, this, seq![r1->Ok_0]).1 is None
            &&& forall|v: u64|
                <u64 as FromNapiValues>::decodes_to(s1, this, seq![r1->Ok_0], v) ==> v == x
        }),
{
    lemma_small_integer(x as int);
}

/// A scalar is decoded from exactly one argument: any other number of them
/// is refused with `InvalidArg`, and the host is not touched.
pub proof fn lemma_scalar_arity<T: FromNapiValue>(st: HostState, values: Seq<NapiValue>)
    requires
        values.len() != 1,
    ensures
        single_outcome::<T>(st, values) == (st, Some(arity_error(1, values.len()))),
        arity_error(1, values.len()).error_code == NapiErrorType::InvalidArg,
{
}

/// A value of another type than the one that is asked for is refused with
/// the kind that names the expected type.
pub proof fn lemma_type_check(st: HostState, expected: NapiValueType, h: NapiValue)
    requires
        st.valid(h),
        st.values[h as int].type_tag() != expected,
    ensures
        check_napi_type_spec(st, expected, h) == (
            st.pass(),
            Err::<(), NapiErrorView>(type_error(expected, st.values[h as int].type_tag())),
        ),
        type_error(expected, st.values[h as int].type_tag()).error_code == expected_kind(expected),
{
}

/// A scalar is decoded only from a value of its own type: a boolean from a
/// boolean, text from a string, a number from a number. Any other value is
/// refused with `BooleanExpected`, `StringExpected` or `NumberExpected`.
pub proof fn lemma_scalar_type(st: HostState, this: NapiValue, h: NapiValue)
    requires
        st.valid(h),
    ensures
        ({
            let actual = st.values[h as int].type_tag();
            &&& actual != NapiValueType::Boolean ==> <bool as FromNapiValues>::decode_outcome(
                st,
                this,
                seq![h],
            ) == (st.pass(), Some(type_error(NapiValueType::Boolean, actual)))
            &&& actual != NapiValueType::String ==> <String as FromNapiValues>::decode_outcome(
                st,
                this,
                seq![h],
            ) == (st.pass(), Some(type_error(NapiValueType::String, actual)))
            &&& actual != NapiValueType::Number ==> {
                let refused = (st.pass(), Some(type_error(NapiValueType::Number, actual)));
                &&& <i64 as FromNapiValues>::decode_outcome(st, this, seq![h]) == refused
                &&& <u64 as FromNapiValues>::decode_outcome(st, this, seq![h]) == refused
                &&& <Double as FromNapiValues>::decode_outcome(st, this, seq![h]) == refused
            }
            &&& type_error(NapiValueType::Boolean, actual).error_code
                == NapiErrorType::BooleanExpected
            &&& type_error(NapiValueType::String, actual).error_code
                == NapiErrorType::StringExpected
            &&& type_error(NapiValueType::Number, actual).error_code
                == NapiErrorType::NumberExpected
        }),
{
}

/// A sequence is decoded only from an array: any other value is refused
/// with `InvalidArg` and the message "expected array".
pub proof fn lemma_sequence_of_no_array<T: FromNapiValues>(
    st: HostState,
    this: NapiValue,
    h: NapiValue,
)
    requires
        st.valid(h),
        !(st.values[h as int] is Array),
    ensures
        <Vec<T> as FromNapiValues>::decode_outcome(st, this, seq![h]) == (
            st.pass(),
            Some(expected_array_error()),
        ),
        expected_array_error().error_code == NapiErrorType::InvalidArg,
        expected_array_error().error_message == "expected array"@,
{
}

/// Whether `e` is the error with which the decoding of one element of
/// `array` fails in some state of the host.
pub open spec fn is_element_error<T: FromNapiValues>(
    this: NapiValue,
    array: NapiValue,
    e: NapiErrorView,
) -> bool {
    exists|s: HostState, i: usize|
        match #[trigger] get_element_spec(s, array, i).1 {
            Err(fetch) => e == fetch,
            Ok(h) => T::decode_outcome(get_element_spec(s, array, i).0, this, seq![h]).1 == Some(e),
        }
}

/// The decoding of a sequence fails with the error of the first element
/// that cannot be fetched or decoded, not with an error of its own.
pub proof fn lemma_element_error<T: FromNapiValues>(
    st: HostState,
    this: NapiValue,
    array: NapiValue,
    i: nat,
    n: nat,
)
    requires
        n <= usize::MAX,
    ensures
        decode_elements::<T>(st, this, array, i, n).1 matches Some(e) ==> is_element_error::<T>(
            this,
            array,
            e,
        ),
    decreases n - i,
{
    if i < n {
        let (s1, r1) = get_element_spec(st, array, i as usize);
        match r1 {
            Err(fetch) => {
                assert(get_element_spec(st, array, i as usize).1 == Err::<NapiValue, NapiErrorView>(
                    fetch,
                ));
            },
            Ok(h) => {
                let (s2, e2) = T::decode_outcome(s1, this, seq![h]);
                match e2 {
                    Some(e) => {
                        assert(get_element_spec(st, array, i as usize).1 == Ok::<
                            NapiValue,
                            NapiErrorView,
                        >(h));
                    },
                    None => {
                        lemma_element_error::<T>(s2, this, array, i + 1, n);
                    },
                }
            },
        }
    }
}

/// The element at which the decoding of a sequence stops decides its
/// outcome: where element `i` fails with `e` after all before it were
/// decoded, the rest of the decoding fails with `e`.
pub proof fn lemma_first_failure<T: FromNapiValues>(
    st: HostState,
    this: NapiValue,
    array: NapiValue,
    i: nat,
    n: nat,
    e: NapiErrorView,
)
    requires
        i < n,
        get_element_spec(st, array, i as usize).1 matches Ok(h) && T::decode_outcome(
            get_element_spec(st, array, i as usize).0,
            this,
            seq![h],
        ).1 == Some(e),
    ensures
        decode_elements::<T>(st, this, array, i, n).1 == Some(e),
{
}

/// The host's finalizer reclaims native data once: after it ran the data is
/// not attached, and a second run changes nothing.
pub proof fn lemma_finalized_once(st: HostState, slot: usize)
    ensures
        !release(st, slot).attached(slot),
        release(release(st, slot), slot) == release(st, slot),
        forall|other: usize| other != slot ==> release(st, slot).attached(other) == st.attached(other),
{
}

/// The closure of a function that was just created is attached.
pub proof fn lemma_created_function_attached(st: HostState, name: Seq<char>)
    requires
        st.fits(),
        create_function_spec(st, name).1 is Ok,
    ensures
        create_function_spec(st, name).0.attached(st.slots.len() as usize),
        create_function_spec(st, name).0.values[create_function_spec(st, name).1->Ok_0 as int]
            == (HostValueView::Function { name, data: st.slots.len() as usize }),
{
}

/// Whether the host knows of every piece of work what the states allow: an
/// outcome exactly when the work is resolved or rejected, and a call of a
/// continuation exactly when there are both an outcome and continuations.
pub open spec fn work_consistent(w: AsyncWork) -> bool {
    &&& w.settled is Some <==> (w.state == AsyncState::Resolved || w.state == AsyncState::Rejected)
    &&& w.fired <==> (w.settled is Some && w.registered is Some)
}

/// Whether all work of a state is consistent.
pub open spec fn works_consistent(st: HostState) -> bool {
    forall|k: int| 0 <= k < st.works.len() ==> work_consistent(#[trigger] st.works[k])
}

/// The call of the continuation that the outcome `fulfilled` names, with
/// the encoded outcome as its only argument.
pub open spec fn continuation_call(reg: Registration, fulfilled: bool, h: NapiValue) -> CallView {
    CallView { func: continuation(reg, fulfilled), recv: reg.this, args: seq![h] }
}

/// When running work is settled, exactly one continuation is called if
/// continuations are registered, the one that the outcome names, and none
/// if there are none; the work is then resolved or rejected and stays
/// consistent. When the settling fails, no work changes and nothing is
/// called.
pub proof fn lemma_settle_calls_once(st: HostState, work: usize, fulfilled: bool, h: NapiValue)
    requires
        works_consistent(st),
    ensures
        ({
            let (post, r) = settle_spec(st, work, fulfilled, h);
            &&& works_consistent(post)
            &&& r is Err ==> post.works == st.works && post.calls == st.calls
            &&& r is Ok ==> {
                let w = st.works[work as int];
                &&& st.has_work(work)
                &&& w.state == AsyncState::Running
                &&& post.works[work as int].state == (if fulfilled {
                    AsyncState::Resolved
                } else {
                    AsyncState::Rejected
                })
                &&& post.works[work as int].settled == Some(h)
                &&& match w.registered {
                    Some(reg) => post.calls == st.calls.push(continuation_call(reg, fulfilled, h)),
                    None => post.calls == st.calls,
                }
            }
        }),
{
    let (post, r) = settle_spec(st, work, fulfilled, h);
    if r is Ok {
        assert forall|k: int| 0 <= k < post.works.len() implies work_consistent(
            #[trigger] post.works[k],
        ) by {
            if k != work {
                assert(post.works[k] == st.works[k]);
            }
        }
    }
}

/// Registering continuations calls none of them while the work has no
/// outcome, and exactly the one that the outcome names when it has. Work
/// stays consistent. When the registration fails, no work changes and
/// nothing is called.
pub proof fn lemma_then_calls_once(st: HostState, this: NapiValue, then_args: ThenArgs)
    requires
        works_consistent(st),
    ensures
        ({
            let (post, r) = then_spec(st, this, then_args);
            let reg = Registration {
                this,
                on_fulfilled: then_args.on_fulfilled,
                on_rejected: then_args.on_rejected,
            };
            &&& works_consistent(post)
            &&& r is Err ==> post.works == st.works && post.calls == st.calls
            &&& r is Ok ==> {
                let work = thenable_work_spec(st, this).1->Ok_0;
                let w = st.works[work as int];
                &&& thenable_work_spec(st, this).1 is Ok
                &&& st.has_work(work)
                &&& w.registered is None
                &&& post.works[work as int].registered == Some(reg)
                &&& post.works[work as int].state == w.state
                &&& match w.settled {
                    None => post.calls == st.calls,
                    Some(h) => post.calls == st.calls.push(
                        continuation_call(reg, w.state == AsyncState::Resolved, h),
                    ),
                }
            }
        }),
{
    let (post, r) = then_spec(st, this, then_args);
    let (s1, r1) = thenable_work_spec(st, this);
    assert(s1.works == st.works && s1.calls == st.calls);
    if r is Ok {
        let work = r1->Ok_0;
        assert forall|k: int| 0 <= k < post.works.len() implies work_consistent(
            #[trigger] post.works[k],
        ) by {
            if k != work {
                assert(post.works[k] == st.works[k]);
            }
        }
    }
}

/// Work takes a step exactly when it is in the state from which the step
/// leads: then it is in the state to which the step leads, and all other
/// work is as it was. So work is queued once, and begun once.
pub proof fn lemma_steps_in_order(st: HostState, work: usize, from: AsyncState, to: AsyncState)
    ensures
        ({
            let (post, r) = advance_spec(st, work, from, to);
            &&& r is Ok <==> st.has_work(work) && st.works[work as int].state == from
            &&& r is Ok ==> {
                &&& post.works.len() == st.works.len()
                &&& post.works[work as int] == (AsyncWork { state: to, ..st.works[work as int] })
                &&& forall|k: int|
                    0 <= k < st.works.len() && k != work ==> post.works[k] == st.works[k]
            }
            &&& r is Err ==> post.works == st.works
            &&& post.calls == st.calls
            &&& from != to ==> advance_spec(post, work, from, to).1 is Err
        }),
{
}

/// Creating work, scheduling it, queueing it and taking it up keep all work
/// consistent.
pub proof fn lemma_steps_keep_consistent(st: HostState, work: usize)
    requires
        works_consistent(st),
    ensures
        works_consistent(create_async_work_spec(st).0),
        works_consistent(spawn_spec(st)),
        works_consistent(advance_spec(st, work, AsyncState::Created, AsyncState::Queued).0),
        works_consistent(advance_spec(st, work, AsyncState::Queued, AsyncState::Running).0),
{
    let created = create_async_work_spec(st).0;
    assert forall|k: int| 0 <= k < created.works.len() implies work_consistent(
        #[trigger] created.works[k],
    ) by {
        if k < st.works.len() {
            assert(created.works[k] == st.works[k]);
        }
    }
    let spawned = spawn_spec(st);
    assert forall|k: int| 0 <= k < spawned.works.len() implies work_consistent(
        #[trigger] spawned.works[k],
    ) by {
        if k < st.works.len() {
            assert(spawned.works[k] == st.works[k]);
        }
    }
    let queued = advance_spec(st, work, AsyncState::Created, AsyncState::Queued).0;
    assert forall|k: int| 0 <= k < queued.works.len() implies work_consistent(
        #[trigger] queued.works[k],
    ) by {
        if k != work {
            assert(queued.works[k] == st.works[k]);
        }
    }
    let running = advance_spec(st, work, AsyncState::Queued, AsyncState::Running).0;
    assert forall|k: int| 0 <= k < running.works.len() implies work_consistent(
        #[trigger] running.works[k],
    ) by {
        if k != work {
            assert(running.works[k] == st.works[k]);
        }
    }
}

/// Whether encoding `outcome` in the state `st` gives the handle `h` and
/// leaves the work and the calls of the host as they were, as the encoding
/// of every type of this crate does.
pub open spec fn encodes_quietly<T: IntoNapiValue, E: IntoNapiValue>(
    st: HostState,
    outcome: Result<T, E>,
    h: NapiValue,
) -> bool {
    let (post, r) = encode_outcome(st, outcome);
    &&& r == Ok::<NapiValue, NapiErrorView>(h)
    &&& post.works == st.works
    &&& post.calls == st.calls
}

/// Continuations that are registered while the work runs are not called by
/// the registration; when the work is completed, exactly one of them is
/// called, once: the first for a value, the second for an error, with the
/// encoded outcome as its only argument.
pub proof fn lemma_registered_then_completed<T: IntoNapiValue, E: IntoNapiValue>(
    st: HostState,
    this: NapiValue,
    then_args: ThenArgs,
    outcome: Result<T, E>,
    h: NapiValue,
)
    requires
        works_consistent(st),
        then_spec(st, this, then_args).1 is Ok,
        st.works[thenable_work_spec(st, this).1->Ok_0 as int].state == AsyncState::Running,
        encodes_quietly(then_spec(st, this, then_args).0, outcome, h),
        complete_spec(
            then_spec(st, this, then_args).0,
            thenable_work_spec(st, this).1->Ok_0,
            outcome,
        ).1 is Ok,
    ensures
        ({
            let work = thenable_work_spec(st, this).1->Ok_0;
            let registered = then_spec(st, this, then_args).0;
            let completed = complete_spec(registered, work, outcome).0;
            let reg = Registration {
                this,
                on_fulfilled: then_args.on_fulfilled,
                on_rejected: then_args.on_rejected,
            };
            &&& registered.calls == st.calls
            &&& completed.calls == st.calls.push(continuation_call(reg, outcome is Ok, h))
            &&& completed.works[work as int].fired
            &&& works_consistent(completed)
        }),
{
    let work = thenable_work_spec(st, this).1->Ok_0;
    let registered = then_spec(st, this, then_args).0;
    lemma_then_calls_once(st, this, then_args);
    let encoded = encode_outcome(registered, outcome).0;
    assert forall|k: int| 0 <= k < encoded.works.len() implies work_consistent(
        #[trigger] encoded.works[k],
    ) by {
        assert(encoded.works[k] == registered.works[k]);
    }
    lemma_settle_calls_once(encoded, work, outcome is Ok, h);
}

/// Work that is completed before continuations are registered calls
/// nothing at its completion; the registration then calls exactly one
/// continuation, once, the one that the outcome names.
pub proof fn lemma_completed_then_registered<T: IntoNapiValue, E: IntoNapiValue>(
    st: HostState,
    this: NapiValue,
    then_args: ThenArgs,
    work: usize,
    outcome: Result<T, E>,
    h: NapiValue,
)
    requires
        works_consistent(st),
        st.has_work(work),
        st.works[work as int].registered is None,
        encodes_quietly(st, outcome, h),
        complete_spec(st, work, outcome).1 is Ok,
        thenable_work_spec(complete_spec(st, work, outcome).0, this).1 == Ok::<usize, NapiErrorView>(
            work,
        ),
        then_spec(complete_spec(st, work, outcome).0, this, then_args).1 is Ok,
    ensures
        ({
            let completed = complete_spec(st, work, outcome).0;
            let registered = then_spec(completed, this, then_args).0;
            let reg = Registration {
                this,
                on_fulfilled: then_args.on_fulfilled,
                on_rejected: then_args.on_rejected,
            };
            &&& completed.calls == st.calls
            &&& registered.calls == st.calls.push(continuation_call(reg, outcome is Ok, h))
            &&& registered.works[work as int].fired
            &&& works_consistent(registered)
        }),
{
    let encoded = encode_outcome(st, outcome).0;
    assert forall|k: int| 0 <= k < encoded.works.len() implies work_consistent(
        #[trigger] encoded.works[k],
    ) by {
        assert(encoded.works[k] == st.works[k]);
    }
    lemma_settle_calls_once(encoded, work, outcome is Ok, h);
    let completed = complete_spec(st, work, outcome).0;
    lemma_then_calls_once(completed, this, then_args);
}

/// The last states are final: work that is resolved or rejected is neither
/// queued, begun nor completed again, and what the host knows of it stays.
pub proof fn lemma_final_states<T: IntoNapiValue, E: IntoNapiValue>(
    st: HostState,
    work: usize,
    outcome: Result<T, E>,
)
    requires
        st.has_work(work),
        st.works[work as int].state == AsyncState::Resolved || st.works[work as int].state
            == AsyncState::Rejected,
    ensures
        advance_spec(st, work, AsyncState::Created, AsyncState::Queued) == (
            st.fail(NapiStatus::GenericFailure),
            Err::<(), NapiErrorView>(host_error(NapiStatus::GenericFailure)),
        ),
        advance_spec(st, work, AsyncState::Queued, AsyncState::Running) == (
            st.fail(NapiStatus::GenericFailure),
            Err::<(), NapiErrorView>(host_error(NapiStatus::GenericFailure)),
        ),
        complete_spec(st, work, outcome) == (
            st.fail(NapiStatus::GenericFailure),
            Err::<(), NapiErrorView>(host_error(NapiStatus::GenericFailure)),
        ),
{
}

} // verus!
