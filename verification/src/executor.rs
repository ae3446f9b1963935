//! Asynchronous work as the host sees it: created, queued, running, and at
//! last resolved or rejected, which is final.

use vstd::prelude::*;
use crate::error::{NapiError, NapiErrorView, NapiStatus};
use crate::error::result_view;
use crate::host::{AsyncState, AsyncWork, HostState, NapiEnv};
use crate::napi::{answer, napi_either};

verus! {

/// What the host knows of work that was just created.
pub open spec fn new_work() -> AsyncWork {
    AsyncWork { state: AsyncState::Created, settled: None, registered: None, fired: false }
}

impl HostState {
    /// Whether `work` is the number of a piece of asynchronous work.
    pub open spec fn has_work(self, work: usize) -> bool {
        work < self.works.len()
    }

    /// The state in which the host knows `record` of the work `work`.
    pub open spec fn with_work(self, work: usize, record: AsyncWork) -> HostState {
        HostState { works: self.works.update(work as int, record), last_error: None, ..self }
    }
}

/// What [`create_async_work`] does: the work gets the next number.
pub open spec fn create_async_work_spec(st: HostState) -> (HostState, Result<usize, NapiErrorView>) {
    (
        HostState { works: st.works.push(new_work()), last_error: None, ..st },
        Ok(st.works.len() as usize),
    )
}

/// Creates a piece of asynchronous work and returns its number.
pub fn create_async_work(env: &mut NapiEnv) -> (r: Result<usize, NapiError>)
    ensures
        (final(env)@, result_view(r)) == create_async_work_spec(old(env)@),
{
    let work = env.raw_create_work();
    napi_either(env, NapiStatus::Success, work)
}

/// The step of the work `work` from the state `from` to the state `to`. A
/// number that names no work is refused with `InvalidArg`, work in another
/// state with `GenericFailure`; neither changes what the host knows of any
/// work.
pub open spec fn advance_spec(st: HostState, work: usize, from: AsyncState, to: AsyncState) -> (
    HostState,
    Result<(), NapiErrorView>,
) {
    if !st.has_work(work) {
        answer(st, NapiStatus::InvalidArg, ())
    } else if st.works[work as int].state != from {
        answer(st, NapiStatus::GenericFailure, ())
    } else {
        (st.with_work(work, AsyncWork { state: to, ..st.works[work as int] }), Ok(()))
    }
}

/// Takes the work `work` from the state `from` to the state `to`.
fn advance(env: &mut NapiEnv, work: usize, from: AsyncState, to: AsyncState) -> (r: Result<
    (),
    NapiError,
>)
    ensures
        (final(env)@, result_view(r)) == advance_spec(old(env)@, work, from, to),
{
    let status = match env.raw_work(work) {
        None => env.refuse(NapiStatus::InvalidArg),
        Some(record) => {
            if record.state == from {
                env.raw_set_work(work, AsyncWork { state: to, ..record });
                NapiStatus::Success
            } else {
                env.refuse(NapiStatus::GenericFailure)
            }
        },
    };
    napi_either(env, status, ())
}

/// Queues work that was created.
pub fn queue_async_work(env: &mut NapiEnv, work: usize) -> (r: Result<(), NapiError>)
    ensures
        (final(env)@, result_view(r)) == advance_spec(
            old(env)@,
            work,
            AsyncState::Created,
            AsyncState::Queued,
        ),
{
    advance(env, work, AsyncState::Created, AsyncState::Queued)
}

/// Marks queued work as running: the executor has taken it up.
pub fn begin_async_work(env: &mut NapiEnv, work: usize) -> (r: Result<(), NapiError>)
    ensures
        (final(env)@, result_view(r)) == advance_spec(
            old(env)@,
            work,
            AsyncState::Queued,
            AsyncState::Running,
        ),
{
    advance(env, work, AsyncState::Queued, AsyncState::Running)
}

/// What a future found when it looked for the outcome of its work.
pub enum Received<T> {
    /// The outcome has arrived.
    Value(T),
    /// Nothing has arrived yet.
    Empty,
    /// Nothing has arrived and the sender is gone.
    Disconnected,
}

/// The answer of a future that was polled.
pub enum Async<T> {
    Ready(T),
    NotReady,
}

/// A native computation that runs as asynchronous work of the host and ends
/// with a `T` or fails with an `E`.
pub struct NapiFuture<T, E> {
    work: usize,
    outcome: core::marker::PhantomData<(T, E)>,
}

impl<T, E> NapiFuture<T, E> {
    /// The number of the work that the future waits for.
    pub closed spec fn work_spec(&self) -> usize {
        self.work
    }

    /// The number of the work that the future waits for.
    #[verifier::when_used_as_spec(work_spec)]
    pub fn work(&self) -> (w: usize)
        ensures
            w == self.work(),
    {
        self.work
    }

    /// The future of the work `work`.
    pub fn new(work: usize) -> (f: NapiFuture<T, E>)
        ensures
            f.work() == work,
    {
        NapiFuture { work, outcome: core::marker::PhantomData }
    }

    /// What a poll answers, given what the future found: the value when the
    /// work ended well, its error when it failed, and not ready while
    /// nothing has arrived, also where the sender is gone.
    pub open spec fn poll_spec(received: Received<Result<T, E>>) -> Result<Async<T>, E> {
        match received {
            Received::Value(Ok(val)) => Ok(Async::Ready(val)),
            Received::Value(Err(err)) => Err(err),
            Received::Empty => Ok(Async::NotReady),
            Received::Disconnected => Ok(Async::NotReady),
        }
    }

    /// Polls the future, given what it found.
    pub fn poll(&mut self, received: Received<Result<T, E>>) -> (r: Result<Async<T>, E>)
        ensures
            r == Self::poll_spec(received),
            *final(self) == *old(self),
    {
        match received {
            Received::Value(Ok(val)) => Ok(Async::Ready(val)),
            Received::Value(Err(err)) => Err(err),
            Received::Empty => Ok(Async::NotReady),
            Received::Disconnected => Ok(Async::NotReady),
        }
    }
}

/// What [`spawn_fn`] does: work is created and queued at once.
pub open spec fn spawn_spec(st: HostState) -> HostState {
    HostState {
        works: st.works.push(AsyncWork { state: AsyncState::Queued, ..new_work() }),
        last_error: None,
        ..st
    }
}

/// Schedules a native computation: creates the work for it, queues it, and
/// returns the future that waits for it.
pub fn spawn_fn<T, E>(env: &mut NapiEnv) -> (r: Result<NapiFuture<T, E>, NapiError>)
    ensures
        final(env)@ == spawn_spec(old(env)@),
        r matches Ok(f) && f.work() == old(env)@.works.len(),
{
    proof {
        env.lemma_fits();
    }
    let work = match create_async_work(env) {
        Ok(w) => w,
        Err(e) => {
            return Err(e);
        },
    };
    match queue_async_work(env, work) {
        Ok(_) => {},
        Err(e) => {
            return Err(e);
        },
    }
    assert(env@.works =~= spawn_spec(old(env)@).works);
    Ok(NapiFuture::new(work))
}

} // verus!
