//! Non-blocking socket and pipe adapters.
//!
//! Every adapter follows one template: attempt the non-blocking
//! operation once; if it succeeds, return; if it would block (or the
//! socket is still connecting), park on the descriptor's readiness and
//! retry; any other error propagates.  The attempt itself goes through
//! a trusted wrapper around the event library; the template's decision
//! and the timeout bookkeeping are verified here.

pub mod tcp;
pub mod udp;
pub mod unix;

use vstd::prelude::*;
use crate::io::Io;
use crate::scheduler::Scheduler;

verus! {

/// Relies on std::io::Error as an opaque error value carried through
/// unchanged.
#[verifier::external_type_specification]
#[verifier::external_body]
pub struct ExIoError(std::io::Error);

/// The per-adapter timeout bookkeeping: the configured per-operation
/// delay, and the registration token of a timer armed for the
/// operation in flight.
pub struct IoTimeout {
    pub delay: Option<u64>,
    pub timer: Option<u64>,
}

impl IoTimeout {
    pub fn new() -> (r: IoTimeout)
        ensures
            r.delay is None,
            r.timer is None,
    {
        IoTimeout { delay: None, timer: None }
    }
}

/// The readiness direction an operation parks on.
#[derive(Clone, Copy, PartialEq, Eq, Structural, Debug)]
pub enum IoInterest {
    Readable,
    Writable,
}

/// What one non-blocking attempt reported.
pub enum IoAttempt<R> {
    /// The operation completed with this result.
    Done(R),
    /// The kernel would block; readiness must be awaited.
    WouldBlock,
    /// The socket is still connecting; writability must be awaited
    /// and the socket error consulted.
    NotConnected,
    /// Any other error, propagated unchanged.
    Fail(std::io::Error),
}

/// What the retry template does next.
pub enum IoAction<R> {
    /// Return this result to the caller.
    Return(R),
    /// Park the task on the descriptor's readiness, then retry.
    Park(IoInterest),
    /// Propagate this error.
    Error(std::io::Error),
}

/// The uniform retry template's decision: success returns, would-block
/// and still-connecting park on the given readiness, and every other
/// error propagates unchanged.
pub fn retry_decision<R>(a: IoAttempt<R>, interest: IoInterest) -> (r: IoAction<R>)
    ensures
        (a matches IoAttempt::Done(v) ==> r == IoAction::Return(v)),
        (a is WouldBlock ==> r == IoAction::<R>::Park(interest)),
        (a is NotConnected ==> r == IoAction::<R>::Park(interest)),
        (a matches IoAttempt::Fail(e) ==> r == IoAction::<R>::Error(e)),
{
    match a {
        IoAttempt::Done(v) => IoAction::Return(v),
        IoAttempt::WouldBlock => IoAction::Park(interest),
        IoAttempt::NotConnected => IoAction::Park(interest),
        IoAttempt::Fail(e) => IoAction::Error(e),
    }
}

/// Park the current task of processor `pid` until the adapter's
/// descriptor is ready, arming the adapter's per-operation timeout if
/// one is configured; the adapter remembers the timer's token so the
/// next successful operation can cancel it.  Whichever of readiness
/// and timer fires first wakes the task.
pub fn wait_for_io<T, I: Io>(io: &mut I, s: &mut Scheduler<T>, pid: usize) -> (tok: u64)
    requires
        old(s).wf(),
        pid < old(s).procs@.len(),
        old(s).procs@[pid as int].current_coro is Some,
        old(s).next_token < u64::MAX,
    ensures
        final(s).wf(),
        tok == old(s).next_token,
        final(io).saved_timer_spec() == Some(tok),
        final(io).timeout_spec() == old(io).timeout_spec(),
        final(s).procs@[pid as int].current_coro is None,
        ({
            let h = old(s).procs@[pid as int].current_coro->Some_0;
            &&& final(s).blocked(h, crate::coroutine::Loc::Parked)
            &&& final(s).parked@ == old(s).parked@.push(
                crate::scheduler::IoEntry {
                    token: tok,
                    coro: h,
                    deadline: match old(io).timeout_spec() {
                        Some(d) => Some(old(s).now.saturating_add(d)),
                        None => None,
                    },
                },
            )
        }),
        final(s).channels@ == old(s).channels@,
        final(s).now == old(s).now,
{
    let d = io.timeout();
    let tok = s.wait_event(pid, d);
    io.save_timeout(tok);
    tok
}

} // verus!
