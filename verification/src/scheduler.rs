//! The scheduler: the arena of tasks, the processors, the channels and
//! the I/O driver's parked table, with every transition a verified
//! function.
//!
//! The cornerstone invariant is `wf`: every live handle is in exactly
//! one location (a run queue, an inbox `Ready` message, a processor's
//! current slot, a channel wait list or the parked table), its record's
//! `loc` field names that location, and its state matches (`Suspended`
//! in the runnable locations, `Blocked` in the waiting ones).

use vstd::prelude::*;
use crate::coroutine::{Handle, State, Loc, Coroutine, CoroArena, Options, WakeOutcome};
use crate::processor::{Processor, ProcMessage, WeakProcessor};
use crate::sync::mpsc::{ChanState, ChanView};

verus! {

/// An entry in the I/O driver's parked table: a task parked on the
/// readiness of a descriptor (identified by a registration token) or
/// on a timer deadline, or both; whichever fires first wakes it.
pub struct IoEntry {
    pub token: u64,
    pub coro: Handle,
    /// Absolute deadline in the driver's millisecond clock, if a
    /// per-operation timeout or a sleep armed a timer.
    pub deadline: Option<u64>,
}

/// The whole runtime state: processor arena, task arena, channels and
/// the I/O driver's parked table and clock.
pub struct Scheduler<T> {
    pub procs: Vec<Processor>,
    pub coros: CoroArena,
    pub parked: Vec<IoEntry>,
    pub channels: Vec<ChanState<T>>,
    /// Next registration token the I/O driver will hand out.
    pub next_token: u64,
    /// The driver's clock, in milliseconds; never moves backwards.
    pub now: u64,
}

/// Why a task parks itself: the scheduler loop deposits the yielded
/// handle into exactly one wait structure, chosen by this reason.
pub enum ParkReason {
    /// Park on the receive wait list of this channel.
    ChannelRecv(usize),
    /// Park on the send wait list of this channel.
    ChannelSend(usize),
    /// Park in the I/O driver's table, with an optional relative
    /// timeout in milliseconds.
    Io(Option<u64>),
    /// Park in the I/O driver's table on a timer alone, for this many
    /// milliseconds.
    Sleep(u64),
}

/// What one turn of a processor's scheduler loop decided.
#[derive(Clone, Copy, PartialEq, Eq, Structural, Debug)]
pub enum Decision {
    /// A task was made current; control transfers into it, and it must
    /// yield or park before the processor schedules again.
    Run(Handle),
    /// Shutdown is latched: a queued task was destroyed by force-unwind
    /// (destructors only) instead of running user code.
    Unwound(Handle),
    /// A control message was handled or work arrived; scan the local
    /// queue again before stealing.
    Again,
    /// Nothing runnable here or at any steal victim: the processor
    /// would block on its inbox.
    Idle,
    /// Shutdown latched and every local task unwound: the processor's
    /// thread exits.
    Exited,
}

/// Relies on rand::random: an arbitrary machine-word draw from the
/// thread-local generator decides where the steal scan starts; nothing
/// is promised of the result.
pub assume_specification<T>[ rand::random::<T> ]() -> (r: T)
    where
        rand::distr::StandardUniform: rand::distr::Distribution<T>,
;

/// No handle occurs twice in the sequence.
pub open spec fn distinct_handles(s: Seq<Handle>) -> bool {
    forall|i: int, j: int| 0 <= i < j < s.len() ==> s[i] != s[j]
}

impl<T> Scheduler<T> {
    pub open spec fn n_procs(self) -> nat {
        self.procs@.len()
    }

    pub open spec fn live(self, h: Handle) -> bool {
        self.coros.live(h)
    }

    pub open spec fn coro(self, h: Handle) -> Coroutine {
        self.coros.coro(h)
    }

    /// The view of channel `c`'s state.
    pub open spec fn chan(self, c: int) -> ChanView<T> {
        self.channels@[c]@
    }

    /// `h` is a live runnable task recorded at location `l`.
    pub open spec fn runnable(self, h: Handle, l: Loc) -> bool {
        &&& self.live(h)
        &&& self.coro(h).loc == l
        &&& self.coro(h).state == State::Suspended
    }

    /// `h` is a live parked task recorded at location `l`.
    pub open spec fn blocked(self, h: Handle, l: Loc) -> bool {
        &&& self.live(h)
        &&& self.coro(h).loc == l
        &&& self.coro(h).state == State::Blocked
    }

    /// A message sitting in processor `p`'s inbox is well formed.
    pub open spec fn msg_wf(self, p: int, m: ProcMessage) -> bool {
        match m {
            ProcMessage::NewNeighbor(q) => q < self.n_procs(),
            ProcMessage::Ready(h) => self.runnable(h, Loc::Mailed(p as usize)),
            ProcMessage::Shutdown => true,
        }
    }

    /// Processor `p`'s containers hold live handles whose records point
    /// back at them, with no duplicates.
    pub open spec fn proc_wf(self, p: int) -> bool {
        let pr = self.procs@[p];
        &&& pr.id == p
        &&& distinct_handles(pr.run_queue@)
        &&& forall|i: int| 0 <= i < pr.run_queue@.len()
                ==> self.runnable(#[trigger] pr.run_queue@[i], Loc::Queued(p as usize))
        &&& forall|i: int| 0 <= i < pr.inbox@.len() ==> self.msg_wf(p, #[trigger] pr.inbox@[i])
        &&& forall|i: int, j: int|
                0 <= i < j < pr.inbox@.len() && #[trigger] pr.inbox@[i] is Ready
                    && #[trigger] pr.inbox@[j] is Ready
                    ==> pr.inbox@[i]->Ready_0 != pr.inbox@[j]->Ready_0
        &&& (pr.current_coro matches Some(h) ==> self.runnable(h, Loc::Running(p as usize)))
        &&& forall|i: int| 0 <= i < pr.neighbor_stealers@.len()
                ==> #[trigger] pr.neighbor_stealers@[i] < self.n_procs()
    }

    /// Channel `c`'s wait lists hold live parked handles pointing back
    /// at them, and the park conditions hold: at most one receiver (the
    /// single consumer) is ever parked, and only on an empty queue;
    /// only bounded channels ever park senders.  A sender parks only
    /// when the queue is at its bound, but a receive may free a slot
    /// while the woken sender is still in flight, so fullness is not
    /// itself invariant.
    pub open spec fn chan_wf(self, c: int) -> bool {
        let ch = self.chan(c);
        &&& distinct_handles(ch.recv_wait)
        &&& distinct_handles(ch.send_wait)
        &&& forall|i: int| 0 <= i < ch.recv_wait.len()
                ==> self.blocked(#[trigger] ch.recv_wait[i], Loc::WaitingRecv(c as usize))
        &&& forall|i: int| 0 <= i < ch.send_wait.len()
                ==> self.blocked(#[trigger] ch.send_wait[i], Loc::WaitingSend(c as usize))
        &&& ch.recv_wait.len() <= 1
        &&& (ch.recv_wait.len() > 0 ==> ch.queue.len() == 0)
        &&& (match ch.bound {
            Some(b) => ch.queue.len() <= b,
            None => ch.send_wait.len() == 0,
        })
    }

    /// The parked table holds live parked handles, no task twice, and
    /// all tokens are distinct and below the allocation bound.
    pub open spec fn parked_wf(self) -> bool {
        &&& forall|k: int| 0 <= k < self.parked@.len()
                ==> self.blocked(#[trigger] self.parked@[k].coro, Loc::Parked)
        &&& forall|k1: int, k2: int|
                0 <= k1 < k2 < self.parked@.len()
                    ==> (#[trigger] self.parked@[k1].coro) != (#[trigger] self.parked@[k2].coro)
                        && self.parked@[k1].token != self.parked@[k2].token
        &&& forall|k: int| 0 <= k < self.parked@.len()
                ==> (#[trigger] self.parked@[k].token) < self.next_token
    }

    /// The record of a live task names a location that really holds it.
    pub open spec fn loc_ok(self, h: Handle) -> bool {
        match self.coro(h).loc {
            Loc::Queued(p) => p < self.n_procs() && self.procs@[p as int].run_queue@.contains(h),
            Loc::Mailed(p) => p < self.n_procs()
                && self.procs@[p as int].inbox@.contains(ProcMessage::Ready(h)),
            Loc::Running(p) => p < self.n_procs()
                && self.procs@[p as int].current_coro == Some(h),
            Loc::WaitingRecv(c) => c < self.channels@.len()
                && self.chan(c as int).recv_wait.contains(h),
            Loc::WaitingSend(c) => c < self.channels@.len()
                && self.chan(c as int).send_wait.contains(h),
            Loc::Parked => exists|k: int|
                0 <= k < self.parked@.len() && (#[trigger] self.parked@[k]).coro == h,
        }
    }

    /// The one-location invariant, preserved by every transition.
    pub open spec fn wf(self) -> bool {
        &&& forall|p: int| 0 <= p < self.procs@.len() ==> #[trigger] self.proc_wf(p)
        &&& forall|c: int| 0 <= c < self.channels@.len() ==> #[trigger] self.chan_wf(c)
        &&& self.parked_wf()
        &&& forall|h: Handle| #[trigger] self.live(h) ==> self.loc_ok(h)
    }

    /// A live handle whose record does not name processor `p`'s run
    /// queue is not in that queue.
    pub proof fn lemma_not_in_queue(self, h: Handle, p: int)
        requires
            self.wf(),
            0 <= p < self.procs@.len(),
            self.live(h),
            self.coro(h).loc != Loc::Queued(p as usize),
        ensures
            !self.procs@[p].run_queue@.contains(h),
    {
        if self.procs@[p].run_queue@.contains(h) {
            let i = choose|i: int|
                0 <= i < self.procs@[p].run_queue@.len() && self.procs@[p].run_queue@[i] == h;
            assert(self.proc_wf(p));
            assert(self.runnable(self.procs@[p].run_queue@[i], Loc::Queued(p as usize)));
        }
    }

    /// A live handle whose record does not name processor `p`'s inbox
    /// has no `Ready` message there.
    pub proof fn lemma_not_in_inbox(self, h: Handle, p: int)
        requires
            self.wf(),
            0 <= p < self.procs@.len(),
            self.live(h),
            self.coro(h).loc != Loc::Mailed(p as usize),
        ensures
            !self.procs@[p].inbox@.contains(ProcMessage::Ready(h)),
    {
        if self.procs@[p].inbox@.contains(ProcMessage::Ready(h)) {
            let i = choose|i: int|
                0 <= i < self.procs@[p].inbox@.len()
                    && self.procs@[p].inbox@[i] == ProcMessage::Ready(h);
            assert(self.proc_wf(p));
            assert(self.msg_wf(p, self.procs@[p].inbox@[i]));
        }
    }




    /// Build a scheduler with `n` worker processors, each knowing every
    /// sibling as a steal victim, and nothing spawned yet.
    pub fn with_workers(n: usize) -> (s: Scheduler<T>)
        requires
            1 <= n,
        ensures
            s.wf(),
            s.procs@.len() == n,
            s.coros.slots@.len() == 0,
            s.channels@.len() == 0,
            s.parked@.len() == 0,
            forall|p: int| 0 <= p < n
                ==> (#[trigger] s.procs@[p]).run_queue@.len() == 0
                    && s.procs@[p].inbox@.len() == 0
                    && s.procs@[p].current_coro is None
                    && !s.procs@[p].is_exiting,
            // every processor knows every sibling as a steal victim
            forall|p: int, i: int|
                0 <= p < n && 0 <= i < s.procs@[p].neighbor_stealers@.len()
                    ==> (#[trigger] s.procs@[p].neighbor_stealers@[i]) == if i < p {
                        i
                    } else {
                        i + 1
                    },
            forall|p: int| 0 <= p < n
                ==> (#[trigger] s.procs@[p]).neighbor_stealers@.len() == n - 1,
    {
        let mut procs: Vec<Processor> = Vec::new();
        let mut p: usize = 0;
        while p < n
            invariant
                p <= n,
                procs@.len() == p,
                forall|k: int| 0 <= k < p
                    ==> (#[trigger] procs@[k]).id == k
                        && procs@[k].run_queue@.len() == 0
                        && procs@[k].inbox@.len() == 0
                        && procs@[k].current_coro is None
                        && procs@[k].last_state == State::Suspended
                        && !procs@[k].is_exiting,
                forall|k: int, i: int|
                    0 <= k < p && 0 <= i < procs@[k].neighbor_stealers@.len()
                        ==> (#[trigger] procs@[k].neighbor_stealers@[i]) == if i < k {
                            i
                        } else {
                            i + 1
                        },
                forall|k: int| 0 <= k < p
                    ==> (#[trigger] procs@[k]).neighbor_stealers@.len() == n - 1,
            decreases n - p,
        {
            let mut pr = Processor::new(p);
            let mut q: usize = 0;
            while q < n
                invariant
                    q <= n,
                    pr.id == p,
                    pr.run_queue@.len() == 0,
                    pr.inbox@.len() == 0,
                    pr.current_coro is None,
                    pr.last_state == State::Suspended,
                    !pr.is_exiting,
                    pr.neighbor_stealers@.len() == if q <= p {
                        q as int
                    } else {
                        q - 1
                    },
                    forall|i: int| 0 <= i < pr.neighbor_stealers@.len()
                        ==> (#[trigger] pr.neighbor_stealers@[i]) == if i < p {
                            i
                        } else {
                            i + 1
                        },
                decreases n - q,
            {
                if q != p {
                    pr.neighbor_stealers.push(q);
                }
                q = q + 1;
            }
            let ghost procs0 = procs@;
            procs.push(pr);
            proof {
                assert forall|k: int, i: int|
                    0 <= k < p + 1 && 0 <= i < procs@[k].neighbor_stealers@.len() implies (
                #[trigger] procs@[k].neighbor_stealers@[i]) == if i < k {
                    i
                } else {
                    i + 1
                } by {
                    if k == p {
                        assert(procs@[k] == pr);
                    } else {
                        assert(procs@[k] == procs0[k]);
                    }
                }
                assert forall|k: int| 0 <= k < p + 1 implies (
                #[trigger] procs@[k]).neighbor_stealers@.len() == n - 1 by {
                    if k == p {
                        assert(procs@[k] == pr);
                    } else {
                        assert(procs@[k] == procs0[k]);
                    }
                }
            }
            p = p + 1;
        }
        let s = Scheduler {
            procs,
            coros: CoroArena::new(),
            parked: Vec::new(),
            channels: Vec::new(),
            next_token: 0,
            now: 0,
        };
        proof {
            assert forall|pp: int| 0 <= pp < s.procs@.len() implies #[trigger] s.proc_wf(pp) by {
                assert(s.procs@[pp].id == pp);
                assert forall|i: int| 0 <= i < s.procs@[pp].neighbor_stealers@.len() implies (
                #[trigger] s.procs@[pp].neighbor_stealers@[i]) < s.n_procs() by {}
            }
        }
        s
    }

    /// Yield the task currently running on processor `pid` with reason
    /// `r`: `Suspended` re-enqueues it at the worker end of the local
    /// run queue; `Finished` destroys it.  Parking (`Blocked`) goes
    /// through the wait-structure operations instead, which deposit the
    /// handle into exactly one place.
    ///
    /// Channel contents, the parked table and every other processor are
    /// untouched: yielding moves no value.
    pub fn yield_with(&mut self, pid: usize, r: State)
        requires
            old(self).wf(),
            pid < old(self).procs@.len(),
            old(self).procs@[pid as int].current_coro is Some,
            r != State::Blocked,
        ensures
            final(self).wf(),
            final(self).procs@[pid as int].current_coro is None,
            final(self).procs@[pid as int].last_state == r,
            ({
                let h = old(self).procs@[pid as int].current_coro->Some_0;
                &&& (r == State::Suspended ==> final(self).procs@[pid as int].run_queue@
                    == old(self).procs@[pid as int].run_queue@.push(h)
                    && final(self).runnable(h, Loc::Queued(pid)))
                &&& (r == State::Finished ==> !final(self).live(h)
                    && final(self).procs@[pid as int].run_queue@
                        == old(self).procs@[pid as int].run_queue@)
                &&& forall|g: Handle| g != h && g < old(self).coros.slots@.len()
                    ==> #[trigger] final(self).coros.slots@[g as int]
                        == old(self).coros.slots@[g as int]
            }),
            final(self).procs@[pid as int].inbox@ == old(self).procs@[pid as int].inbox@,
            final(self).procs@[pid as int].is_exiting
                == old(self).procs@[pid as int].is_exiting,
            forall|q: int| 0 <= q < old(self).procs@.len() && q != pid
                ==> #[trigger] final(self).procs@[q] == old(self).procs@[q],
            final(self).channels == old(self).channels,
            final(self).parked == old(self).parked,
            final(self).coros.slots@.len() == old(self).coros.slots@.len(),
        {
        let h = self.procs[pid].current_coro.unwrap();
        proof {
            assert(old(self).proc_wf(pid as int));
            assert(old(self).runnable(h, Loc::Running(pid)));
            old(self).lemma_not_in_queue(h, pid as int);
        }
        {
            let pr = &mut self.procs[pid];
            pr.current_coro = None;
            pr.last_state = r;
        }
        match r {
            State::Suspended => {
                self.coros.relocate(h, Loc::Queued(pid), State::Suspended);
                let pr = &mut self.procs[pid];
                pr.run_queue.push(h);
            }
            State::Finished => {
                self.coros.free(h);
            }
            State::Blocked => {
                proof {
                    assert(false);
                }
            }
        }
        proof {
            self.lemma_wf_after_yield(*old(self), pid, r, h);
        }
    }

    /// Re-establishing `wf` after `yield_with`: the only record that
    /// changed is the yielded task's, and its old location (the current
    /// slot of `pid`) holds no other handle.
    proof fn lemma_wf_after_yield(self, pre: Scheduler<T>, pid: usize, r: State, h: Handle)
        requires
            pre.wf(),
            pid < pre.procs@.len(),
            pre.procs@[pid as int].current_coro == Some(h),
            r != State::Blocked,
            // shape of the post state
            self.procs@.len() == pre.procs@.len(),
            forall|q: int| 0 <= q < pre.procs@.len() && q != pid
                ==> #[trigger] self.procs@[q] == pre.procs@[q],
            self.procs@[pid as int].current_coro is None,
            self.procs@[pid as int].inbox@ == pre.procs@[pid as int].inbox@,
            self.procs@[pid as int].neighbor_stealers@
                == pre.procs@[pid as int].neighbor_stealers@,
            self.procs@[pid as int].id == pre.procs@[pid as int].id,
            r == State::Suspended ==> self.coros.slots@ == pre.coros.slots@.update(
                h as int,
                Some(Coroutine { state: State::Suspended, loc: Loc::Queued(pid), ..pre.coro(h) }),
            ) && self.procs@[pid as int].run_queue@
                == pre.procs@[pid as int].run_queue@.push(h),
            r == State::Finished ==> self.coros.slots@ == pre.coros.slots@.update(h as int, None)
                && self.procs@[pid as int].run_queue@ == pre.procs@[pid as int].run_queue@,
            self.channels == pre.channels,
            self.parked == pre.parked,
            self.next_token == pre.next_token,
        ensures
            self.wf(),
    {
        assert(pre.proc_wf(pid as int));
        assert(pre.runnable(h, Loc::Running(pid)));
        pre.lemma_not_in_queue(h, pid as int);
        // every record other than h's is unchanged
        assert forall|g: Handle| g != h && g < pre.coros.slots@.len()
            implies #[trigger] self.coros.slots@[g as int] == pre.coros.slots@[g as int] by {}

        assert forall|p: int| 0 <= p < self.procs@.len() implies #[trigger] self.proc_wf(p) by {
            assert(pre.proc_wf(p));
            let pr = self.procs@[p];
            assert forall|i: int| 0 <= i < pr.run_queue@.len() implies self.runnable(
                #[trigger] pr.run_queue@[i],
                Loc::Queued(p as usize),
            ) by {
                if p == pid && i == pr.run_queue@.len() - 1 && r == State::Suspended {
                    assert(pr.run_queue@[i] == h);
                } else {
                    assert(pre.runnable(pr.run_queue@[i], Loc::Queued(p as usize)));
                    assert(pr.run_queue@[i] != h);
                }
            }
            assert forall|i: int| 0 <= i < pr.inbox@.len() implies self.msg_wf(
                p,
                #[trigger] pr.inbox@[i],
            ) by {
                assert(pre.msg_wf(p, pr.inbox@[i]));
                if pr.inbox@[i] is Ready {
                    assert(pre.runnable(pr.inbox@[i]->Ready_0, Loc::Mailed(p as usize)));
                    assert(pr.inbox@[i]->Ready_0 != h);
                }
            }
            if pr.current_coro is Some {
                let g = pr.current_coro->Some_0;
                assert(pre.runnable(g, Loc::Running(p as usize)));
                assert(g != h);
            }
            if p == pid && r == State::Suspended {
                assert(distinct_handles(pr.run_queue@)) by {
                    assert(!pre.procs@[pid as int].run_queue@.contains(h));
                    assert(forall|i: int|
                        0 <= i < pr.run_queue@.len() - 1
                            ==> pr.run_queue@[i] == pre.procs@[pid as int].run_queue@[i]);
                }
            }
        }
        assert forall|c: int| 0 <= c < self.channels@.len() implies #[trigger] self.chan_wf(c) by {
            assert(pre.chan_wf(c));
            let ch = self.chan(c);
            assert forall|i: int| 0 <= i < ch.recv_wait.len() implies self.blocked(
                #[trigger] ch.recv_wait[i],
                Loc::WaitingRecv(c as usize),
            ) by {
                assert(pre.blocked(ch.recv_wait[i], Loc::WaitingRecv(c as usize)));
                assert(ch.recv_wait[i] != h);
            }
            assert forall|i: int| 0 <= i < ch.send_wait.len() implies self.blocked(
                #[trigger] ch.send_wait[i],
                Loc::WaitingSend(c as usize),
            ) by {
                assert(pre.blocked(ch.send_wait[i], Loc::WaitingSend(c as usize)));
                assert(ch.send_wait[i] != h);
            }
        }
        assert(self.parked_wf()) by {
            assert forall|k: int| 0 <= k < self.parked@.len() implies self.blocked(
                #[trigger] self.parked@[k].coro,
                Loc::Parked,
            ) by {
                assert(pre.blocked(pre.parked@[k].coro, Loc::Parked));
                assert(self.parked@[k].coro != h);
            }
        }
        assert forall|g: Handle| #[trigger] self.live(g) implies self.loc_ok(g) by {
            if g == h {
                assert(r == State::Suspended);
                assert(self.coro(h).loc == Loc::Queued(pid));
                let n = self.procs@[pid as int].run_queue@.len();
                assert(self.procs@[pid as int].run_queue@[n - 1] == h);
                assert(self.procs@[pid as int].run_queue@.contains(h));
            } else {
                assert(pre.live(g));
                assert(pre.loc_ok(g));
                assert(self.coro(g) == pre.coro(g));
                match self.coro(g).loc {
                    Loc::Queued(p) => {
                        if p == pid && r == State::Suspended {
                            let i = choose|i: int|
                                0 <= i < pre.procs@[pid as int].run_queue@.len()
                                    && pre.procs@[pid as int].run_queue@[i] == g;
                            assert(self.procs@[pid as int].run_queue@[i] == g);
                        }
                        assert(self.procs@[p as int].run_queue@.contains(g));
                    }
                    Loc::Mailed(p) => {
                        assert(self.procs@[p as int].inbox@
                            == pre.procs@[p as int].inbox@);
                    }
                    Loc::Running(p) => {
                        assert(pre.procs@[p as int].current_coro == Some(g));
                        assert(pre.proc_wf(p as int));
                        assert(pre.runnable(g, Loc::Running(p as usize)));
                        if p == pid {
                            assert(g == h);
                        }
                        assert(self.procs@[p as int].current_coro == Some(g));
                    }
                    Loc::WaitingRecv(c) => {}
                    Loc::WaitingSend(c) => {}
                    Loc::Parked => {
                        let k = choose|k: int|
                            0 <= k < pre.parked@.len() && (#[trigger] pre.parked@[k]).coro == g;
                        assert((#[trigger] self.parked@[k]).coro == g);
                    }
                }
            }
        }
    }

    /// Create a coroutine on processor `pid` and record this processor
    /// as its preference.  If a task is running on `pid`, that task is
    /// parked behind the new one so the new task runs next while the
    /// spawner stays runnable right after it (run-new-task-next
    /// locality); otherwise the new task is enqueued at the worker end.
    pub fn spawn_opts(&mut self, pid: usize, opts: Options) -> (h: Handle)
        requires
            old(self).wf(),
            pid < old(self).procs@.len(),
        ensures
            final(self).wf(),
            h == old(self).coros.slots@.len(),
            final(self).coros.slots@.len() == old(self).coros.slots@.len() + 1,
            final(self).runnable(h, Loc::Queued(pid)),
            final(self).coro(h).preferred == Some(pid),
            final(self).coro(h).stack_size == opts.stack_size,
            final(self).coro(h).name == opts.name,
            final(self).procs@[pid as int].current_coro is None,
            ({
                let oldq = old(self).procs@[pid as int].run_queue@;
                match old(self).procs@[pid as int].current_coro {
                    Some(cur) => final(self).procs@[pid as int].run_queue@
                        == oldq.push(cur).push(h)
                        && final(self).runnable(cur, Loc::Queued(pid)),
                    None => final(self).procs@[pid as int].run_queue@ == oldq.push(h),
                }
            }),
            forall|q: int| 0 <= q < old(self).procs@.len() && q != pid
                ==> #[trigger] final(self).procs@[q] == old(self).procs@[q],
            final(self).procs@[pid as int].inbox@ == old(self).procs@[pid as int].inbox@,
            final(self).procs@[pid as int].is_exiting
                == old(self).procs@[pid as int].is_exiting,
            final(self).channels == old(self).channels,
            final(self).parked == old(self).parked,
    {
        let ghost pre = *old(self);
        let cur_opt = self.procs[pid].current_coro;
        let c = Coroutine {
            state: State::Suspended,
            loc: Loc::Queued(pid),
            preferred: Some(pid),
            stack_size: opts.stack_size,
            name: opts.name,
            wake: None,
        };
        let h = self.coros.allocate(c);
        match cur_opt {
            Some(cur) => {
                proof {
                    assert(pre.proc_wf(pid as int));
                    assert(pre.runnable(cur, Loc::Running(pid)));
                }
                self.coros.relocate(cur, Loc::Queued(pid), State::Suspended);
                let pr = &mut self.procs[pid];
                pr.current_coro = None;
                pr.run_queue.push(cur);
                pr.run_queue.push(h);
            }
            None => {
                let pr = &mut self.procs[pid];
                pr.run_queue.push(h);
            }
        }
        proof {
            self.lemma_wf_after_spawn(pre, pid, h, cur_opt);
        }
        h
    }

    /// The absolute deadline a park reason arms, if any: the current
    /// clock plus the relative timeout, saturating.
    pub open spec fn park_deadline(self, reason: ParkReason) -> Option<u64> {
        match reason {
            ParkReason::ChannelRecv(_) => None,
            ParkReason::ChannelSend(_) => None,
            ParkReason::Io(d) => match d {
                Some(d) => Some(self.now.saturating_add(d)),
                None => None,
            },
            ParkReason::Sleep(ms) => Some(self.now.saturating_add(ms)),
        }
    }

    /// The parking primitive: transition the task currently running on
    /// processor `pid` to `Blocked` and deposit its handle into exactly
    /// one wait structure, chosen by `reason`.  For the I/O reasons the
    /// driver hands back the registration token and arms a timer at
    /// `now + timeout` if a timeout was given.
    ///
    /// A channel receive park demands an empty queue: checking the
    /// queue and depositing the handle are one transition here, which
    /// is what the wait-list lock buys the concurrent implementation.
    /// A channel send park likewise demands a full queue.
    pub fn take_current_coroutine(&mut self, pid: usize, reason: ParkReason) -> (tok: Option<
        u64,
    >)
        requires
            old(self).wf(),
            pid < old(self).procs@.len(),
            old(self).procs@[pid as int].current_coro is Some,
            old(self).next_token < u64::MAX,
            match reason {
                ParkReason::ChannelRecv(c) => c < old(self).channels@.len()
                    && old(self).chan(c as int).queue.len() == 0
                    && old(self).chan(c as int).recv_wait.len() == 0,
                ParkReason::ChannelSend(c) => c < old(self).channels@.len()
                    && (old(self).chan(c as int).bound matches Some(b)
                        && old(self).chan(c as int).queue.len() == b),
                ParkReason::Io(_) => true,
                ParkReason::Sleep(_) => true,
            },
        ensures
            final(self).wf(),
            final(self).procs@[pid as int].current_coro is None,
            final(self).procs@[pid as int].last_state == State::Blocked,
            final(self).procs@[pid as int].run_queue@ == old(self).procs@[pid as int].run_queue@,
            final(self).procs@[pid as int].inbox@ == old(self).procs@[pid as int].inbox@,
            final(self).procs@[pid as int].is_exiting
                == old(self).procs@[pid as int].is_exiting,
            forall|q: int| 0 <= q < old(self).procs@.len() && q != pid
                ==> #[trigger] final(self).procs@[q] == old(self).procs@[q],
            final(self).coros.slots@.len() == old(self).coros.slots@.len(),
            ({
                let h = old(self).procs@[pid as int].current_coro->Some_0;
                &&& (forall|g: Handle| g != h && g < old(self).coros.slots@.len()
                    ==> #[trigger] final(self).coros.slots@[g as int]
                        == old(self).coros.slots@[g as int])
                &&& match reason {
                    ParkReason::ChannelRecv(c) => tok is None && final(self).blocked(
                        h,
                        Loc::WaitingRecv(c),
                    ) && final(self).channels@.len() == old(self).channels@.len()
                        && final(self).chan(c as int) == (ChanView {
                        recv_wait: old(self).chan(c as int).recv_wait.push(h),
                        ..old(self).chan(c as int)
                    }) && (forall|d: int| 0 <= d < old(self).channels@.len() && d != c
                        ==> #[trigger] final(self).chan(d) == old(self).chan(d))
                        && final(self).parked@ == old(self).parked@
                        && final(self).next_token == old(self).next_token,
                    ParkReason::ChannelSend(c) => tok is None && final(self).blocked(
                        h,
                        Loc::WaitingSend(c),
                    ) && final(self).channels@.len() == old(self).channels@.len()
                        && final(self).chan(c as int) == (ChanView {
                        send_wait: old(self).chan(c as int).send_wait.push(h),
                        ..old(self).chan(c as int)
                    }) && (forall|d: int| 0 <= d < old(self).channels@.len() && d != c
                        ==> #[trigger] final(self).chan(d) == old(self).chan(d))
                        && final(self).parked@ == old(self).parked@
                        && final(self).next_token == old(self).next_token,
                    ParkReason::Io(_) | ParkReason::Sleep(_) => tok == Some(old(self).next_token)
                        && final(self).blocked(h, Loc::Parked) && final(self).parked@ == old(self).parked@.push(
                        IoEntry {
                            token: old(self).next_token,
                            coro: h,
                            deadline: old(self).park_deadline(reason),
                        },
                    ) && final(self).channels@ == old(self).channels@ && final(self).next_token
                        == old(self).next_token + 1,
                }
            }),
            final(self).channels@.len() == old(self).channels@.len(),
            final(self).now == old(self).now,
    {
        let ghost pre = *old(self);
        let h = self.procs[pid].current_coro.unwrap();
        proof {
            assert(pre.proc_wf(pid as int));
            assert(pre.runnable(h, Loc::Running(pid)));
        }
        {
            let pr = &mut self.procs[pid];
            pr.current_coro = None;
            pr.last_state = State::Blocked;
        }
        let tok: Option<u64>;
        match reason {
            ParkReason::ChannelRecv(c) => {
                self.coros.relocate(h, Loc::WaitingRecv(c), State::Blocked);
                let ch = &mut self.channels[c];
                ch.recv_wait.push(h);
                tok = None;
            }
            ParkReason::ChannelSend(c) => {
                self.coros.relocate(h, Loc::WaitingSend(c), State::Blocked);
                let ch = &mut self.channels[c];
                ch.send_wait.push(h);
                tok = None;
            }
            ParkReason::Io(delay) => {
                self.coros.relocate(h, Loc::Parked, State::Blocked);
                let t = self.next_token;
                let deadline = match delay {
                    Some(d) => Some(self.now.saturating_add(d)),
                    None => None,
                };
                self.parked.push(IoEntry { token: t, coro: h, deadline });
                self.next_token = t + 1;
                tok = Some(t);
            }
            ParkReason::Sleep(ms) => {
                self.coros.relocate(h, Loc::Parked, State::Blocked);
                let t = self.next_token;
                let deadline = Some(self.now.saturating_add(ms));
                self.parked.push(IoEntry { token: t, coro: h, deadline });
                self.next_token = t + 1;
                tok = Some(t);
            }
        }
        proof {
            self.lemma_wf_after_park(pre, pid, reason, h);
        }
        tok
    }

    /// Re-establishing `wf` after a park: only the parked task's record
    /// moved, and it was deposited into exactly the structure the
    /// reason names.
    proof fn lemma_wf_after_park(self, pre: Scheduler<T>, pid: usize, reason: ParkReason, h: Handle)
        requires
            pre.wf(),
            pid < pre.procs@.len(),
            pre.procs@[pid as int].current_coro == Some(h),
            pre.next_token < u64::MAX,
            self.procs@.len() == pre.procs@.len(),
            forall|q: int| 0 <= q < pre.procs@.len() && q != pid
                ==> #[trigger] self.procs@[q] == pre.procs@[q],
            self.procs@[pid as int].current_coro is None,
            self.procs@[pid as int].run_queue@ == pre.procs@[pid as int].run_queue@,
            self.procs@[pid as int].inbox@ == pre.procs@[pid as int].inbox@,
            self.procs@[pid as int].neighbor_stealers@
                == pre.procs@[pid as int].neighbor_stealers@,
            self.procs@[pid as int].id == pre.procs@[pid as int].id,
            match reason {
                ParkReason::ChannelRecv(c) => c < pre.channels@.len()
                    && pre.chan(c as int).queue.len() == 0
                    && pre.chan(c as int).recv_wait.len() == 0 && self.coros.slots@
                    == pre.coros.slots@.update(
                    h as int,
                    Some(
                        Coroutine {
                            state: State::Blocked,
                            loc: Loc::WaitingRecv(c),
                            ..pre.coro(h)
                        },
                    ),
                ) && self.channels@.len() == pre.channels@.len() && self.chan(c as int)
                    == (ChanView {
                    recv_wait: pre.chan(c as int).recv_wait.push(h),
                    ..pre.chan(c as int)
                }) && (forall|d: int| 0 <= d < pre.channels@.len() && d != c
                    ==> #[trigger] self.chan(d) == pre.chan(d)) && self.parked@ == pre.parked@
                    && self.next_token == pre.next_token,
                ParkReason::ChannelSend(c) => c < pre.channels@.len()
                    && (pre.chan(c as int).bound matches Some(b)
                        && pre.chan(c as int).queue.len() == b) && self.coros.slots@
                    == pre.coros.slots@.update(
                    h as int,
                    Some(
                        Coroutine {
                            state: State::Blocked,
                            loc: Loc::WaitingSend(c),
                            ..pre.coro(h)
                        },
                    ),
                ) && self.channels@.len() == pre.channels@.len() && self.chan(c as int)
                    == (ChanView {
                    send_wait: pre.chan(c as int).send_wait.push(h),
                    ..pre.chan(c as int)
                }) && (forall|d: int| 0 <= d < pre.channels@.len() && d != c
                    ==> #[trigger] self.chan(d) == pre.chan(d)) && self.parked@ == pre.parked@
                    && self.next_token == pre.next_token,
                ParkReason::Io(_) | ParkReason::Sleep(_) => self.coros.slots@
                    == pre.coros.slots@.update(
                    h as int,
                    Some(Coroutine { state: State::Blocked, loc: Loc::Parked, ..pre.coro(h) }),
                ) && self.channels@ == pre.channels@ && self.parked@ == pre.parked@.push(
                    IoEntry {
                        token: pre.next_token,
                        coro: h,
                        deadline: pre.park_deadline(reason),
                    },
                ) && self.next_token == pre.next_token + 1,
            },
        ensures
            self.wf(),
    {
        assert(pre.proc_wf(pid as int));
        assert(pre.runnable(h, Loc::Running(pid)));
        assert forall|g: Handle| g != h && g < pre.coros.slots@.len()
            implies #[trigger] self.coros.slots@[g as int] == pre.coros.slots@[g as int] by {}

        assert forall|p: int| 0 <= p < self.procs@.len() implies #[trigger] self.proc_wf(p) by {
            assert(pre.proc_wf(p));
            let pr = self.procs@[p];
            assert forall|i: int| 0 <= i < pr.run_queue@.len() implies self.runnable(
                #[trigger] pr.run_queue@[i],
                Loc::Queued(p as usize),
            ) by {
                assert(pre.runnable(pr.run_queue@[i], Loc::Queued(p as usize)));
            }
            assert forall|i: int| 0 <= i < pr.inbox@.len() implies self.msg_wf(
                p,
                #[trigger] pr.inbox@[i],
            ) by {
                assert(pre.msg_wf(p, pr.inbox@[i]));
                if pr.inbox@[i] is Ready {
                    assert(pre.runnable(pr.inbox@[i]->Ready_0, Loc::Mailed(p as usize)));
                }
            }
            if pr.current_coro is Some {
                let g = pr.current_coro->Some_0;
                assert(p != pid);
                assert(pre.runnable(g, Loc::Running(p as usize)));
            }
        }
        assert forall|c: int| 0 <= c < self.channels@.len() implies #[trigger] self.chan_wf(c) by {
            assert(pre.chan_wf(c));
            let ch = self.chan(c);
            let och = pre.chan(c);
            assert forall|i: int| 0 <= i < ch.recv_wait.len() implies self.blocked(
                #[trigger] ch.recv_wait[i],
                Loc::WaitingRecv(c as usize),
            ) by {
                if reason matches ParkReason::ChannelRecv(cc) && c == cc && i == ch.recv_wait.len()
                    - 1 {
                    assert(ch.recv_wait[i] == h);
                } else {
                    assert(pre.blocked(och.recv_wait[i], Loc::WaitingRecv(c as usize)));
                }
            }
            assert forall|i: int| 0 <= i < ch.send_wait.len() implies self.blocked(
                #[trigger] ch.send_wait[i],
                Loc::WaitingSend(c as usize),
            ) by {
                if reason matches ParkReason::ChannelSend(cc) && c == cc && i == ch.send_wait.len()
                    - 1 {
                    assert(ch.send_wait[i] == h);
                } else {
                    assert(pre.blocked(och.send_wait[i], Loc::WaitingSend(c as usize)));
                }
            }
            if reason matches ParkReason::ChannelSend(cc) && c == cc {
                assert forall|i: int, j: int| 0 <= i < j < ch.send_wait.len() implies ch
                    .send_wait[i] != ch.send_wait[j] by {
                    if j == ch.send_wait.len() - 1 {
                        assert(pre.blocked(och.send_wait[i], Loc::WaitingSend(c as usize)));
                    }
                }
            }
        }
        assert(self.parked_wf()) by {
            assert forall|k: int| 0 <= k < self.parked@.len() implies self.blocked(
                #[trigger] self.parked@[k].coro,
                Loc::Parked,
            ) by {
                if k < pre.parked@.len() {
                    assert(pre.blocked(pre.parked@[k].coro, Loc::Parked));
                } else {
                    assert(self.parked@[k].coro == h);
                }
            }
            assert forall|k1: int, k2: int| 0 <= k1 < k2 < self.parked@.len() implies (
            #[trigger] self.parked@[k1].coro) != (#[trigger] self.parked@[k2].coro) && self
                .parked@[k1].token != self.parked@[k2].token by {
                if k2 == self.parked@.len() - 1 && k2 == pre.parked@.len() {
                    assert(pre.blocked(pre.parked@[k1].coro, Loc::Parked));
                }
            }
        }
        assert forall|g: Handle| #[trigger] self.live(g) implies self.loc_ok(g) by {
            if g == h {
                match reason {
                    ParkReason::ChannelRecv(c) => {
                        let wl = self.chan(c as int).recv_wait;
                        assert(wl[wl.len() - 1] == h);
                        assert(wl.contains(h));
                    }
                    ParkReason::ChannelSend(c) => {
                        let wl = self.chan(c as int).send_wait;
                        assert(wl[wl.len() - 1] == h);
                        assert(wl.contains(h));
                    }
                    ParkReason::Io(_) | ParkReason::Sleep(_) => {
                        assert((#[trigger] self.parked@[self.parked@.len() - 1]).coro == h);
                    }
                }
            } else {
                assert(pre.live(g));
                assert(pre.loc_ok(g));
                assert(self.coro(g) == pre.coro(g));
                match self.coro(g).loc {
                    Loc::Queued(p) => {}
                    Loc::Mailed(p) => {}
                    Loc::Running(p) => {
                        assert(pre.procs@[p as int].current_coro == Some(g));
                        if p == pid {
                            assert(g == h);
                        }
                        assert(self.procs@[p as int].current_coro == Some(g));
                    }
                    Loc::WaitingRecv(c) => {
                        let owl = pre.chan(c as int).recv_wait;
                        let i = choose|i: int| 0 <= i < owl.len() && owl[i] == g;
                        assert(self.chan(c as int).recv_wait[i] == g);
                        assert(self.chan(c as int).recv_wait.contains(g));
                    }
                    Loc::WaitingSend(c) => {
                        let owl = pre.chan(c as int).send_wait;
                        let i = choose|i: int| 0 <= i < owl.len() && owl[i] == g;
                        assert(self.chan(c as int).send_wait[i] == g);
                        assert(self.chan(c as int).send_wait.contains(g));
                    }
                    Loc::Parked => {
                        let k = choose|k: int|
                            0 <= k < pre.parked@.len() && (#[trigger] pre.parked@[k]).coro == g;
                        assert((#[trigger] self.parked@[k]).coro == g);
                    }
                }
            }
        }
    }

    /// The processor a wake delivers to: the task's preferred processor
    /// if that weak reference still upgrades, else processor 0.
    pub open spec fn wake_target(self, h: Handle) -> usize {
        match self.coro(h).preferred {
            Some(p) => if p < self.n_procs() {
                p
            } else {
                0
            },
            None => 0,
        }
    }

    /// Unpark the oldest receiver waiting on channel `c`, if any:
    /// remove it from the wait list and deliver its handle as a `Ready`
    /// message to its preferred processor's inbox (wake-ups are FIFO
    /// and at most one waiter is woken).
    pub fn wake_recv_waiter(&mut self, c: usize) -> (w: Option<Handle>)
        requires
            old(self).wf(),
            c < old(self).channels@.len(),
            old(self).n_procs() >= 1,
        ensures
            final(self).wf(),
            old(self).chan(c as int).recv_wait.len() == 0 ==> w is None && *final(self) == *old(self),
            old(self).chan(c as int).recv_wait.len() > 0 ==> {
                let h = old(self).chan(c as int).recv_wait[0];
                let t = old(self).wake_target(h);
                &&& w == Some(h)
                &&& final(self).runnable(h, Loc::Mailed(t))
                &&& final(self).chan(c as int) == (ChanView {
                    recv_wait: old(self).chan(c as int).recv_wait.drop_first(),
                    ..old(self).chan(c as int)
                })
                &&& (forall|d: int| 0 <= d < old(self).channels@.len() && d != c
                    ==> #[trigger] final(self).chan(d) == old(self).chan(d))
                &&& final(self).procs@[t as int].inbox@ == old(self).procs@[t as int].inbox@.push(
                    ProcMessage::Ready(h),
                )
                &&& (forall|q: int| 0 <= q < old(self).procs@.len() && q != t
                    ==> #[trigger] final(self).procs@[q] == old(self).procs@[q])
                &&& final(self).procs@[t as int].run_queue@ == old(self).procs@[t as int].run_queue@
                &&& final(self).procs@[t as int].current_coro == old(self).procs@[t as int].current_coro
                &&& final(self).procs@[t as int].is_exiting == old(self).procs@[t as int].is_exiting
                &&& (forall|g: Handle| g != h && g < old(self).coros.slots@.len()
                    ==> #[trigger] final(self).coros.slots@[g as int]
                        == old(self).coros.slots@[g as int])
            },
            final(self).channels@.len() == old(self).channels@.len(),
            final(self).parked@ == old(self).parked@,
            final(self).coros.slots@.len() == old(self).coros.slots@.len(),
            final(self).now == old(self).now,
            final(self).next_token == old(self).next_token,
    {
        let ghost pre = *old(self);
        if self.channels[c].recv_wait.len() == 0 {
            return None;
        }
        let h = self.channels[c].recv_wait.remove(0);
        proof {
            assert(pre.chan_wf(c as int));
            assert(pre.blocked(h, Loc::WaitingRecv(c)));
        }
        let t = self.delivery_target_mid(h);
        self.coros.relocate(h, Loc::Mailed(t), State::Suspended);
        {
            let pr = &mut self.procs[t];
            pr.inbox.push(ProcMessage::Ready(h));
        }
        proof {
            self.lemma_wf_after_wake(pre, h, Loc::WaitingRecv(c), t);
        }
        Some(h)
    }

    /// Unpark the oldest sender waiting on channel `c`, if any, in the
    /// same way.
    pub fn wake_send_waiter(&mut self, c: usize) -> (w: Option<Handle>)
        requires
            old(self).wf(),
            c < old(self).channels@.len(),
            old(self).n_procs() >= 1,
        ensures
            final(self).wf(),
            old(self).chan(c as int).send_wait.len() == 0 ==> w is None && *final(self) == *old(self),
            old(self).chan(c as int).send_wait.len() > 0 ==> {
                let h = old(self).chan(c as int).send_wait[0];
                let t = old(self).wake_target(h);
                &&& w == Some(h)
                &&& final(self).runnable(h, Loc::Mailed(t))
                &&& final(self).chan(c as int) == (ChanView {
                    send_wait: old(self).chan(c as int).send_wait.drop_first(),
                    ..old(self).chan(c as int)
                })
                &&& (forall|d: int| 0 <= d < old(self).channels@.len() && d != c
                    ==> #[trigger] final(self).chan(d) == old(self).chan(d))
                &&& final(self).procs@[t as int].inbox@ == old(self).procs@[t as int].inbox@.push(
                    ProcMessage::Ready(h),
                )
                &&& (forall|q: int| 0 <= q < old(self).procs@.len() && q != t
                    ==> #[trigger] final(self).procs@[q] == old(self).procs@[q])
                &&& final(self).procs@[t as int].run_queue@ == old(self).procs@[t as int].run_queue@
                &&& final(self).procs@[t as int].current_coro == old(self).procs@[t as int].current_coro
                &&& final(self).procs@[t as int].is_exiting == old(self).procs@[t as int].is_exiting
                &&& (forall|g: Handle| g != h && g < old(self).coros.slots@.len()
                    ==> #[trigger] final(self).coros.slots@[g as int]
                        == old(self).coros.slots@[g as int])
            },
            final(self).channels@.len() == old(self).channels@.len(),
            final(self).parked@ == old(self).parked@,
            final(self).coros.slots@.len() == old(self).coros.slots@.len(),
            final(self).now == old(self).now,
            final(self).next_token == old(self).next_token,
    {
        let ghost pre = *old(self);
        if self.channels[c].send_wait.len() == 0 {
            return None;
        }
        let h = self.channels[c].send_wait.remove(0);
        proof {
            assert(pre.chan_wf(c as int));
            assert(pre.blocked(h, Loc::WaitingSend(c)));
        }
        let t = self.delivery_target_mid(h);
        self.coros.relocate(h, Loc::Mailed(t), State::Suspended);
        {
            let pr = &mut self.procs[t];
            pr.inbox.push(ProcMessage::Ready(h));
        }
        proof {
            self.lemma_wf_after_wake(pre, h, Loc::WaitingSend(c), t);
        }
        Some(h)
    }

    /// The delivery target of a wake, read in the middle of one, where
    /// the handle is already out of its wait structure and `wf` does
    /// not hold of the whole state; only liveness of `h` is needed.
    /// The task's preferred-processor weak reference is upgraded
    /// against the processor arena; a stale or absent preference falls
    /// back to processor 0.
    fn delivery_target_mid(&self, h: Handle) -> (t: usize)
        requires
            self.coros.live(h),
            self.procs@.len() >= 1,
        ensures
            t == self.wake_target(h),
            t < self.procs@.len(),
    {
        let pref = match &self.coros.slots[h] {
            Some(co) => co.preferred,
            None => None,
        };
        match pref {
            Some(p) => {
                let weak = WeakProcessor { id: p };
                match weak.upgrade(self.procs.len()) {
                    Some(t) => t,
                    None => 0,
                }
            }
            None => 0,
        }
    }

    /// Re-establishing `wf` after a wake: the woken task's record moved
    /// from its wait structure to the target inbox; nothing else moved.
    proof fn lemma_wf_after_wake(self, pre: Scheduler<T>, h: Handle, src: Loc, target: usize)
        requires
            pre.wf(),
            pre.blocked(h, src),
            target < pre.procs@.len(),
            self.procs@.len() == pre.procs@.len(),
            self.coros.slots@ == pre.coros.slots@.update(h as int, Some(self.coro(h))),
            self.live(h),
            self.coro(h).state == State::Suspended,
            self.coro(h).loc == Loc::Mailed(target),
            forall|q: int| 0 <= q < pre.procs@.len() && q != target
                ==> #[trigger] self.procs@[q] == pre.procs@[q],
            self.procs@[target as int].inbox@ == pre.procs@[target as int].inbox@.push(
                ProcMessage::Ready(h),
            ),
            self.procs@[target as int].run_queue@ == pre.procs@[target as int].run_queue@,
            self.procs@[target as int].current_coro == pre.procs@[target as int].current_coro,
            self.procs@[target as int].neighbor_stealers@
                == pre.procs@[target as int].neighbor_stealers@,
            self.procs@[target as int].id == pre.procs@[target as int].id,
            self.channels@.len() == pre.channels@.len(),
            self.next_token == pre.next_token,
            match src {
                Loc::WaitingRecv(c) => c < pre.channels@.len() && pre.chan(c as int).recv_wait.len()
                    > 0 && pre.chan(c as int).recv_wait[0] == h && self.chan(c as int)
                    == (ChanView {
                    recv_wait: pre.chan(c as int).recv_wait.drop_first(),
                    ..pre.chan(c as int)
                }) && (forall|d: int| 0 <= d < pre.channels@.len() && d != c
                    ==> #[trigger] self.chan(d) == pre.chan(d)) && self.parked@ == pre.parked@,
                Loc::WaitingSend(c) => c < pre.channels@.len() && pre.chan(c as int).send_wait.len()
                    > 0 && pre.chan(c as int).send_wait[0] == h && self.chan(c as int)
                    == (ChanView {
                    send_wait: pre.chan(c as int).send_wait.drop_first(),
                    ..pre.chan(c as int)
                }) && (forall|d: int| 0 <= d < pre.channels@.len() && d != c
                    ==> #[trigger] self.chan(d) == pre.chan(d)) && self.parked@ == pre.parked@,
                Loc::Parked => exists|k: int|
                    0 <= k < pre.parked@.len() && pre.parked@[k].coro == h && self.parked@
                        == pre.parked@.remove(k) && (forall|d: int|
                        0 <= d < pre.channels@.len()
                            ==> #[trigger] self.chan(d) == pre.chan(d)),
                _ => false,
            },
        ensures
            self.wf(),
    {
        assert(pre.channels.len() == pre.channels@.len());
        pre.lemma_not_in_inbox(h, target as int);
        assert forall|g: Handle| g != h && g < pre.coros.slots@.len()
            implies #[trigger] self.coros.slots@[g as int] == pre.coros.slots@[g as int] by {}

        assert forall|p: int| 0 <= p < self.procs@.len() implies #[trigger] self.proc_wf(p) by {
            assert(pre.proc_wf(p));
            let pr = self.procs@[p];
            assert forall|i: int| 0 <= i < pr.run_queue@.len() implies self.runnable(
                #[trigger] pr.run_queue@[i],
                Loc::Queued(p as usize),
            ) by {
                assert(pre.runnable(pr.run_queue@[i], Loc::Queued(p as usize)));
            }
            assert forall|i: int| 0 <= i < pr.inbox@.len() implies self.msg_wf(
                p,
                #[trigger] pr.inbox@[i],
            ) by {
                if p == target && i == pr.inbox@.len() - 1 {
                    assert(pr.inbox@[i] == ProcMessage::Ready(h));
                    assert(self.runnable(h, Loc::Mailed(target)));
                } else {
                    assert(pre.msg_wf(p, pr.inbox@[i]));
                    if pr.inbox@[i] is Ready {
                        assert(pre.runnable(pr.inbox@[i]->Ready_0, Loc::Mailed(p as usize)));
                    }
                }
            }
            assert forall|i: int, j: int|
                0 <= i < j < pr.inbox@.len() && #[trigger] pr.inbox@[i] is Ready
                    && #[trigger] pr.inbox@[j] is Ready implies pr.inbox@[i]->Ready_0 != pr
                .inbox@[j]->Ready_0 by {
                if p == target && j == pr.inbox@.len() - 1 {
                    assert(pre.msg_wf(p, pr.inbox@[i]));
                    assert(pre.runnable(pr.inbox@[i]->Ready_0, Loc::Mailed(p as usize)));
                    assert(pr.inbox@[i]->Ready_0 != h);
                }
            }
            if pr.current_coro is Some {
                let g = pr.current_coro->Some_0;
                assert(pre.runnable(g, Loc::Running(p as usize)));
            }
        }
        assert forall|c: int| 0 <= c < self.channels@.len() implies #[trigger] self.chan_wf(c) by {
            assert(pre.chan_wf(c));
            let ch = self.chan(c);
            let och = pre.chan(c);
            assert forall|i: int| 0 <= i < ch.recv_wait.len() implies self.blocked(
                #[trigger] ch.recv_wait[i],
                Loc::WaitingRecv(c as usize),
            ) by {
                if src matches Loc::WaitingRecv(cc) && c == cc {
                    assert(och.recv_wait[i + 1] == ch.recv_wait[i]);
                    assert(pre.blocked(och.recv_wait[i + 1], Loc::WaitingRecv(c as usize)));
                    assert(och.recv_wait[i + 1] != h);
                } else {
                    assert(pre.blocked(och.recv_wait[i], Loc::WaitingRecv(c as usize)));
                    if och.recv_wait[i] == h {
                        assert(src == Loc::WaitingRecv(c as usize));
                        assert(false);
                    }
                }
            }
            assert forall|i: int| 0 <= i < ch.send_wait.len() implies self.blocked(
                #[trigger] ch.send_wait[i],
                Loc::WaitingSend(c as usize),
            ) by {
                if src matches Loc::WaitingSend(cc) && c == cc {
                    assert(och.send_wait[i + 1] == ch.send_wait[i]);
                    assert(pre.blocked(och.send_wait[i + 1], Loc::WaitingSend(c as usize)));
                    assert(och.send_wait[i + 1] != h);
                } else {
                    assert(pre.blocked(och.send_wait[i], Loc::WaitingSend(c as usize)));
                    if och.send_wait[i] == h {
                        assert(src == Loc::WaitingSend(c as usize));
                        assert(false);
                    }
                }
            }
        }
        assert(self.parked_wf()) by {
            if src is Parked {
                let k = choose|k: int|
                    0 <= k < pre.parked@.len() && pre.parked@[k].coro == h && self.parked@
                        == pre.parked@.remove(k);
                assert forall|j: int| 0 <= j < self.parked@.len() implies self.blocked(
                    (#[trigger] self.parked@[j]).coro,
                    Loc::Parked,
                ) && self.parked@[j].token < self.next_token by {
                    if j < k {
                        assert(self.parked@[j] == pre.parked@[j]);
                        assert(pre.blocked(pre.parked@[j].coro, Loc::Parked));
                        assert(self.parked@[j].coro != h);
                    } else {
                        assert(self.parked@[j] == pre.parked@[j + 1]);
                        assert(pre.blocked(pre.parked@[j + 1].coro, Loc::Parked));
                    }
                }
                assert forall|k1: int, k2: int| 0 <= k1 < k2 < self.parked@.len() implies (
                #[trigger] self.parked@[k1].coro) != (#[trigger] self.parked@[k2].coro) && self
                    .parked@[k1].token != self.parked@[k2].token by {
                    let o1: int = if k1 < k { k1 } else { k1 + 1 };
                    let o2: int = if k2 < k { k2 } else { k2 + 1 };
                    assert(self.parked@[k1] == pre.parked@[o1]);
                    assert(self.parked@[k2] == pre.parked@[o2]);
                }
            } else {
                assert(self.parked@ == pre.parked@);
                assert forall|j: int| 0 <= j < self.parked@.len() implies self.blocked(
                    (#[trigger] self.parked@[j]).coro,
                    Loc::Parked,
                ) by {
                    assert(pre.blocked(pre.parked@[j].coro, Loc::Parked));
                    assert(pre.parked@[j].coro != h);
                }
            }
        }
        assert forall|g: Handle| #[trigger] self.live(g) implies self.loc_ok(g) by {
            if g == h {
                let ib = self.procs@[target as int].inbox@;
                assert(ib[ib.len() - 1] == ProcMessage::Ready(h));
                assert(ib.contains(ProcMessage::Ready(h)));
            } else {
                assert(pre.live(g));
                assert(pre.loc_ok(g));
                assert(self.coro(g) == pre.coro(g));
                match self.coro(g).loc {
                    Loc::Queued(p) => {}
                    Loc::Mailed(p) => {
                        let ib = pre.procs@[p as int].inbox@;
                        let i = choose|i: int|
                            0 <= i < ib.len() && ib[i] == ProcMessage::Ready(g);
                        assert(self.procs@[p as int].inbox@[i] == ProcMessage::Ready(g));
                        assert(self.procs@[p as int].inbox@.contains(ProcMessage::Ready(g)));
                    }
                    Loc::Running(p) => {
                        assert(pre.procs@[p as int].current_coro == Some(g));
                        assert(self.procs@[p as int].current_coro == Some(g));
                    }
                    Loc::WaitingRecv(c) => {
                        let owl = pre.chan(c as int).recv_wait;
                        let i = choose|i: int| 0 <= i < owl.len() && owl[i] == g;
                        if src matches Loc::WaitingRecv(cc) && c == cc {
                            assert(pre.chan_wf(c as int));
                            assert(i != 0);
                            assert(self.chan(c as int).recv_wait[i - 1] == g);
                        } else {
                            assert(self.chan(c as int).recv_wait[i] == g);
                        }
                        assert(self.chan(c as int).recv_wait.contains(g));
                    }
                    Loc::WaitingSend(c) => {
                        let owl = pre.chan(c as int).send_wait;
                        let i = choose|i: int| 0 <= i < owl.len() && owl[i] == g;
                        if src matches Loc::WaitingSend(cc) && c == cc {
                            assert(pre.chan_wf(c as int));
                            assert(i != 0);
                            assert(self.chan(c as int).send_wait[i - 1] == g);
                        } else {
                            assert(self.chan(c as int).send_wait[i] == g);
                        }
                        assert(self.chan(c as int).send_wait.contains(g));
                    }
                    Loc::Parked => {
                        let j = choose|j: int|
                            0 <= j < pre.parked@.len() && (#[trigger] pre.parked@[j]).coro == g;
                        if src is Parked {
                            let k = choose|k: int|
                                0 <= k < pre.parked@.len() && pre.parked@[k].coro == h
                                    && self.parked@ == pre.parked@.remove(k);
                            if j < k {
                                assert((#[trigger] self.parked@[j]).coro == g);
                            } else {
                                assert(j != k);
                                assert((#[trigger] self.parked@[j - 1]).coro == g);
                            }
                        } else {
                            assert((#[trigger] self.parked@[j]).coro == g);
                        }
                    }
                }
            }
        }
    }

    /// Wake the task parked under registration `token`, if any: remove
    /// its entry from the parked table, record the outcome (`TimedOut`
    /// if the timer fired first, readiness otherwise) and deliver the
    /// handle to its preferred processor's inbox.
    pub fn wake_token(&mut self, token: u64, timed_out: bool) -> (found: bool)
        requires
            old(self).wf(),
            old(self).n_procs() >= 1,
        ensures
            final(self).wf(),
            found <==> exists|k: int|
                0 <= k < old(self).parked@.len() && (#[trigger] old(self).parked@[k]).token
                    == token,
            !found ==> *final(self) == *old(self),
            found ==> exists|k: int|
                {
                    &&& 0 <= k < old(self).parked@.len()
                    &&& (#[trigger] old(self).parked@[k]).token == token
                    &&& {
                        let h = old(self).parked@[k].coro;
                        let t = old(self).wake_target(h);
                        &&& final(self).parked@ == old(self).parked@.remove(k)
                        &&& final(self).runnable(h, Loc::Mailed(t))
                        &&& final(self).coro(h).wake == Some(
                            if timed_out {
                                WakeOutcome::TimedOut
                            } else {
                                WakeOutcome::Readiness
                            },
                        )
                        &&& final(self).procs@[t as int].inbox@ == old(self).procs@[t as int].inbox@.push(ProcMessage::Ready(h))
                        &&& (forall|q: int| 0 <= q < old(self).procs@.len() && q != t
                            ==> #[trigger] final(self).procs@[q] == old(self).procs@[q])
                        &&& (forall|g: Handle| g != h && g < old(self).coros.slots@.len()
                            ==> #[trigger] final(self).coros.slots@[g as int]
                                == old(self).coros.slots@[g as int])
                    }
                },
            final(self).channels@ == old(self).channels@,
            final(self).now == old(self).now,
            final(self).next_token == old(self).next_token,
            final(self).coros.slots@.len() == old(self).coros.slots@.len(),
            final(self).procs@.len() == old(self).procs@.len(),
    {
        let ghost pre = *old(self);
        let n = self.parked.len();
        let mut idx: usize = n;
        let mut k: usize = 0;
        while k < n
            invariant
                n == self.parked@.len(),
                k <= n,
                idx == n || (idx < k && self.parked@[idx as int].token == token),
                idx == n ==> forall|j: int| 0 <= j < k
                    ==> (#[trigger] self.parked@[j]).token != token,
            decreases n - k,
        {
            if self.parked[k].token == token && idx == n {
                idx = k;
            }
            k = k + 1;
        }
        if idx == n {
            return false;
        }
        let entry = self.parked.remove(idx);
        let h = entry.coro;
        proof {
            assert(pre.blocked(h, Loc::Parked));
        }
        let t = self.delivery_target_mid(h);
        let outcome = if timed_out {
            WakeOutcome::TimedOut
        } else {
            WakeOutcome::Readiness
        };
        self.coros.set_wake(h, Some(outcome));
        self.coros.relocate(h, Loc::Mailed(t), State::Suspended);
        {
            let pr = &mut self.procs[t];
            pr.inbox.push(ProcMessage::Ready(h));
        }
        proof {
            assert(self.coros.slots@ =~= pre.coros.slots@.update(h as int, Some(self.coro(h))));
            assert forall|d: int| 0 <= d < pre.channels@.len() implies #[trigger] self.chan(d)
                == pre.chan(d) by {}
            self.lemma_wf_after_wake(pre, h, Loc::Parked, t);
            assert((#[trigger] pre.parked@[idx as int]).token == token);
        }
        true
    }

    /// The registration token of some parked entry whose timer deadline
    /// has passed at time `now`, if any.
    pub fn find_expired(&self, now: u64) -> (r: Option<u64>)
        requires
            self.wf(),
        ensures
            match r {
                Some(tok) => exists|k: int|
                    0 <= k < self.parked@.len() && (#[trigger] self.parked@[k]).token == tok
                        && (self.parked@[k].deadline matches Some(d) && d <= now),
                None => forall|k: int| 0 <= k < self.parked@.len()
                    ==> ((#[trigger] self.parked@[k]).deadline matches Some(d) ==> d > now),
            },
    {
        let n = self.parked.len();
        let mut k: usize = 0;
        while k < n
            invariant
                n == self.parked@.len(),
                k <= n,
                forall|j: int| 0 <= j < k
                    ==> ((#[trigger] self.parked@[j]).deadline matches Some(d) ==> d > now),
            decreases n - k,
        {
            match self.parked[k].deadline {
                Some(d) => {
                    if d <= now {
                        return Some(self.parked[k].token);
                    }
                }
                None => {}
            }
            k = k + 1;
        }
        None
    }

    /// Advance the I/O driver's clock; time never moves backwards.
    pub fn advance_clock(&mut self, now: u64)
        requires
            old(self).wf(),
            now >= old(self).now,
        ensures
            final(self).wf(),
            final(self).now == now,
            *final(self) == (Scheduler { now, ..*old(self) }),
    {
        self.now = now;
        proof {
            let pre = *old(self);
            assert forall|p: int| 0 <= p < self.procs@.len() implies #[trigger] self.proc_wf(p) by {
                assert(pre.proc_wf(p));
            }
            assert forall|c: int| 0 <= c < self.channels@.len()
                implies #[trigger] self.chan_wf(c) by {
                assert(pre.chan_wf(c));
            }
            assert forall|g: Handle| #[trigger] self.live(g) implies self.loc_ok(g) by {
                assert(pre.live(g));
                assert(pre.loc_ok(g));
            }
        }
    }

    /// Consume the wake outcome the I/O driver stored for the task now
    /// running on processor `pid` (set when `wait_event` or a sleep was
    /// answered; `None` if the task was never woken by the driver).
    pub fn take_wake_outcome(&mut self, pid: usize) -> (r: Option<WakeOutcome>)
        requires
            old(self).wf(),
            pid < old(self).procs@.len(),
            old(self).procs@[pid as int].current_coro is Some,
        ensures
            final(self).wf(),
            ({
                let h = old(self).procs@[pid as int].current_coro->Some_0;
                &&& r == old(self).coro(h).wake
                &&& final(self).coro(h) == (Coroutine { wake: None, ..old(self).coro(h) })
                &&& final(self).coros.slots@ == old(self).coros.slots@.update(
                    h as int,
                    Some(final(self).coro(h)),
                )
            }),
            final(self).procs@ == old(self).procs@,
            final(self).channels@ == old(self).channels@,
            final(self).parked@ == old(self).parked@,
            final(self).now == old(self).now,
            final(self).next_token == old(self).next_token,
    {
        let ghost pre = *old(self);
        let h = self.procs[pid].current_coro.unwrap();
        proof {
            assert(pre.proc_wf(pid as int));
            assert(pre.runnable(h, Loc::Running(pid)));
        }
        let r = match &self.coros.slots[h] {
            Some(co) => co.wake,
            None => None,
        };
        self.coros.set_wake(h, None);
        proof {
            assert forall|p: int| 0 <= p < self.procs@.len() implies #[trigger] self.proc_wf(p) by {
                assert(pre.proc_wf(p));
                let pr = self.procs@[p];
                assert forall|i: int| 0 <= i < pr.run_queue@.len() implies self.runnable(
                    #[trigger] pr.run_queue@[i],
                    Loc::Queued(p as usize),
                ) by {
                    assert(pre.runnable(pr.run_queue@[i], Loc::Queued(p as usize)));
                }
                assert forall|i: int| 0 <= i < pr.inbox@.len() implies self.msg_wf(
                    p,
                    #[trigger] pr.inbox@[i],
                ) by {
                    assert(pre.msg_wf(p, pr.inbox@[i]));
                    if pr.inbox@[i] is Ready {
                        assert(pre.runnable(pr.inbox@[i]->Ready_0, Loc::Mailed(p as usize)));
                    }
                }
                if pr.current_coro is Some {
                    assert(pre.runnable(pr.current_coro->Some_0, Loc::Running(p as usize)));
                }
            }
            assert forall|c: int| 0 <= c < self.channels@.len()
                implies #[trigger] self.chan_wf(c) by {
                assert(pre.chan_wf(c));
                let ch = self.chan(c);
                assert forall|i: int| 0 <= i < ch.recv_wait.len() implies self.blocked(
                    #[trigger] ch.recv_wait[i],
                    Loc::WaitingRecv(c as usize),
                ) by {
                    assert(pre.blocked(ch.recv_wait[i], Loc::WaitingRecv(c as usize)));
                }
                assert forall|i: int| 0 <= i < ch.send_wait.len() implies self.blocked(
                    #[trigger] ch.send_wait[i],
                    Loc::WaitingSend(c as usize),
                ) by {
                    assert(pre.blocked(ch.send_wait[i], Loc::WaitingSend(c as usize)));
                }
            }
            assert(self.parked_wf()) by {
                assert forall|j: int| 0 <= j < self.parked@.len() implies self.blocked(
                    (#[trigger] self.parked@[j]).coro,
                    Loc::Parked,
                ) by {
                    assert(pre.blocked(pre.parked@[j].coro, Loc::Parked));
                }
            }
            assert forall|g: Handle| #[trigger] self.live(g) implies self.loc_ok(g) by {
                assert(pre.live(g));
                assert(pre.loc_ok(g));
                assert(self.coro(g).loc == pre.coro(g).loc);
            }
        }
        r
    }

    /// Create a channel with the given capacity (`None` for unbounded),
    /// one sender, a live receiver and empty queue and wait lists.
    pub fn add_channel(&mut self, bound: Option<usize>) -> (c: usize)
        requires
            old(self).wf(),
        ensures
            final(self).wf(),
            c == old(self).channels@.len(),
            final(self).channels@.len() == old(self).channels@.len() + 1,
            final(self).chan(c as int) == (ChanView::<T> {
                queue: Seq::empty(),
                bound,
                senders: 1,
                receiver_alive: true,
                recv_wait: Seq::empty(),
                send_wait: Seq::empty(),
            }),
            forall|d: int| 0 <= d < old(self).channels@.len()
                ==> #[trigger] final(self).chan(d) == old(self).chan(d),
            final(self).procs@ == old(self).procs@,
            final(self).coros.slots@ == old(self).coros.slots@,
            final(self).parked@ == old(self).parked@,
            final(self).now == old(self).now,
            final(self).next_token == old(self).next_token,
    {
        let ghost pre = *old(self);
        let c = self.channels.len();
        self.channels.push(
            ChanState {
                queue: Vec::new(),
                bound,
                senders: 1,
                receiver_alive: true,
                recv_wait: Vec::new(),
                send_wait: Vec::new(),
            },
        );
        proof {
            self.lemma_wf_after_chan_change(pre, c as int);
        }
        c
    }

    /// Append a value at the back of channel `c`'s queue.  Any parked
    /// receiver must have been woken first, and a bounded queue must
    /// have room.
    pub fn push_value(&mut self, c: usize, t: T)
        requires
            old(self).wf(),
            c < old(self).channels@.len(),
            old(self).chan(c as int).recv_wait.len() == 0,
            old(self).chan(c as int).bound matches Some(b)
                ==> old(self).chan(c as int).queue.len() < b,
        ensures
            final(self).wf(),
            final(self).chan(c as int) == (ChanView {
                queue: old(self).chan(c as int).queue.push(t),
                ..old(self).chan(c as int)
            }),
            final(self).channels@.len() == old(self).channels@.len(),
            forall|d: int| 0 <= d < old(self).channels@.len() && d != c
                ==> #[trigger] final(self).chan(d) == old(self).chan(d),
            final(self).procs@ == old(self).procs@,
            final(self).coros.slots@ == old(self).coros.slots@,
            final(self).parked@ == old(self).parked@,
            final(self).now == old(self).now,
            final(self).next_token == old(self).next_token,
    {
        let ghost pre = *old(self);
        let ch = &mut self.channels[c];
        ch.queue.push(t);
        proof {
            assert(pre.chan_wf(c as int));
            self.lemma_wf_after_chan_change(pre, c as int);
        }
    }

    /// Take the oldest value out of channel `c`'s queue.
    pub fn pop_value(&mut self, c: usize) -> (v: T)
        requires
            old(self).wf(),
            c < old(self).channels@.len(),
            old(self).chan(c as int).queue.len() > 0,
        ensures
            final(self).wf(),
            v == old(self).chan(c as int).queue[0],
            final(self).chan(c as int) == (ChanView {
                queue: old(self).chan(c as int).queue.drop_first(),
                ..old(self).chan(c as int)
            }),
            final(self).channels@.len() == old(self).channels@.len(),
            forall|d: int| 0 <= d < old(self).channels@.len() && d != c
                ==> #[trigger] final(self).chan(d) == old(self).chan(d),
            final(self).procs@ == old(self).procs@,
            final(self).coros.slots@ == old(self).coros.slots@,
            final(self).parked@ == old(self).parked@,
            final(self).now == old(self).now,
            final(self).next_token == old(self).next_token,
    {
        let ghost pre = *old(self);
        let ch = &mut self.channels[c];
        let v = ch.queue.remove(0);
        proof {
            assert(pre.chan_wf(c as int));
            self.lemma_wf_after_chan_change(pre, c as int);
        }
        v
    }

    /// Record one more live sender endpoint for channel `c`.
    pub fn add_sender(&mut self, c: usize)
        requires
            old(self).wf(),
            c < old(self).channels@.len(),
            old(self).chan(c as int).senders < usize::MAX,
        ensures
            final(self).wf(),
            final(self).chan(c as int) == (ChanView {
                senders: old(self).chan(c as int).senders + 1,
                ..old(self).chan(c as int)
            }),
            final(self).channels@.len() == old(self).channels@.len(),
            forall|d: int| 0 <= d < old(self).channels@.len() && d != c
                ==> #[trigger] final(self).chan(d) == old(self).chan(d),
            final(self).procs@ == old(self).procs@,
            final(self).coros.slots@ == old(self).coros.slots@,
            final(self).parked@ == old(self).parked@,
            final(self).now == old(self).now,
            final(self).next_token == old(self).next_token,
    {
        let ghost pre = *old(self);
        let ch = &mut self.channels[c];
        ch.senders = ch.senders + 1;
        proof {
            assert(pre.chan_wf(c as int));
            self.lemma_wf_after_chan_change(pre, c as int);
        }
    }

    /// Record that one sender endpoint of channel `c` was dropped.
    pub fn drop_sender(&mut self, c: usize)
        requires
            old(self).wf(),
            c < old(self).channels@.len(),
            old(self).chan(c as int).senders >= 1,
        ensures
            final(self).wf(),
            final(self).chan(c as int) == (ChanView {
                senders: (old(self).chan(c as int).senders - 1) as nat,
                ..old(self).chan(c as int)
            }),
            final(self).channels@.len() == old(self).channels@.len(),
            forall|d: int| 0 <= d < old(self).channels@.len() && d != c
                ==> #[trigger] final(self).chan(d) == old(self).chan(d),
            final(self).procs@ == old(self).procs@,
            final(self).coros.slots@ == old(self).coros.slots@,
            final(self).parked@ == old(self).parked@,
            final(self).now == old(self).now,
            final(self).next_token == old(self).next_token,
    {
        let ghost pre = *old(self);
        let ch = &mut self.channels[c];
        ch.senders = ch.senders - 1;
        proof {
            assert(pre.chan_wf(c as int));
            self.lemma_wf_after_chan_change(pre, c as int);
        }
    }

    /// Record that the receiver endpoint of channel `c` was dropped.
    pub fn drop_receiver(&mut self, c: usize)
        requires
            old(self).wf(),
            c < old(self).channels@.len(),
        ensures
            final(self).wf(),
            final(self).chan(c as int) == (ChanView {
                receiver_alive: false,
                ..old(self).chan(c as int)
            }),
            final(self).channels@.len() == old(self).channels@.len(),
            forall|d: int| 0 <= d < old(self).channels@.len() && d != c
                ==> #[trigger] final(self).chan(d) == old(self).chan(d),
            final(self).procs@ == old(self).procs@,
            final(self).coros.slots@ == old(self).coros.slots@,
            final(self).parked@ == old(self).parked@,
            final(self).now == old(self).now,
            final(self).next_token == old(self).next_token,
    {
        let ghost pre = *old(self);
        let ch = &mut self.channels[c];
        ch.receiver_alive = false;
        proof {
            assert(pre.chan_wf(c as int));
            self.lemma_wf_after_chan_change(pre, c as int);
        }
    }

    /// Re-establishing `wf` after a change that touches no wait
    /// structure and moves no handle: only the value queue, the
    /// endpoint counts or the bound of channel `c` changed (or a new
    /// channel was appended), and the changed channel still satisfies
    /// its numeric conditions.
    proof fn lemma_wf_after_chan_change(self, pre: Scheduler<T>, c: int)
        requires
            pre.wf(),
            0 <= c < self.channels@.len(),
            self.channels@.len() == pre.channels@.len() || (self.channels@.len()
                == pre.channels@.len() + 1 && c == pre.channels@.len()),
            c < pre.channels@.len() ==> self.chan(c).recv_wait == pre.chan(c).recv_wait
                && self.chan(c).send_wait == pre.chan(c).send_wait,
            c == pre.channels@.len() ==> self.chan(c).recv_wait.len() == 0 && self.chan(
                c,
            ).send_wait.len() == 0,
            forall|d: int| 0 <= d < pre.channels@.len() && d != c
                ==> #[trigger] self.chan(d) == pre.chan(d),
            self.chan(c).recv_wait.len() > 0 ==> self.chan(c).queue.len() == 0,
            (match self.chan(c).bound {
                Some(b) => self.chan(c).queue.len() <= b,
                None => self.chan(c).send_wait.len() == 0,
            }),
            self.procs@ == pre.procs@,
            self.coros.slots@ == pre.coros.slots@,
            self.parked@ == pre.parked@,
            self.next_token == pre.next_token,
        ensures
            self.wf(),
    {
        assert forall|p: int| 0 <= p < self.procs@.len() implies #[trigger] self.proc_wf(p) by {
            assert(pre.proc_wf(p));
            let pr = self.procs@[p];
            assert forall|i: int| 0 <= i < pr.run_queue@.len() implies self.runnable(
                #[trigger] pr.run_queue@[i],
                Loc::Queued(p as usize),
            ) by {
                assert(pre.runnable(pr.run_queue@[i], Loc::Queued(p as usize)));
            }
            assert forall|i: int| 0 <= i < pr.inbox@.len() implies self.msg_wf(
                p,
                #[trigger] pr.inbox@[i],
            ) by {
                assert(pre.msg_wf(p, pr.inbox@[i]));
                if pr.inbox@[i] is Ready {
                    assert(pre.runnable(pr.inbox@[i]->Ready_0, Loc::Mailed(p as usize)));
                }
            }
            if pr.current_coro is Some {
                assert(pre.runnable(pr.current_coro->Some_0, Loc::Running(p as usize)));
            }
        }
        assert forall|d: int| 0 <= d < self.channels@.len() implies #[trigger] self.chan_wf(d) by {
            if d < pre.channels@.len() {
                assert(pre.chan_wf(d));
                let ch = self.chan(d);
                assert forall|i: int| 0 <= i < ch.recv_wait.len() implies self.blocked(
                    #[trigger] ch.recv_wait[i],
                    Loc::WaitingRecv(d as usize),
                ) by {
                    assert(pre.blocked(pre.chan(d).recv_wait[i], Loc::WaitingRecv(d as usize)));
                }
                assert forall|i: int| 0 <= i < ch.send_wait.len() implies self.blocked(
                    #[trigger] ch.send_wait[i],
                    Loc::WaitingSend(d as usize),
                ) by {
                    assert(pre.blocked(pre.chan(d).send_wait[i], Loc::WaitingSend(d as usize)));
                }
            }
        }
        assert(self.parked_wf()) by {
            assert forall|j: int| 0 <= j < self.parked@.len() implies self.blocked(
                (#[trigger] self.parked@[j]).coro,
                Loc::Parked,
            ) by {
                assert(pre.blocked(pre.parked@[j].coro, Loc::Parked));
            }
        }
        assert forall|g: Handle| #[trigger] self.live(g) implies self.loc_ok(g) by {
            assert(pre.live(g));
            assert(pre.loc_ok(g));
            assert(self.coro(g) == pre.coro(g));
        }
    }

    /// Re-establishing `wf` after `spawn_opts`: the new record is fresh
    /// (its handle is outside every container), and if the spawner was
    /// parked behind it, only the spawner's record moved.
    proof fn lemma_wf_after_spawn(
        self,
        pre: Scheduler<T>,
        pid: usize,
        h: Handle,
        cur_opt: Option<Handle>,
    )
        requires
            pre.wf(),
            pid < pre.procs@.len(),
            pre.procs@[pid as int].current_coro == cur_opt,
            h == pre.coros.slots@.len(),
            self.procs@.len() == pre.procs@.len(),
            forall|q: int| 0 <= q < pre.procs@.len() && q != pid
                ==> #[trigger] self.procs@[q] == pre.procs@[q],
            self.procs@[pid as int].inbox@ == pre.procs@[pid as int].inbox@,
            self.procs@[pid as int].neighbor_stealers@
                == pre.procs@[pid as int].neighbor_stealers@,
            self.procs@[pid as int].id == pre.procs@[pid as int].id,
            ({
                let c = Coroutine {
                    state: State::Suspended,
                    loc: Loc::Queued(pid),
                    preferred: Some(pid),
                    stack_size: self.coro(h).stack_size,
                    name: self.coro(h).name,
                    wake: None,
                };
                match cur_opt {
                    Some(cur) => self.coros.slots@ == pre.coros.slots@.push(Some(c)).update(
                        cur as int,
                        Some(
                            Coroutine {
                                state: State::Suspended,
                                loc: Loc::Queued(pid),
                                ..pre.coro(cur)
                            },
                        ),
                    ) && self.procs@[pid as int].run_queue@
                        == pre.procs@[pid as int].run_queue@.push(cur).push(h)
                        && self.procs@[pid as int].current_coro is None,
                    None => self.coros.slots@ == pre.coros.slots@.push(Some(c))
                        && self.procs@[pid as int].run_queue@
                            == pre.procs@[pid as int].run_queue@.push(h)
                        && self.procs@[pid as int].current_coro is None,
                }
            }),
            self.channels == pre.channels,
            self.parked == pre.parked,
            self.next_token == pre.next_token,
        ensures
            self.wf(),
    {
        assert(pre.proc_wf(pid as int));
        if cur_opt is Some {
            let cur = cur_opt->Some_0;
            assert(pre.runnable(cur, Loc::Running(pid)));
            pre.lemma_not_in_queue(cur, pid as int);
        }
        // facts about the arena: h is fresh, cur (if any) moved, rest same
        assert forall|g: Handle| g < pre.coros.slots@.len() && (cur_opt matches Some(cur) ==> g
            != cur) implies #[trigger] self.coros.slots@[g as int] == pre.coros.slots@[g as int]
            by {}
        assert(!pre.live(h));

        assert forall|p: int| 0 <= p < self.procs@.len() implies #[trigger] self.proc_wf(p) by {
            assert(pre.proc_wf(p));
            let pr = self.procs@[p];
            assert forall|i: int| 0 <= i < pr.run_queue@.len() implies self.runnable(
                #[trigger] pr.run_queue@[i],
                Loc::Queued(p as usize),
            ) by {
                let g = pr.run_queue@[i];
                if p == pid && i >= pre.procs@[pid as int].run_queue@.len() {
                    assert(g == h || (cur_opt matches Some(cur) && g == cur));
                } else {
                    assert(pre.runnable(g, Loc::Queued(p as usize)));
                }
            }
            assert forall|i: int| 0 <= i < pr.inbox@.len() implies self.msg_wf(
                p,
                #[trigger] pr.inbox@[i],
            ) by {
                assert(pre.msg_wf(p, pr.inbox@[i]));
                if pr.inbox@[i] is Ready {
                    assert(pre.runnable(pr.inbox@[i]->Ready_0, Loc::Mailed(p as usize)));
                }
            }
            if pr.current_coro is Some {
                let g = pr.current_coro->Some_0;
                assert(p != pid);
                assert(pre.runnable(g, Loc::Running(p as usize)));
            }
            if p == pid {
                let oldq = pre.procs@[pid as int].run_queue@;
                assert forall|i: int, j: int| 0 <= i < j < pr.run_queue@.len() implies pr
                    .run_queue@[i] != pr.run_queue@[j] by {
                    if i < oldq.len() {
                        assert(pre.runnable(oldq[i], Loc::Queued(pid)));
                    }
                    if j < oldq.len() {
                        assert(pre.runnable(oldq[j], Loc::Queued(pid)));
                    }
                }
            }
        }
        assert forall|c: int| 0 <= c < self.channels@.len() implies #[trigger] self.chan_wf(c) by {
            assert(pre.chan_wf(c));
            let ch = self.chan(c);
            assert forall|i: int| 0 <= i < ch.recv_wait.len() implies self.blocked(
                #[trigger] ch.recv_wait[i],
                Loc::WaitingRecv(c as usize),
            ) by {
                assert(pre.blocked(ch.recv_wait[i], Loc::WaitingRecv(c as usize)));
            }
            assert forall|i: int| 0 <= i < ch.send_wait.len() implies self.blocked(
                #[trigger] ch.send_wait[i],
                Loc::WaitingSend(c as usize),
            ) by {
                assert(pre.blocked(ch.send_wait[i], Loc::WaitingSend(c as usize)));
            }
        }
        assert(self.parked_wf()) by {
            assert forall|k: int| 0 <= k < self.parked@.len() implies self.blocked(
                #[trigger] self.parked@[k].coro,
                Loc::Parked,
            ) by {
                assert(pre.blocked(pre.parked@[k].coro, Loc::Parked));
            }
        }
        assert forall|g: Handle| #[trigger] self.live(g) implies self.loc_ok(g) by {
            let newq = self.procs@[pid as int].run_queue@;
            if g == h {
                assert(newq[newq.len() - 1] == h);
                assert(newq.contains(h));
            } else if cur_opt is Some && g == cur_opt->Some_0 {
                assert(newq[newq.len() - 2] == cur_opt->Some_0);
                assert(newq.contains(g));
            } else {
                assert(pre.live(g));
                assert(pre.loc_ok(g));
                assert(self.coro(g) == pre.coro(g));
                match self.coro(g).loc {
                    Loc::Queued(p) => {
                        if p == pid {
                            let i = choose|i: int|
                                0 <= i < pre.procs@[pid as int].run_queue@.len()
                                    && pre.procs@[pid as int].run_queue@[i] == g;
                            assert(newq[i] == g);
                        }
                        assert(self.procs@[p as int].run_queue@.contains(g));
                    }
                    Loc::Mailed(p) => {}
                    Loc::Running(p) => {
                        assert(pre.procs@[p as int].current_coro == Some(g));
                        if p == pid {
                            assert(cur_opt == Some(g));
                        }
                        assert(self.procs@[p as int].current_coro == Some(g));
                    }
                    Loc::WaitingRecv(c) => {}
                    Loc::WaitingSend(c) => {}
                    Loc::Parked => {
                        let k = choose|k: int|
                            0 <= k < pre.parked@.len() && (#[trigger] pre.parked@[k]).coro == g;
                        assert((#[trigger] self.parked@[k]).coro == g);
                    }
                }
            }
        }
    }

    /// One turn of the scheduler loop of processor `pid`: run the
    /// newest local task; once `Shutdown` is
    /// latched, give each remaining local task its final, force-unwound
    /// resume and then exit; otherwise handle one inbox message, and as
    /// a last measure scan every steal victim once, starting at a
    /// random offset, and run the first task stolen.
    ///
    /// After shutdown is latched this never returns `Run`: no further
    /// user code runs on this processor.
    pub fn schedule_step(&mut self, pid: usize) -> (d: Decision)
        requires
            old(self).wf(),
            pid < old(self).procs@.len(),
            old(self).procs@[pid as int].current_coro is None,
        ensures
            final(self).wf(),
            old(self).procs@[pid as int].is_exiting ==> !(d is Run),
            (d matches Decision::Run(h) ==> final(self).procs@[pid as int].current_coro
                == Some(h) && final(self).runnable(h, Loc::Running(pid))),
            (d matches Decision::Unwound(h) ==> !final(self).live(h)
                && old(self).procs@[pid as int].is_exiting && final(self).procs@[pid as int].run_queue@ == old(self).procs@[pid as int].run_queue@.drop_last()
                && h == old(self).procs@[pid as int].run_queue@.last() && final(self).procs@[pid as int].current_coro is None && final(self).procs@[pid as int].is_exiting
                && (forall|g: Handle| g != h && g < old(self).coros.slots@.len()
                    ==> #[trigger] final(self).coros.slots@[g as int]
                        == old(self).coros.slots@[g as int])),
            (old(self).procs@[pid as int].is_exiting && old(self).procs@[pid as int].run_queue@.len() > 0) ==> d is Unwound,
            (!old(self).procs@[pid as int].is_exiting && old(self).procs@[pid as int].run_queue@.len() > 0) ==> d == Decision::Run(
                old(self).procs@[pid as int].run_queue@.last(),
            ) && final(self).procs@[pid as int].run_queue@ == old(
                self,
            ).procs@[pid as int].run_queue@.drop_last() && (forall|q: int|
                0 <= q < old(self).procs@.len() && q != pid
                    ==> #[trigger] final(self).procs@[q] == old(self).procs@[q]) && (forall|
                g: Handle,
            |
                g != old(self).procs@[pid as int].run_queue@.last() && g < old(
                    self,
                ).coros.slots@.len() ==> #[trigger] final(self).coros.slots@[g as int] == old(
                    self,
                ).coros.slots@[g as int]),
            (d is Run && old(self).procs@[pid as int].run_queue@.len() == 0)
                ==> exists|v: int|
                {
                    &&& 0 <= v < old(self).procs@.len()
                    &&& v != pid
                    &&& old(self).procs@[v].run_queue@.len() > 0
                    &&& d->Run_0 == old(self).procs@[v].run_queue@[0]
                    &&& #[trigger] final(self).procs@[v].run_queue@ == old(
                        self,
                    ).procs@[v].run_queue@.drop_first()
                    &&& (forall|q: int|
                        0 <= q < old(self).procs@.len() && q != pid && q != v
                            ==> #[trigger] final(self).procs@[q] == old(self).procs@[q])
                },
            d is Again <==> old(self).procs@[pid as int].run_queue@.len() == 0 && old(self).procs@[pid as int].inbox@.len() > 0,
            d is Again ==> final(self).procs@[pid as int].inbox@ == old(self).procs@[pid as int].inbox@.drop_first() && match old(self).procs@[pid as int].inbox@[0] {
                ProcMessage::Ready(h) => final(self).procs@[pid as int].run_queue@ == old(self).procs@[pid as int].run_queue@.push(h) && final(self).runnable(h, Loc::Queued(pid))
                    && final(self).coro(h).preferred == Some(pid) && final(self).procs@[pid as int].is_exiting == old(self).procs@[pid as int].is_exiting,
                ProcMessage::NewNeighbor(q) => final(self).procs@[pid as int].neighbor_stealers@
                    == old(self).procs@[pid as int].neighbor_stealers@.push(q) && final(self).procs@[pid as int].run_queue@ == old(self).procs@[pid as int].run_queue@ && final(self).procs@[pid as int].is_exiting == old(self).procs@[pid as int].is_exiting,
                ProcMessage::Shutdown => final(self).procs@[pid as int].is_exiting && final(self).procs@[pid as int].run_queue@ == old(self).procs@[pid as int].run_queue@,
            },
            d is Idle ==> *final(self) == *old(self) && old(self).procs@[pid as int].run_queue@.len()
                == 0 && old(self).procs@[pid as int].inbox@.len() == 0 && !old(self).procs@[pid as int].is_exiting && (forall|i: int|
                0 <= i < old(self).procs@[pid as int].neighbor_stealers@.len() ==> {
                    let v = #[trigger] old(self).procs@[pid as int].neighbor_stealers@[i];
                    v == pid || old(self).procs@[v as int].run_queue@.len() == 0
                }),
            d is Exited ==> *final(self) == *old(self) && old(self).procs@[pid as int].is_exiting
                && old(self).procs@[pid as int].run_queue@.len() == 0 && old(self).procs@[pid as int].inbox@.len() == 0,
            final(self).channels@.len() == old(self).channels@.len(),
            forall|c: int| 0 <= c < old(self).channels@.len()
                ==> #[trigger] final(self).chan(c) == old(self).chan(c),
            final(self).parked@ == old(self).parked@,
            final(self).coros.slots@.len() == old(self).coros.slots@.len(),
            final(self).now == old(self).now,
            final(self).next_token == old(self).next_token,
            final(self).procs@.len() == old(self).procs@.len(),
    {
        let ghost pre = *old(self);
        // 1. local run queue, worker end first
        if self.procs[pid].run_queue.len() > 0 {
            let ghost oldq = pre.procs@[pid as int].run_queue@;
            let h = {
                let pr = &mut self.procs[pid];
                pr.run_queue.pop().unwrap()
            };
            proof {
                assert(pre.proc_wf(pid as int));
                assert(oldq[oldq.len() - 1] == h);
                assert(pre.runnable(h, Loc::Queued(pid)));
                assert(self.procs@[pid as int].run_queue@ =~= oldq.remove(oldq.len() - 1));
            }
            if self.procs[pid].is_exiting {
                self.coros.free(h);
                proof {
                    self.lemma_wf_after_unwind(pre, pid, h, oldq.len() - 1);
                }
                return Decision::Unwound(h);
            } else {
                self.coros.relocate(h, Loc::Running(pid), State::Suspended);
                {
                    let pr = &mut self.procs[pid];
                    pr.current_coro = Some(h);
                }
                proof {
                    self.lemma_wf_after_dispatch(
                        pre,
                        h,
                        Loc::Queued(pid),
                        Loc::Running(pid),
                        oldq.len() - 1,
                    );
                }
                return Decision::Run(h);
            }
        }
        // 2. one control message from the inbox (during shutdown this
        // drains the wakes that arrived with it, so their tasks get
        // their final unwound resume instead of leaking)
        if self.procs[pid].inbox.len() > 0 {
            let msg = {
                let pr = &mut self.procs[pid];
                pr.inbox.remove(0)
            };
            proof {
                assert(pre.proc_wf(pid as int));
                assert(pre.msg_wf(pid as int, pre.procs@[pid as int].inbox@[0]));
            }
            match msg {
                ProcMessage::NewNeighbor(q) => {
                    let pr = &mut self.procs[pid];
                    pr.neighbor_stealers.push(q);
                    proof {
                        assert(self.procs@[pid as int].inbox@
                            =~= pre.procs@[pid as int].inbox@.drop_first());
                        self.lemma_wf_after_proc_meta(pre, pid, true);
                    }
                }
                ProcMessage::Shutdown => {
                    let pr = &mut self.procs[pid];
                    pr.is_exiting = true;
                    proof {
                        assert(self.procs@[pid as int].inbox@
                            =~= pre.procs@[pid as int].inbox@.drop_first());
                        self.lemma_wf_after_proc_meta(pre, pid, true);
                    }
                }
                ProcMessage::Ready(h) => {
                    proof {
                        assert(pre.runnable(h, Loc::Mailed(pid)));
                        assert(self.procs@[pid as int].inbox@
                            =~= pre.procs@[pid as int].inbox@.drop_first());
                    }
                    self.coros.set_preferred(h, Some(pid));
                    self.coros.relocate(h, Loc::Queued(pid), State::Suspended);
                    {
                        let pr = &mut self.procs[pid];
                        pr.run_queue.push(h);
                    }
                    proof {
                        assert(self.coros.slots@ =~= pre.coros.slots@.update(
                            h as int,
                            Some(self.coro(h)),
                        ));
                        self.lemma_wf_after_dispatch(pre, h, Loc::Mailed(pid), Loc::Queued(pid), 0);
                    }
                }
            }
            return Decision::Again;
        }
        if self.procs[pid].is_exiting {
            return Decision::Exited;
        }
        // 3. randomly steal from a neighbor as a last measure
        let nlen = self.procs[pid].neighbor_stealers.len();
        if nlen > 0 {
            let start = (rand::random::<u64>() % (nlen as u64)) as usize;
            let mut k = start;
            while k < nlen
                invariant
                    *self == pre,
                    pre == *old(self),
                    pre.wf(),
                    pid < pre.procs@.len(),
                    pre.procs@[pid as int].current_coro is None,
                    !pre.procs@[pid as int].is_exiting,
                    pre.procs@[pid as int].run_queue@.len() == 0,
                    pre.procs@[pid as int].inbox@.len() == 0,
                    nlen == pre.procs@[pid as int].neighbor_stealers@.len(),
                    start <= k <= nlen,
                    forall|j: int| start <= j < k ==> {
                        let v = #[trigger] pre.procs@[pid as int].neighbor_stealers@[j];
                        v == pid || pre.procs@[v as int].run_queue@.len() == 0
                    },
                decreases nlen - k,
            {
                let victim = self.procs[pid].neighbor_stealers[k];
                proof {
                    assert(pre.proc_wf(pid as int));
                }
                if victim != pid && self.procs[victim].run_queue.len() > 0 {
                    let r = self.steal_into(pid, victim);
                    return r;
                }
                k = k + 1;
            }
            let mut k2: usize = 0;
            while k2 < start
                invariant
                    *self == pre,
                    pre == *old(self),
                    pre.wf(),
                    pid < pre.procs@.len(),
                    pre.procs@[pid as int].current_coro is None,
                    !pre.procs@[pid as int].is_exiting,
                    pre.procs@[pid as int].run_queue@.len() == 0,
                    pre.procs@[pid as int].inbox@.len() == 0,
                    nlen == pre.procs@[pid as int].neighbor_stealers@.len(),
                    start <= nlen,
                    k2 <= start,
                    forall|j: int| start <= j < nlen ==> {
                        let v = #[trigger] pre.procs@[pid as int].neighbor_stealers@[j];
                        v == pid || pre.procs@[v as int].run_queue@.len() == 0
                    },
                    forall|j: int| 0 <= j < k2 ==> {
                        let v = #[trigger] pre.procs@[pid as int].neighbor_stealers@[j];
                        v == pid || pre.procs@[v as int].run_queue@.len() == 0
                    },
                decreases start - k2,
            {
                let victim = self.procs[pid].neighbor_stealers[k2];
                proof {
                    assert(pre.proc_wf(pid as int));
                }
                if victim != pid && self.procs[victim].run_queue.len() > 0 {
                    let r = self.steal_into(pid, victim);
                    return r;
                }
                k2 = k2 + 1;
            }
        }
        // 4. nothing anywhere: the processor would block on its inbox
        Decision::Idle
    }

    /// Steal the oldest task from `victim`'s run queue and run it on
    /// `pid`.
    fn steal_into(&mut self, pid: usize, victim: usize) -> (d: Decision)
        requires
            old(self).wf(),
            pid < old(self).procs@.len(),
            victim < old(self).procs@.len(),
            victim != pid,
            old(self).procs@[pid as int].current_coro is None,
            old(self).procs@[victim as int].run_queue@.len() > 0,
        ensures
            final(self).wf(),
            d matches Decision::Run(h) && h == old(self).procs@[victim as int].run_queue@[0],
            ({
                let h = old(self).procs@[victim as int].run_queue@[0];
                &&& final(self).procs@[pid as int].current_coro == Some(h)
                &&& final(self).runnable(h, Loc::Running(pid))
                &&& final(self).procs@[victim as int].run_queue@ == old(
                    self,
                ).procs@[victim as int].run_queue@.drop_first()
                &&& (forall|q: int|
                    0 <= q < old(self).procs@.len() && q != pid && q != victim
                        ==> #[trigger] final(self).procs@[q] == old(self).procs@[q])
                &&& final(self).procs@[pid as int].run_queue@ == old(
                    self,
                ).procs@[pid as int].run_queue@
                &&& final(self).procs@[pid as int].inbox@ == old(self).procs@[pid as int].inbox@
                &&& final(self).procs@[pid as int].is_exiting == old(
                    self,
                ).procs@[pid as int].is_exiting
                &&& (forall|g: Handle| g != h && g < old(self).coros.slots@.len()
                    ==> #[trigger] final(self).coros.slots@[g as int]
                        == old(self).coros.slots@[g as int])
            }),
            final(self).channels@.len() == old(self).channels@.len(),
            forall|c: int| 0 <= c < old(self).channels@.len()
                ==> #[trigger] final(self).chan(c) == old(self).chan(c),
            final(self).parked@ == old(self).parked@,
            final(self).coros.slots@.len() == old(self).coros.slots@.len(),
            final(self).now == old(self).now,
            final(self).next_token == old(self).next_token,
            final(self).procs@.len() == old(self).procs@.len(),
    {
        let ghost pre = *old(self);
        let h = {
            let pr = &mut self.procs[victim];
            pr.run_queue.remove(0)
        };
        proof {
            assert(pre.proc_wf(victim as int));
            assert(pre.runnable(h, Loc::Queued(victim)));
        }
        self.coros.relocate(h, Loc::Running(pid), State::Suspended);
        {
            let pr = &mut self.procs[pid];
            pr.current_coro = Some(h);
        }
        proof {
            self.lemma_wf_after_dispatch(pre, h, Loc::Queued(victim), Loc::Running(pid), 0);
        }
        Decision::Run(h)
    }

    /// Re-establishing `wf` after a change to one processor's metadata
    /// (`is_exiting`, `last_state` or a new steal victim): no handle
    /// moved.
    proof fn lemma_wf_after_proc_meta(self, pre: Scheduler<T>, pid: usize, dropped_msg: bool)
        requires
            pre.wf(),
            pid < pre.procs@.len(),
            self.procs@.len() == pre.procs@.len(),
            forall|q: int| 0 <= q < pre.procs@.len() && q != pid
                ==> #[trigger] self.procs@[q] == pre.procs@[q],
            self.procs@[pid as int].id == pre.procs@[pid as int].id,
            self.procs@[pid as int].run_queue@ == pre.procs@[pid as int].run_queue@,
            dropped_msg ==> pre.procs@[pid as int].inbox@.len() > 0
                && !(pre.procs@[pid as int].inbox@[0] is Ready)
                && self.procs@[pid as int].inbox@ == pre.procs@[pid as int].inbox@.drop_first(),
            !dropped_msg ==> self.procs@[pid as int].inbox@ == pre.procs@[pid as int].inbox@,
            self.procs@[pid as int].current_coro == pre.procs@[pid as int].current_coro,
            forall|i: int| 0 <= i < self.procs@[pid as int].neighbor_stealers@.len() ==> {
                let ns = #[trigger] self.procs@[pid as int].neighbor_stealers@[i];
                ns < pre.procs@.len()
            },
            self.coros.slots@ == pre.coros.slots@,
            self.channels@ == pre.channels@,
            self.parked@ == pre.parked@,
            self.next_token == pre.next_token,
        ensures
            self.wf(),
    {
        assert forall|p: int| 0 <= p < self.procs@.len() implies #[trigger] self.proc_wf(p) by {
            assert(pre.proc_wf(p));
            let pr = self.procs@[p];
            let opr = pre.procs@[p];
            assert forall|i: int| 0 <= i < pr.run_queue@.len() implies self.runnable(
                #[trigger] pr.run_queue@[i],
                Loc::Queued(p as usize),
            ) by {
                assert(pre.runnable(opr.run_queue@[i], Loc::Queued(p as usize)));
            }
            assert forall|i: int| 0 <= i < pr.inbox@.len() implies self.msg_wf(
                p,
                #[trigger] pr.inbox@[i],
            ) by {
                if p == pid && dropped_msg {
                    assert(pr.inbox@[i] == opr.inbox@[i + 1]);
                    assert(pre.msg_wf(p, opr.inbox@[i + 1]));
                } else {
                    assert(pre.msg_wf(p, opr.inbox@[i]));
                }
            }
            assert forall|i: int, j: int|
                0 <= i < j < pr.inbox@.len() && #[trigger] pr.inbox@[i] is Ready
                    && #[trigger] pr.inbox@[j] is Ready implies pr.inbox@[i]->Ready_0 != pr
                .inbox@[j]->Ready_0 by {
                if p == pid && dropped_msg {
                    assert(pr.inbox@[i] == opr.inbox@[i + 1]);
                    assert(pr.inbox@[j] == opr.inbox@[j + 1]);
                }
            }
            if pr.current_coro is Some {
                assert(pre.runnable(pr.current_coro->Some_0, Loc::Running(p as usize)));
            }
        }
        assert forall|c: int| 0 <= c < self.channels@.len() implies #[trigger] self.chan_wf(c) by {
            assert(pre.chan_wf(c));
        }
        assert forall|g: Handle| #[trigger] self.live(g) implies self.loc_ok(g) by {
            assert(pre.live(g));
            assert(pre.loc_ok(g));
            if self.coro(g).loc matches Loc::Mailed(p) && p == pid {
                let ib = pre.procs@[pid as int].inbox@;
                let i = choose|i: int| 0 <= i < ib.len() && ib[i] == ProcMessage::Ready(g);
                if dropped_msg {
                    assert(i != 0);
                    assert(self.procs@[pid as int].inbox@[i - 1] == ProcMessage::Ready(g));
                    assert(self.procs@[pid as int].inbox@.contains(ProcMessage::Ready(g)));
                } else {
                    assert(self.procs@[pid as int].inbox@.contains(ProcMessage::Ready(g)));
                }
            }
        }
    }

    /// Re-establishing `wf` after a runnable handle moved between
    /// runnable containers: out of a run queue (position `ki`) or an
    /// inbox front, into a run queue's worker end or a vacant current
    /// slot.
    proof fn lemma_wf_after_dispatch(
        self,
        pre: Scheduler<T>,
        h: Handle,
        src: Loc,
        dst: Loc,
        ki: int,
    )
        requires
            pre.wf(),
            pre.runnable(h, src),
            src is Queued || src is Mailed,
            dst is Queued || dst is Running,
            src is Queued ==> dst is Running,
            self.procs@.len() == pre.procs@.len(),
            self.coros.slots@ == pre.coros.slots@.update(h as int, Some(self.coro(h))),
            self.live(h),
            self.coro(h).state == State::Suspended,
            self.coro(h).loc == dst,
            forall|q: int| 0 <= q < pre.procs@.len()
                ==> (#[trigger] self.procs@[q]).id == pre.procs@[q].id && self.procs@[q].neighbor_stealers@
                    == pre.procs@[q].neighbor_stealers@,
            match src {
                Loc::Queued(sp) => sp < pre.procs@.len() && 0 <= ki
                    < pre.procs@[sp as int].run_queue@.len() && pre.procs@[sp as int].run_queue@[ki]
                    == h && self.procs@[sp as int].run_queue@
                    == pre.procs@[sp as int].run_queue@.remove(ki) && (forall|q: int|
                    0 <= q < pre.procs@.len() && q != sp
                        ==> (#[trigger] self.procs@[q]).run_queue@ == pre.procs@[q].run_queue@)
                    && (forall|q: int|
                    0 <= q < pre.procs@.len()
                        ==> (#[trigger] self.procs@[q]).inbox@ == pre.procs@[q].inbox@),
                Loc::Mailed(sp) => sp < pre.procs@.len() && pre.procs@[sp as int].inbox@.len() > 0
                    && pre.procs@[sp as int].inbox@[0] == ProcMessage::Ready(h)
                    && self.procs@[sp as int].inbox@ == pre.procs@[sp as int].inbox@.drop_first()
                    && (forall|q: int|
                    0 <= q < pre.procs@.len() && q != sp
                        ==> (#[trigger] self.procs@[q]).inbox@ == pre.procs@[q].inbox@) && (forall|
                    q: int,
                |
                    0 <= q < pre.procs@.len() && (dst matches Loc::Queued(dp) ==> q != dp)
                        ==> (#[trigger] self.procs@[q]).run_queue@ == pre.procs@[q].run_queue@),
                _ => false,
            },
            match dst {
                Loc::Queued(dp) => dp < pre.procs@.len() && self.procs@[dp as int].run_queue@
                    == pre.procs@[dp as int].run_queue@.push(h) && (forall|q: int|
                    0 <= q < pre.procs@.len()
                        ==> (#[trigger] self.procs@[q]).current_coro == pre.procs@[q].current_coro),
                Loc::Running(dp) => dp < pre.procs@.len() && pre.procs@[dp as int].current_coro
                    is None && self.procs@[dp as int].current_coro == Some(h) && (forall|q: int|
                    0 <= q < pre.procs@.len() && q != dp
                        ==> (#[trigger] self.procs@[q]).current_coro == pre.procs@[q].current_coro)
                    && (dst matches Loc::Queued(dp2) ==> false) && (forall|q: int|
                    0 <= q < pre.procs@.len() && (src matches Loc::Queued(sp) ==> q != sp)
                        ==> (#[trigger] self.procs@[q]).run_queue@ == pre.procs@[q].run_queue@),
                _ => false,
            },
            self.channels@.len() == pre.channels@.len(),
            forall|c: int| 0 <= c < pre.channels@.len()
                ==> #[trigger] self.chan(c) == pre.chan(c),
            self.parked@ == pre.parked@,
            self.next_token == pre.next_token,
        ensures
            self.wf(),
    {
        assert(pre.procs.len() == pre.procs@.len());
        assert forall|g: Handle| g != h && g < pre.coros.slots@.len()
            implies #[trigger] self.coros.slots@[g as int] == pre.coros.slots@[g as int] by {}

        assert forall|p: int| 0 <= p < self.procs@.len() implies #[trigger] self.proc_wf(p) by {
            assert(pre.proc_wf(p));
            let pr = self.procs@[p];
            let opr = pre.procs@[p];
            assert forall|i: int| 0 <= i < pr.run_queue@.len() implies self.runnable(
                #[trigger] pr.run_queue@[i],
                Loc::Queued(p as usize),
            ) by {
                let g = pr.run_queue@[i];
                if dst matches Loc::Queued(dp) && p == dp && i == pr.run_queue@.len() - 1 {
                    assert(g == h);
                    assert(self.runnable(h, Loc::Queued(p as usize)));
                } else {
                    if src matches Loc::Queued(sp) && p == sp {
                        assert(g == if i < ki {
                            opr.run_queue@[i]
                        } else {
                            opr.run_queue@[i + 1]
                        });
                        assert(opr.run_queue@.contains(g) && g != h) by {
                            if i < ki {
                                assert(opr.run_queue@[i] == g);
                            } else {
                                assert(opr.run_queue@[i + 1] == g);
                            }
                            assert(distinct_handles(opr.run_queue@));
                        }
                        assert(pre.runnable(g, Loc::Queued(p as usize)));
                        assert(g != h);
                    } else {
                        if dst matches Loc::Queued(dp) && p == dp {
                            assert(g == opr.run_queue@[i]);
                        }
                        assert(pre.runnable(opr.run_queue@[i], Loc::Queued(p as usize)));
                        assert(g != h);
                    }
                }
            }
            assert(distinct_handles(pr.run_queue@)) by {
                assert forall|i: int, j: int| 0 <= i < j < pr.run_queue@.len() implies pr
                    .run_queue@[i] != pr.run_queue@[j] by {
                    if dst matches Loc::Queued(dp) && p == dp {
                        if j == pr.run_queue@.len() - 1 {
                            assert(pr.run_queue@[j] == h);
                            assert(pre.runnable(opr.run_queue@[i], Loc::Queued(p as usize)));
                        }
                    } else if src matches Loc::Queued(sp) && p == sp {
                        let oi: int = if i < ki { i } else { i + 1 };
                        let oj: int = if j < ki { j } else { j + 1 };
                        assert(pr.run_queue@[i] == opr.run_queue@[oi]);
                        assert(pr.run_queue@[j] == opr.run_queue@[oj]);
                    }
                }
            }
            assert forall|i: int| 0 <= i < pr.inbox@.len() implies self.msg_wf(
                p,
                #[trigger] pr.inbox@[i],
            ) by {
                if src matches Loc::Mailed(sp) && p == sp {
                    assert(pr.inbox@[i] == opr.inbox@[i + 1]);
                    assert(pre.msg_wf(p, opr.inbox@[i + 1]));
                    if pr.inbox@[i] is Ready {
                        let g = pr.inbox@[i]->Ready_0;
                        assert(pre.runnable(g, Loc::Mailed(p as usize)));
                        assert(g != h) by {
                            assert(opr.inbox@[0] == ProcMessage::Ready(h));
                        }
                    }
                } else {
                    assert(pre.msg_wf(p, opr.inbox@[i]));
                    if pr.inbox@[i] is Ready {
                        assert(pre.runnable(pr.inbox@[i]->Ready_0, Loc::Mailed(p as usize)));
                        assert(pr.inbox@[i]->Ready_0 != h);
                    }
                }
            }
            assert forall|i: int, j: int|
                0 <= i < j < pr.inbox@.len() && #[trigger] pr.inbox@[i] is Ready
                    && #[trigger] pr.inbox@[j] is Ready implies pr.inbox@[i]->Ready_0 != pr
                .inbox@[j]->Ready_0 by {
                if src matches Loc::Mailed(sp) && p == sp {
                    assert(pr.inbox@[i] == opr.inbox@[i + 1]);
                    assert(pr.inbox@[j] == opr.inbox@[j + 1]);
                }
            }
            if pr.current_coro is Some {
                let g = pr.current_coro->Some_0;
                if dst matches Loc::Running(dp) && p == dp {
                    assert(g == h);
                    assert(self.runnable(h, Loc::Running(p as usize)));
                } else {
                    assert(opr.current_coro == Some(g));
                    assert(pre.runnable(g, Loc::Running(p as usize)));
                    assert(g != h);
                }
            }
        }
        assert forall|c: int| 0 <= c < self.channels@.len() implies #[trigger] self.chan_wf(c) by {
            assert(pre.chan_wf(c));
            let ch = self.chan(c);
            assert forall|i: int| 0 <= i < ch.recv_wait.len() implies self.blocked(
                #[trigger] ch.recv_wait[i],
                Loc::WaitingRecv(c as usize),
            ) by {
                assert(pre.blocked(pre.chan(c).recv_wait[i], Loc::WaitingRecv(c as usize)));
            }
            assert forall|i: int| 0 <= i < ch.send_wait.len() implies self.blocked(
                #[trigger] ch.send_wait[i],
                Loc::WaitingSend(c as usize),
            ) by {
                assert(pre.blocked(pre.chan(c).send_wait[i], Loc::WaitingSend(c as usize)));
            }
        }
        assert(self.parked_wf()) by {
            assert forall|j: int| 0 <= j < self.parked@.len() implies self.blocked(
                (#[trigger] self.parked@[j]).coro,
                Loc::Parked,
            ) by {
                assert(pre.blocked(pre.parked@[j].coro, Loc::Parked));
            }
        }
        assert forall|g: Handle| #[trigger] self.live(g) implies self.loc_ok(g) by {
            if g == h {
                match dst {
                    Loc::Queued(dp) => {
                        let q = self.procs@[dp as int].run_queue@;
                        assert(q[q.len() - 1] == h);
                        assert(q.contains(h));
                    }
                    Loc::Running(dp) => {}
                    _ => {}
                }
            } else {
                assert(pre.live(g));
                assert(pre.loc_ok(g));
                assert(self.coro(g) == pre.coro(g));
                match self.coro(g).loc {
                    Loc::Queued(p) => {
                        let oq = pre.procs@[p as int].run_queue@;
                        let i = choose|i: int| 0 <= i < oq.len() && oq[i] == g;
                        if src matches Loc::Queued(sp) && p == sp {
                            assert(i != ki);
                            if i < ki {
                                assert(self.procs@[p as int].run_queue@[i] == g);
                            } else {
                                assert(self.procs@[p as int].run_queue@[i - 1] == g);
                            }
                        } else if dst matches Loc::Queued(dp) && p == dp {
                            assert(self.procs@[p as int].run_queue@[i] == g);
                        } else {
                            assert(self.procs@[p as int].run_queue@[i] == g);
                        }
                        assert(self.procs@[p as int].run_queue@.contains(g));
                    }
                    Loc::Mailed(p) => {
                        let ib = pre.procs@[p as int].inbox@;
                        let i = choose|i: int| 0 <= i < ib.len() && ib[i] == ProcMessage::Ready(g);
                        if src matches Loc::Mailed(sp) && p == sp {
                            assert(i != 0);
                            assert(self.procs@[p as int].inbox@[i - 1] == ProcMessage::Ready(g));
                        } else {
                            assert(self.procs@[p as int].inbox@[i] == ProcMessage::Ready(g));
                        }
                        assert(self.procs@[p as int].inbox@.contains(ProcMessage::Ready(g)));
                    }
                    Loc::Running(p) => {
                        assert(pre.procs@[p as int].current_coro == Some(g));
                        if dst matches Loc::Running(dp) && p == dp {
                            assert(false);
                        }
                        assert(self.procs@[p as int].current_coro == Some(g));
                    }
                    Loc::WaitingRecv(c) => {
                        assert(self.chan(c as int) == pre.chan(c as int));
                    }
                    Loc::WaitingSend(c) => {
                        assert(self.chan(c as int) == pre.chan(c as int));
                    }
                    Loc::Parked => {
                        let k = choose|k: int|
                            0 <= k < pre.parked@.len() && (#[trigger] pre.parked@[k]).coro == g;
                        assert((#[trigger] self.parked@[k]).coro == g);
                    }
                }
            }
        }
    }

    /// Re-establishing `wf` after a force-unwind: the popped task's
    /// record is destroyed and nothing else moves.
    proof fn lemma_wf_after_unwind(self, pre: Scheduler<T>, pid: usize, h: Handle, ki: int)
        requires
            pre.wf(),
            pid < pre.procs@.len(),
            pre.runnable(h, Loc::Queued(pid)),
            0 <= ki < pre.procs@[pid as int].run_queue@.len(),
            pre.procs@[pid as int].run_queue@[ki] == h,
            self.procs@.len() == pre.procs@.len(),
            self.coros.slots@ == pre.coros.slots@.update(h as int, None),
            forall|q: int| 0 <= q < pre.procs@.len() && q != pid
                ==> #[trigger] self.procs@[q] == pre.procs@[q],
            self.procs@[pid as int].run_queue@ == pre.procs@[pid as int].run_queue@.remove(ki),
            self.procs@[pid as int].inbox@ == pre.procs@[pid as int].inbox@,
            self.procs@[pid as int].current_coro == pre.procs@[pid as int].current_coro,
            self.procs@[pid as int].neighbor_stealers@
                == pre.procs@[pid as int].neighbor_stealers@,
            self.procs@[pid as int].id == pre.procs@[pid as int].id,
            self.channels@ == pre.channels@,
            self.parked@ == pre.parked@,
            self.next_token == pre.next_token,
        ensures
            self.wf(),
    {
        assert forall|g: Handle| g != h && g < pre.coros.slots@.len()
            implies #[trigger] self.coros.slots@[g as int] == pre.coros.slots@[g as int] by {}

        assert forall|p: int| 0 <= p < self.procs@.len() implies #[trigger] self.proc_wf(p) by {
            assert(pre.proc_wf(p));
            let pr = self.procs@[p];
            let opr = pre.procs@[p];
            assert forall|i: int| 0 <= i < pr.run_queue@.len() implies self.runnable(
                #[trigger] pr.run_queue@[i],
                Loc::Queued(p as usize),
            ) by {
                let g = pr.run_queue@[i];
                if p == pid {
                    let oi: int = if i < ki { i } else { i + 1 };
                    assert(g == opr.run_queue@[oi]);
                    assert(pre.runnable(g, Loc::Queued(p as usize)));
                    assert(oi != ki);
                    assert(g != h);
                } else {
                    assert(pre.runnable(g, Loc::Queued(p as usize)));
                    assert(g != h);
                }
            }
            assert(distinct_handles(pr.run_queue@)) by {
                if p == pid {
                    assert forall|i: int, j: int| 0 <= i < j < pr.run_queue@.len() implies pr
                        .run_queue@[i] != pr.run_queue@[j] by {
                        let oi: int = if i < ki { i } else { i + 1 };
                        let oj: int = if j < ki { j } else { j + 1 };
                        assert(pr.run_queue@[i] == opr.run_queue@[oi]);
                        assert(pr.run_queue@[j] == opr.run_queue@[oj]);
                    }
                }
            }
            assert forall|i: int| 0 <= i < pr.inbox@.len() implies self.msg_wf(
                p,
                #[trigger] pr.inbox@[i],
            ) by {
                assert(pre.msg_wf(p, pr.inbox@[i]));
                if pr.inbox@[i] is Ready {
                    assert(pre.runnable(pr.inbox@[i]->Ready_0, Loc::Mailed(p as usize)));
                    assert(pr.inbox@[i]->Ready_0 != h);
                }
            }
            if pr.current_coro is Some {
                let g = pr.current_coro->Some_0;
                assert(pre.runnable(g, Loc::Running(p as usize)));
                assert(g != h);
            }
        }
        assert forall|c: int| 0 <= c < self.channels@.len() implies #[trigger] self.chan_wf(c) by {
            assert(pre.chan_wf(c));
            let ch = self.chan(c);
            assert forall|i: int| 0 <= i < ch.recv_wait.len() implies self.blocked(
                #[trigger] ch.recv_wait[i],
                Loc::WaitingRecv(c as usize),
            ) by {
                assert(pre.blocked(ch.recv_wait[i], Loc::WaitingRecv(c as usize)));
                assert(ch.recv_wait[i] != h);
            }
            assert forall|i: int| 0 <= i < ch.send_wait.len() implies self.blocked(
                #[trigger] ch.send_wait[i],
                Loc::WaitingSend(c as usize),
            ) by {
                assert(pre.blocked(ch.send_wait[i], Loc::WaitingSend(c as usize)));
                assert(ch.send_wait[i] != h);
            }
        }
        assert(self.parked_wf()) by {
            assert forall|j: int| 0 <= j < self.parked@.len() implies self.blocked(
                (#[trigger] self.parked@[j]).coro,
                Loc::Parked,
            ) by {
                assert(pre.blocked(pre.parked@[j].coro, Loc::Parked));
                assert(self.parked@[j].coro != h);
            }
        }
        assert forall|g: Handle| #[trigger] self.live(g) implies self.loc_ok(g) by {
            assert(g != h);
            assert(pre.live(g));
            assert(pre.loc_ok(g));
            assert(self.coro(g) == pre.coro(g));
            match self.coro(g).loc {
                Loc::Queued(p) => {
                    let oq = pre.procs@[p as int].run_queue@;
                    let i = choose|i: int| 0 <= i < oq.len() && oq[i] == g;
                    if p == pid {
                        assert(i != ki);
                        if i < ki {
                            assert(self.procs@[p as int].run_queue@[i] == g);
                        } else {
                            assert(self.procs@[p as int].run_queue@[i - 1] == g);
                        }
                    } else {
                        assert(self.procs@[p as int].run_queue@[i] == g);
                    }
                    assert(self.procs@[p as int].run_queue@.contains(g));
                }
                Loc::Mailed(p) => {}
                Loc::Running(p) => {
                    assert(pre.procs@[p as int].current_coro == Some(g));
                    assert(self.procs@[p as int].current_coro == Some(g));
                }
                Loc::WaitingRecv(c) => {}
                Loc::WaitingSend(c) => {}
                Loc::Parked => {
                    let k = choose|k: int|
                        0 <= k < pre.parked@.len() && (#[trigger] pre.parked@[k]).coro == g;
                    assert((#[trigger] self.parked@[k]).coro == g);
                }
            }
        }
    }

    /// Suspend the task currently running on processor `pid`: a
    /// round-robin yield point.  Values are untouched; the task goes
    /// back to the local run queue, where peers can steal it, and any
    /// task already queued there stays queued.
    pub fn sched(&mut self, pid: usize)
        requires
            old(self).wf(),
            pid < old(self).procs@.len(),
            old(self).procs@[pid as int].current_coro is Some,
        ensures
            final(self).wf(),
            final(self).procs@[pid as int].current_coro is None,
            ({
                let h = old(self).procs@[pid as int].current_coro->Some_0;
                &&& final(self).procs@[pid as int].run_queue@
                    == old(self).procs@[pid as int].run_queue@.push(h)
                &&& final(self).runnable(h, Loc::Queued(pid))
                &&& forall|g: Handle| g != h && g < old(self).coros.slots@.len()
                    ==> #[trigger] final(self).coros.slots@[g as int]
                        == old(self).coros.slots@[g as int]
            }),
            forall|q: int| 0 <= q < old(self).procs@.len() && q != pid
                ==> #[trigger] final(self).procs@[q] == old(self).procs@[q],
            final(self).channels == old(self).channels,
            final(self).parked == old(self).parked,
            final(self).coros.slots@.len() == old(self).coros.slots@.len(),
    {
        self.yield_with(pid, State::Suspended);
    }

    /// Park the task currently running on processor `pid` in the I/O
    /// driver's table until the registered descriptor becomes ready,
    /// with an optional per-operation timeout in milliseconds; returns
    /// the registration token.  Whichever of readiness and timer fires
    /// first wakes the task.
    pub fn wait_event(&mut self, pid: usize, timeout: Option<u64>) -> (tok: u64)
        requires
            old(self).wf(),
            pid < old(self).procs@.len(),
            old(self).procs@[pid as int].current_coro is Some,
            old(self).next_token < u64::MAX,
        ensures
            final(self).wf(),
            tok == old(self).next_token,
            final(self).procs@[pid as int].current_coro is None,
            ({
                let h = old(self).procs@[pid as int].current_coro->Some_0;
                &&& final(self).blocked(h, Loc::Parked)
                &&& final(self).parked@ == old(self).parked@.push(
                    IoEntry {
                        token: tok,
                        coro: h,
                        deadline: match timeout {
                            Some(d) => Some(old(self).now.saturating_add(d)),
                            None => None,
                        },
                    },
                )
            }),
            final(self).channels@ == old(self).channels@,
            final(self).now == old(self).now,
    {
        let tok = self.take_current_coroutine(pid, ParkReason::Io(timeout));
        tok.unwrap()
    }

    /// Park the task currently running on processor `pid` on a timer
    /// alone; the I/O driver wakes it when `ms` milliseconds have
    /// passed.  With `ms == 0` the deadline is already due: the next
    /// driver turn re-readies the task, so this is a yield.
    pub fn sleep_ms(&mut self, pid: usize, ms: u64) -> (tok: u64)
        requires
            old(self).wf(),
            pid < old(self).procs@.len(),
            old(self).procs@[pid as int].current_coro is Some,
            old(self).next_token < u64::MAX,
        ensures
            final(self).wf(),
            tok == old(self).next_token,
            final(self).procs@[pid as int].current_coro is None,
            ({
                let h = old(self).procs@[pid as int].current_coro->Some_0;
                &&& final(self).blocked(h, Loc::Parked)
                &&& final(self).parked@ == old(self).parked@.push(
                    IoEntry {
                        token: tok,
                        coro: h,
                        deadline: Some(old(self).now.saturating_add(ms)),
                    },
                )
            }),
            final(self).channels@ == old(self).channels@,
            final(self).now == old(self).now,
    {
        let tok = self.take_current_coroutine(pid, ParkReason::Sleep(ms));
        tok.unwrap()
    }

    /// Spawn from a thread with no processor: create the coroutine
    /// with no preference yet and route it to processor 0 through that
    /// processor's inbox, as any cross-thread wake is delivered.
    pub fn spawn_outside(&mut self, opts: Options) -> (h: Handle)
        requires
            old(self).wf(),
            old(self).n_procs() >= 1,
        ensures
            final(self).wf(),
            h == old(self).coros.slots@.len(),
            final(self).runnable(h, Loc::Mailed(0)),
            final(self).coro(h).stack_size == opts.stack_size,
            final(self).coro(h).name == opts.name,
            final(self).procs@[0].inbox@ == old(self).procs@[0].inbox@.push(
                ProcMessage::Ready(h),
            ),
            forall|q: int| 0 < q < old(self).procs@.len()
                ==> #[trigger] final(self).procs@[q] == old(self).procs@[q],
            final(self).channels@ == old(self).channels@,
            final(self).parked@ == old(self).parked@,
    {
        let ghost pre = *old(self);
        let c = Coroutine {
            state: State::Suspended,
            loc: Loc::Mailed(0),
            preferred: None,
            stack_size: opts.stack_size,
            name: opts.name,
            wake: None,
        };
        let h = self.coros.allocate(c);
        {
            let pr = &mut self.procs[0];
            pr.inbox.push(ProcMessage::Ready(h));
        }
        proof {
            assert(!pre.live(h));
            assert forall|p: int| 0 <= p < self.procs@.len() implies #[trigger] self.proc_wf(
                p,
            ) by {
                assert(pre.proc_wf(p));
                let pr = self.procs@[p];
                let opr = pre.procs@[p];
                assert forall|i: int| 0 <= i < pr.run_queue@.len() implies self.runnable(
                    #[trigger] pr.run_queue@[i],
                    Loc::Queued(p as usize),
                ) by {
                    assert(pre.runnable(opr.run_queue@[i], Loc::Queued(p as usize)));
                }
                assert forall|i: int| 0 <= i < pr.inbox@.len() implies self.msg_wf(
                    p,
                    #[trigger] pr.inbox@[i],
                ) by {
                    if p == 0 && i == pr.inbox@.len() - 1 {
                        assert(pr.inbox@[i] == ProcMessage::Ready(h));
                    } else {
                        assert(pre.msg_wf(p, opr.inbox@[i]));
                        if pr.inbox@[i] is Ready {
                            assert(pre.runnable(pr.inbox@[i]->Ready_0, Loc::Mailed(p as usize)));
                        }
                    }
                }
                assert forall|i: int, j: int|
                    0 <= i < j < pr.inbox@.len() && #[trigger] pr.inbox@[i] is Ready
                        && #[trigger] pr.inbox@[j] is Ready implies pr.inbox@[i]->Ready_0 != pr
                    .inbox@[j]->Ready_0 by {
                    if p == 0 && j == pr.inbox@.len() - 1 {
                        assert(pre.msg_wf(p, opr.inbox@[i]));
                        assert(pre.runnable(pr.inbox@[i]->Ready_0, Loc::Mailed(p as usize)));
                    }
                }
                if pr.current_coro is Some {
                    assert(pre.runnable(pr.current_coro->Some_0, Loc::Running(p as usize)));
                }
            }
            assert forall|c2: int| 0 <= c2 < self.channels@.len()
                implies #[trigger] self.chan_wf(c2) by {
                assert(pre.chan_wf(c2));
                let ch = self.chan(c2);
                assert forall|i: int| 0 <= i < ch.recv_wait.len() implies self.blocked(
                    #[trigger] ch.recv_wait[i],
                    Loc::WaitingRecv(c2 as usize),
                ) by {
                    assert(pre.blocked(ch.recv_wait[i], Loc::WaitingRecv(c2 as usize)));
                }
                assert forall|i: int| 0 <= i < ch.send_wait.len() implies self.blocked(
                    #[trigger] ch.send_wait[i],
                    Loc::WaitingSend(c2 as usize),
                ) by {
                    assert(pre.blocked(ch.send_wait[i], Loc::WaitingSend(c2 as usize)));
                }
            }
            assert(self.parked_wf()) by {
                assert forall|j: int| 0 <= j < self.parked@.len() implies self.blocked(
                    (#[trigger] self.parked@[j]).coro,
                    Loc::Parked,
                ) by {
                    assert(pre.blocked(pre.parked@[j].coro, Loc::Parked));
                }
            }
            assert forall|g: Handle| #[trigger] self.live(g) implies self.loc_ok(g) by {
                if g == h {
                    let ib = self.procs@[0].inbox@;
                    assert(ib[ib.len() - 1] == ProcMessage::Ready(h));
                    assert(ib.contains(ProcMessage::Ready(h)));
                } else {
                    assert(pre.live(g));
                    assert(pre.loc_ok(g));
                    assert(self.coro(g) == pre.coro(g));
                    match self.coro(g).loc {
                        Loc::Mailed(p) => {
                            let ib = pre.procs@[p as int].inbox@;
                            let i = choose|i: int|
                                0 <= i < ib.len() && ib[i] == ProcMessage::Ready(g);
                            assert(self.procs@[p as int].inbox@[i] == ProcMessage::Ready(g));
                            assert(self.procs@[p as int].inbox@.contains(ProcMessage::Ready(g)));
                        }
                        _ => {}
                    }
                }
            }
        }
        h
    }

    /// Broadcast `Shutdown` to every processor's inbox: each latches
    /// `is_exiting` when it drains its inbox, gives its queued tasks
    /// one final force-unwound resume and exits.
    pub fn shutdown(&mut self)
        requires
            old(self).wf(),
        ensures
            final(self).wf(),
            final(self).procs@.len() == old(self).procs@.len(),
            forall|p: int| 0 <= p < old(self).procs@.len()
                ==> (#[trigger] final(self).procs@[p]).inbox@ == old(self).procs@[p].inbox@.push(
                    ProcMessage::Shutdown,
                ),
            final(self).channels@ == old(self).channels@,
            final(self).parked@ == old(self).parked@,
            final(self).coros.slots@ == old(self).coros.slots@,
    {
        let n = self.procs.len();
        let mut p: usize = 0;
        while p < n
            invariant
                old(self).wf(),
                n == self.procs@.len(),
                n == old(self).procs@.len(),
                p <= n,
                self.coros == old(self).coros,
                self.channels == old(self).channels,
                self.parked == old(self).parked,
                self.next_token == old(self).next_token,
                self.now == old(self).now,
                forall|q: int| 0 <= q < p
                    ==> (#[trigger] self.procs@[q]).inbox@ == old(self).procs@[q].inbox@.push(
                        ProcMessage::Shutdown,
                    ) && self.procs@[q].run_queue@ == old(self).procs@[q].run_queue@
                        && self.procs@[q].current_coro == old(self).procs@[q].current_coro
                        && self.procs@[q].neighbor_stealers@
                        == old(self).procs@[q].neighbor_stealers@ && self.procs@[q].id == old(self).procs@[q].id && self.procs@[q].is_exiting == old(self).procs@[q].is_exiting,
                forall|q: int| p <= q < n
                    ==> #[trigger] self.procs@[q] == old(self).procs@[q],
            decreases n - p,
        {
            let pr = &mut self.procs[p];
            pr.inbox.push(ProcMessage::Shutdown);
            p = p + 1;
        }
        proof {
            let pre = *old(self);
            assert forall|p2: int| 0 <= p2 < self.procs@.len() implies #[trigger] self.proc_wf(
                p2,
            ) by {
                assert(pre.proc_wf(p2));
                let pr = self.procs@[p2];
                let opr = pre.procs@[p2];
                assert forall|i: int| 0 <= i < pr.run_queue@.len() implies self.runnable(
                    #[trigger] pr.run_queue@[i],
                    Loc::Queued(p2 as usize),
                ) by {
                    assert(pre.runnable(opr.run_queue@[i], Loc::Queued(p2 as usize)));
                }
                assert forall|i: int| 0 <= i < pr.inbox@.len() implies self.msg_wf(
                    p2,
                    #[trigger] pr.inbox@[i],
                ) by {
                    if i < opr.inbox@.len() {
                        assert(pre.msg_wf(p2, opr.inbox@[i]));
                        if pr.inbox@[i] is Ready {
                            assert(pre.runnable(pr.inbox@[i]->Ready_0, Loc::Mailed(p2 as usize)));
                        }
                    } else {
                        assert(pr.inbox@[i] == ProcMessage::Shutdown);
                    }
                }
                assert forall|i: int, j: int|
                    0 <= i < j < pr.inbox@.len() && #[trigger] pr.inbox@[i] is Ready
                        && #[trigger] pr.inbox@[j] is Ready implies pr.inbox@[i]->Ready_0 != pr
                    .inbox@[j]->Ready_0 by {
                    if j < opr.inbox@.len() {
                    } else {
                        assert(pr.inbox@[j] == ProcMessage::Shutdown);
                    }
                }
                if pr.current_coro is Some {
                    assert(pre.runnable(pr.current_coro->Some_0, Loc::Running(p2 as usize)));
                }
            }
            assert forall|c2: int| 0 <= c2 < self.channels@.len()
                implies #[trigger] self.chan_wf(c2) by {
                assert(pre.chan_wf(c2));
            }
            assert forall|g: Handle| #[trigger] self.live(g) implies self.loc_ok(g) by {
                assert(pre.live(g));
                assert(pre.loc_ok(g));
                assert(self.coro(g) == pre.coro(g));
                match self.coro(g).loc {
                    Loc::Mailed(mp) => {
                        let ib = pre.procs@[mp as int].inbox@;
                        let i = choose|i: int|
                            0 <= i < ib.len() && ib[i] == ProcMessage::Ready(g);
                        assert(self.procs@[mp as int].inbox@[i] == ProcMessage::Ready(g));
                        assert(self.procs@[mp as int].inbox@.contains(ProcMessage::Ready(g)));
                    }
                    _ => {}
                }
            }
        }
    }

    /// After `Shutdown` is latched on processor `pid`, give every task
    /// left in its run queue the final force-unwound resume.  No user
    /// code runs; every task that was queued is destroyed, and the
    /// processor is ready to exit.
    pub fn drain_after_shutdown(&mut self, pid: usize)
        requires
            old(self).wf(),
            pid < old(self).procs@.len(),
            old(self).procs@[pid as int].current_coro is None,
            old(self).procs@[pid as int].is_exiting,
        ensures
            final(self).wf(),
            final(self).procs@[pid as int].run_queue@.len() == 0,
            final(self).procs@[pid as int].is_exiting,
            final(self).procs@[pid as int].current_coro is None,
            forall|i: int| 0 <= i < old(self).procs@[pid as int].run_queue@.len()
                ==> !final(self).live(#[trigger] old(self).procs@[pid as int].run_queue@[i]),
            final(self).channels@.len() == old(self).channels@.len(),
            forall|c: int| 0 <= c < old(self).channels@.len()
                ==> #[trigger] final(self).chan(c) == old(self).chan(c),
            final(self).parked@ == old(self).parked@,
    {
        let ghost pre = *old(self);
        let ghost oldq = pre.procs@[pid as int].run_queue@;
        proof {
            assert(pre.proc_wf(pid as int));
        }
        while self.procs[pid].run_queue.len() > 0
            invariant
                distinct_handles(oldq),
                forall|i: int| 0 <= i < oldq.len() ==> (#[trigger] oldq[i])
                    < self.coros.slots@.len(),
                self.wf(),
                pid < self.procs@.len(),
                self.procs@.len() == pre.procs@.len(),
                self.procs@[pid as int].current_coro is None,
                self.procs@[pid as int].is_exiting,
                self.procs@[pid as int].run_queue@ == oldq.subrange(
                    0,
                    self.procs@[pid as int].run_queue@.len() as int,
                ),
                self.procs@[pid as int].run_queue@.len() <= oldq.len(),
                forall|i: int| self.procs@[pid as int].run_queue@.len() <= i < oldq.len()
                    ==> !self.live(#[trigger] oldq[i]),
                self.channels@.len() == pre.channels@.len(),
                forall|c: int| 0 <= c < pre.channels@.len()
                    ==> #[trigger] self.chan(c) == pre.chan(c),
                self.parked@ == pre.parked@,
            decreases self.procs@[pid as int].run_queue@.len(),
        {
            let ghost qlen = self.procs@[pid as int].run_queue@.len();
            let ghost prev = *self;
            let d = self.schedule_step(pid);
            proof {
                assert(d is Unwound);
                let hh = oldq[qlen - 1];
                assert(prev.procs@[pid as int].run_queue@.last() == hh);
                assert(d->Unwound_0 == hh);
                assert(!self.live(hh));
                assert(self.procs@[pid as int].run_queue@ =~= oldq.subrange(
                    0,
                    self.procs@[pid as int].run_queue@.len() as int,
                ));
                assert forall|i: int|
                    self.procs@[pid as int].run_queue@.len() <= i < oldq.len() implies !self.live(
                    #[trigger] oldq[i],
                ) by {
                    if i == qlen - 1 {
                        assert(!self.live(oldq[i]));
                    } else {
                        assert(!prev.live(oldq[i]));
                        assert(oldq[i] != hh);
                        assert(self.coros.slots@[oldq[i] as int]
                            == prev.coros.slots@[oldq[i] as int]);
                    }
                }
            }
        }
    }

    /// Location `l` really holds the handle `h` right now.
    pub open spec fn holds_at(self, h: Handle, l: Loc) -> bool {
        match l {
            Loc::Queued(p) => p < self.n_procs() && self.procs@[p as int].run_queue@.contains(h),
            Loc::Mailed(p) => p < self.n_procs() && self.procs@[p as int].inbox@.contains(
                ProcMessage::Ready(h),
            ),
            Loc::Running(p) => p < self.n_procs() && self.procs@[p as int].current_coro == Some(h),
            Loc::WaitingRecv(c) => c < self.channels@.len() && self.chan(
                c as int,
            ).recv_wait.contains(h),
            Loc::WaitingSend(c) => c < self.channels@.len() && self.chan(
                c as int,
            ).send_wait.contains(h),
            Loc::Parked => exists|k: int|
                0 <= k < self.parked@.len() && (#[trigger] self.parked@[k]).coro == h,
        }
    }

    /// Law: every live handle is in exactly one location at any time —
    /// it is in the location its record names, and any two locations
    /// that hold it are the same one.
    pub proof fn lemma_handle_in_exactly_one_location(self, h: Handle)
        requires
            self.wf(),
            self.live(h),
        ensures
            self.holds_at(h, self.coro(h).loc),
            forall|l1: Loc, l2: Loc|
                self.holds_at(h, l1) && self.holds_at(h, l2) ==> l1 == l2,
    {
        assert(self.holds_at(h, self.coro(h).loc)) by {
            assert(self.loc_ok(h));
        }
        assert forall|l1: Loc, l2: Loc| self.holds_at(h, l1) && self.holds_at(h, l2) implies l1
            == l2 by {
            self.lemma_holder_matches_record(h, l1);
            self.lemma_holder_matches_record(h, l2);
        }
    }

    /// Any location that holds a live handle is the one its record
    /// names.
    proof fn lemma_holder_matches_record(self, h: Handle, l: Loc)
        requires
            self.wf(),
            self.live(h),
            self.holds_at(h, l),
        ensures
            l == self.coro(h).loc,
    {
        match l {
            Loc::Queued(p) => {
                let q = self.procs@[p as int].run_queue@;
                let i = choose|i: int| 0 <= i < q.len() && q[i] == h;
                assert(self.proc_wf(p as int));
                assert(self.runnable(q[i], Loc::Queued(p)));
            }
            Loc::Mailed(p) => {
                let ib = self.procs@[p as int].inbox@;
                let i = choose|i: int| 0 <= i < ib.len() && ib[i] == ProcMessage::Ready(h);
                assert(self.proc_wf(p as int));
                assert(self.msg_wf(p as int, ib[i]));
            }
            Loc::Running(p) => {
                assert(self.proc_wf(p as int));
                assert(self.runnable(h, Loc::Running(p)));
            }
            Loc::WaitingRecv(c) => {
                let wl = self.chan(c as int).recv_wait;
                let i = choose|i: int| 0 <= i < wl.len() && wl[i] == h;
                assert(self.chan_wf(c as int));
                assert(self.blocked(wl[i], Loc::WaitingRecv(c)));
            }
            Loc::WaitingSend(c) => {
                let wl = self.chan(c as int).send_wait;
                let i = choose|i: int| 0 <= i < wl.len() && wl[i] == h;
                assert(self.chan_wf(c as int));
                assert(self.blocked(wl[i], Loc::WaitingSend(c)));
            }
            Loc::Parked => {
                let k = choose|k: int|
                    0 <= k < self.parked@.len() && (#[trigger] self.parked@[k]).coro == h;
                assert(self.blocked(self.parked@[k].coro, Loc::Parked));
            }
        }
    }

    /// Law: a `Blocked` handle is on no run queue — nor in an inbox or
    /// a current slot; only `Suspended` tasks are runnable.
    pub proof fn lemma_blocked_not_on_run_queue(self, h: Handle, p: int)
        requires
            self.wf(),
            self.live(h),
            self.coro(h).state == State::Blocked,
            0 <= p < self.procs@.len(),
        ensures
            !self.procs@[p].run_queue@.contains(h),
            !self.procs@[p].inbox@.contains(ProcMessage::Ready(h)),
            self.procs@[p].current_coro != Some(h),
    {
        assert(self.proc_wf(p));
        if self.procs@[p].run_queue@.contains(h) {
            let q = self.procs@[p].run_queue@;
            let i = choose|i: int| 0 <= i < q.len() && q[i] == h;
            assert(self.runnable(q[i], Loc::Queued(p as usize)));
        }
        if self.procs@[p].inbox@.contains(ProcMessage::Ready(h)) {
            let ib = self.procs@[p].inbox@;
            let i = choose|i: int| 0 <= i < ib.len() && ib[i] == ProcMessage::Ready(h);
            assert(self.msg_wf(p, ib[i]));
        }
        if self.procs@[p].current_coro == Some(h) {
            assert(self.runnable(h, Loc::Running(p as usize)));
        }
    }

    /// Law: the wait-list double check is race free — no value is ever
    /// left in a channel while a receiver is parked on it, because the
    /// emptiness check and the park are one transition under the wait
    /// list's lock.
    pub proof fn lemma_no_value_with_parked_receiver(self, c: int)
        requires
            self.wf(),
            0 <= c < self.channels@.len(),
        ensures
            self.chan(c).recv_wait.len() > 0 ==> self.chan(c).queue.len() == 0,
    {
        assert(self.chan_wf(c));
    }
}

/// Law: delivery is FIFO per channel — a send appends at the back of
/// the queue and a receive takes the front, so of two values sent in
/// order, the first sits in front of the second and is delivered
/// first.
pub proof fn lemma_fifo_per_channel<T>(q: Seq<T>, a: T, b: T)
    ensures
        q.push(a).push(b)[q.len() as int] == a,
        q.push(a).push(b)[q.len() as int + 1] == b,
        q.len() == 0 ==> q.push(a).push(b).drop_first()[0] == b,
{
}

/// Law: send-then-receive on an empty channel returns the sent value
/// exactly once.  A send appends to the queue and a receive takes the
/// front and drops it, so after sending `v` on an empty queue the next
/// receive returns `v` and the queue no longer holds it.
pub proof fn lemma_send_then_recv_exactly_once<T>(q: Seq<T>, v: T)
    requires
        q.len() == 0,
    ensures
        q.push(v)[0] == v,
        q.push(v).drop_first().len() == 0,
{
}

/// Law: a sleep of zero milliseconds arms a timer that is already due,
/// so the very next driver turn re-readies the task: `sleep_ms(0)`
/// behaves as a yield.
pub proof fn lemma_sleep_zero_is_due(now: u64)
    ensures
        now.saturating_add(0) == now,
{
}

} // verus!
