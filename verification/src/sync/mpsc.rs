//! Multi-producer, single-consumer FIFO channels, coroutine aware.
//!
//! A channel is a FIFO queue of values plus two FIFO wait lists of
//! parked tasks: receivers parked on an empty queue and (for bounded
//! channels only) senders parked on a full one.  The channel state
//! lives in the scheduler so that the one-location invariant covers the
//! wait lists; the `Sender` / `Receiver` values handed to callers are
//! capability tokens naming the channel.
//!
//! Checking the queue and depositing the parked handle happen in one
//! transition here, which is what the lock around the wait list buys
//! the concurrent implementation: no value can slip in between the
//! check and the park, so a non-empty queue never coexists with a
//! parked receiver.

use vstd::prelude::*;
use crate::coroutine::{Handle, Loc};
use crate::scheduler::{ParkReason, Scheduler};

verus! {

/// Error returned by `send` when the receiver was dropped; carries the
/// value back to the caller.
#[derive(PartialEq, Eq, Debug)]
pub struct SendError<T>(pub T);

/// Error returned by `recv` when every sender was dropped and the
/// queue is drained.
#[derive(Clone, Copy, PartialEq, Eq, Structural, Debug)]
pub struct RecvError;

/// Error returned by `try_send` on a bounded channel.
#[derive(PartialEq, Eq, Debug)]
pub enum TrySendError<T> {
    /// The queue is at its bound; carries the value back.
    Full(T),
    /// The receiver was dropped; carries the value back.
    Disconnected(T),
}

/// Error returned by `try_recv`.
#[derive(Clone, Copy, PartialEq, Eq, Structural, Debug)]
pub enum TryRecvError {
    /// The queue is empty but senders remain.
    Empty,
    /// Every sender was dropped and the queue is drained.
    Disconnected,
}

/// The mathematical view of a channel's state.
pub ghost struct ChanView<T> {
    pub queue: Seq<T>,
    pub bound: Option<usize>,
    pub senders: nat,
    pub receiver_alive: bool,
    pub recv_wait: Seq<Handle>,
    pub send_wait: Seq<Handle>,
}

/// The state of one channel, owned by the scheduler.
pub struct ChanState<T> {
    /// Buffered values, oldest first.
    pub queue: Vec<T>,
    /// Capacity of a bounded channel; `None` means unbounded.
    pub bound: Option<usize>,
    /// How many sender endpoints are alive.
    pub senders: usize,
    /// Whether the receiver endpoint is alive.
    pub receiver_alive: bool,
    /// Tasks parked waiting to receive, oldest first.
    pub recv_wait: Vec<Handle>,
    /// Tasks parked waiting to send (bounded channels), oldest first.
    pub send_wait: Vec<Handle>,
}

impl<T> View for ChanState<T> {
    type V = ChanView<T>;

    open spec fn view(&self) -> ChanView<T> {
        ChanView {
            queue: self.queue@,
            bound: self.bound,
            senders: self.senders as nat,
            receiver_alive: self.receiver_alive,
            recv_wait: self.recv_wait@,
            send_wait: self.send_wait@,
        }
    }
}


/// What one turn of a blocking receive decided in the state machine
/// model: a value arrived, the channel is disconnected, or the task
/// parked itself and will retry when woken.
#[derive(PartialEq, Eq, Debug)]
pub enum RecvStep<T> {
    Got(T),
    Disconnected,
    Parked,
}

impl<T> RecvStep<T> {
    /// A completed receive as the classic result; a parked step is not
    /// yet an outcome.
    pub fn into_result(self) -> (r: Result<T, RecvError>)
        requires
            !(self is Parked),
        ensures
            (self matches RecvStep::Got(v) ==> r == Ok::<T, RecvError>(v)),
            (self is Disconnected ==> r == Err::<T, RecvError>(RecvError)),
    {
        match self {
            RecvStep::Got(v) => Ok(v),
            RecvStep::Disconnected => Err(RecvError),
            RecvStep::Parked => {
                proof {
                    assert(false);
                }
                Err(RecvError)
            }
        }
    }
}

/// What one turn of a blocking bounded send decided; the value rides
/// along wherever the send did not complete.
#[derive(PartialEq, Eq, Debug)]
pub enum SendStep<T> {
    Sent,
    Disconnected(T),
    Parked(T),
}

/// The sending half of an unbounded channel: a capability token naming
/// the channel inside the scheduler.  `duplicate` registers a further
/// sender endpoint (the counterpart of cloning) and `close` drops one.
#[derive(Clone, Copy, PartialEq, Eq, Structural, Debug)]
pub struct Sender {
    pub chan: usize,
}

/// The receiving half of an unbounded channel.
#[derive(Clone, Copy, PartialEq, Eq, Structural, Debug)]
pub struct Receiver {
    pub chan: usize,
}

/// The sending half of a bounded channel.
#[derive(Clone, Copy, PartialEq, Eq, Structural, Debug)]
pub struct SyncSender {
    pub chan: usize,
}

/// The receiving half of a bounded channel.
#[derive(Clone, Copy, PartialEq, Eq, Structural, Debug)]
pub struct SyncReceiver {
    pub chan: usize,
}

/// Create an unbounded channel pair in `s`.
pub fn channel<T>(s: &mut Scheduler<T>) -> (r: (Sender, Receiver))
    requires
        old(s).wf(),
    ensures
        final(s).wf(),
        r.0.chan == r.1.chan,
        r.0.wf_for(*final(s)),
        r.1.chan == r.0.chan && final(s).chan(r.0.chan as int) == (ChanView::<T> {
            queue: Seq::empty(),
            bound: None,
            senders: 1,
            receiver_alive: true,
            recv_wait: Seq::empty(),
            send_wait: Seq::empty(),
        }),
        r.0.chan == old(s).channels@.len(),
        final(s).channels@.len() == old(s).channels@.len() + 1,
        forall|d: int| 0 <= d < old(s).channels@.len()
            ==> #[trigger] final(s).chan(d) == old(s).chan(d),
        final(s).procs@ == old(s).procs@,
        final(s).coros.slots@ == old(s).coros.slots@,
        final(s).parked@ == old(s).parked@,
{
    let c = s.add_channel(None);
    (Sender { chan: c }, Receiver { chan: c })
}

/// Create a bounded channel pair with capacity `bound` in `s`.
pub fn sync_channel<T>(s: &mut Scheduler<T>, bound: usize) -> (r: (SyncSender, SyncReceiver))
    requires
        old(s).wf(),
    ensures
        final(s).wf(),
        r.0.chan == r.1.chan,
        r.0.wf_for(*final(s)),
        final(s).chan(r.0.chan as int) == (ChanView::<T> {
            queue: Seq::empty(),
            bound: Some(bound),
            senders: 1,
            receiver_alive: true,
            recv_wait: Seq::empty(),
            send_wait: Seq::empty(),
        }),
        r.0.chan == old(s).channels@.len(),
        final(s).channels@.len() == old(s).channels@.len() + 1,
        forall|d: int| 0 <= d < old(s).channels@.len()
            ==> #[trigger] final(s).chan(d) == old(s).chan(d),
        final(s).procs@ == old(s).procs@,
        final(s).coros.slots@ == old(s).coros.slots@,
        final(s).parked@ == old(s).parked@,
{
    let c = s.add_channel(Some(bound));
    (SyncSender { chan: c }, SyncReceiver { chan: c })
}

impl Sender {
    /// This token names an unbounded channel of `s`.
    pub open spec fn wf_for<T>(self, s: Scheduler<T>) -> bool {
        self.chan < s.channels@.len() && s.chan(self.chan as int).bound is None
    }

    /// Send a value: enqueue it and unpark the receiver if it is
    /// parked.  Never blocks; fails exactly when the receiver was
    /// dropped, handing the value back.  Delivery is FIFO: the value
    /// goes behind everything already queued.
    pub fn send<T>(&self, s: &mut Scheduler<T>, t: T) -> (r: Result<(), SendError<T>>)
        requires
            old(s).wf(),
            self.wf_for(*old(s)),
            old(s).n_procs() >= 1,
        ensures
            final(s).wf(),
            self.wf_for(*final(s)),
            r is Ok <==> old(s).chan(self.chan as int).receiver_alive,
            !old(s).chan(self.chan as int).receiver_alive ==> r == Err::<(), SendError<T>>(SendError(t)) && *final(s)
                == *old(s),
            old(s).chan(self.chan as int).receiver_alive ==> {
                let c = self.chan as int;
                let ch = old(s).chan(c);
                &&& final(s).chan(c).queue == ch.queue.push(t)
                &&& final(s).chan(c).recv_wait.len() == 0
                &&& final(s).chan(c).send_wait == ch.send_wait
                &&& final(s).chan(c).senders == ch.senders
                &&& final(s).chan(c).receiver_alive
                &&& final(s).chan(c).bound is None
                &&& (forall|d: int| 0 <= d < old(s).channels@.len() && d != c
                    ==> #[trigger] final(s).chan(d) == old(s).chan(d))
                &&& (ch.recv_wait.len() > 0 ==> final(s).runnable(
                    ch.recv_wait[0],
                    Loc::Mailed(old(s).wake_target(ch.recv_wait[0])),
                ))
                &&& (ch.recv_wait.len() == 0 ==> final(s).procs@ == old(s).procs@ && final(s).coros.slots@ == old(s).coros.slots@)
            },
            final(s).channels@.len() == old(s).channels@.len(),
            final(s).parked@ == old(s).parked@,
            final(s).now == old(s).now,
    {
        let c = self.chan;
        proof {
            assert(old(s).chan_wf(c as int));
        }
        if !s.channels[c].receiver_alive {
            return Err(SendError(t));
        }
        s.wake_recv_waiter(c);
        s.push_value(c, t);
        Ok(())
    }

    /// Register one more sender endpoint on the same channel.
    pub fn duplicate<T>(&self, s: &mut Scheduler<T>) -> (r: Sender)
        requires
            old(s).wf(),
            self.wf_for(*old(s)),
            old(s).chan(self.chan as int).senders < usize::MAX,
        ensures
            final(s).wf(),
            r == *self,
            final(s).chan(self.chan as int) == (ChanView {
                senders: old(s).chan(self.chan as int).senders + 1,
                ..old(s).chan(self.chan as int)
            }),
            forall|d: int| 0 <= d < old(s).channels@.len() && d != self.chan as int
                ==> #[trigger] final(s).chan(d) == old(s).chan(d),
            final(s).channels@.len() == old(s).channels@.len(),
            final(s).procs@ == old(s).procs@,
            final(s).coros.slots@ == old(s).coros.slots@,
            final(s).parked@ == old(s).parked@,
    {
        s.add_sender(self.chan);
        Sender { chan: self.chan }
    }

    /// Drop this sender endpoint; when the count reaches zero and the
    /// queue drains, `recv` reports the channel disconnected.
    pub fn close<T>(self, s: &mut Scheduler<T>)
        requires
            old(s).wf(),
            self.wf_for(*old(s)),
            old(s).chan(self.chan as int).senders >= 1,
        ensures
            final(s).wf(),
            final(s).chan(self.chan as int) == (ChanView {
                senders: (old(s).chan(self.chan as int).senders - 1) as nat,
                ..old(s).chan(self.chan as int)
            }),
            forall|d: int| 0 <= d < old(s).channels@.len() && d != self.chan as int
                ==> #[trigger] final(s).chan(d) == old(s).chan(d),
            final(s).channels@.len() == old(s).channels@.len(),
            final(s).procs@ == old(s).procs@,
            final(s).coros.slots@ == old(s).coros.slots@,
            final(s).parked@ == old(s).parked@,
    {
        s.drop_sender(self.chan);
    }
}

impl Receiver {
    /// This token names an unbounded channel of `s`.
    pub open spec fn wf_for<T>(self, s: Scheduler<T>) -> bool {
        self.chan < s.channels@.len() && s.chan(self.chan as int).bound is None
    }

    /// Take the oldest queued value without blocking.  `Empty` while
    /// senders remain, `Disconnected` once every sender was dropped
    /// and the queue is drained.
    pub fn try_recv<T>(&self, s: &mut Scheduler<T>) -> (r: Result<T, TryRecvError>)
        requires
            old(s).wf(),
            self.wf_for(*old(s)),
        ensures
            final(s).wf(),
            ({
                let c = self.chan as int;
                let ch = old(s).chan(c);
                &&& (ch.queue.len() > 0 ==> r == Ok::<T, TryRecvError>(ch.queue[0]) && final(s).chan(c) == (ChanView { queue: ch.queue.drop_first(), ..ch }) && (forall|d: int|
                    0 <= d < old(s).channels@.len() && d != c
                        ==> #[trigger] final(s).chan(d) == old(s).chan(d)) && final(s).procs@
                    == old(s).procs@ && final(s).coros.slots@ == old(s).coros.slots@ && final(s).parked@ == old(s).parked@)
                &&& (ch.queue.len() == 0 && ch.senders == 0 ==> r == Err::<T, TryRecvError>(
                    TryRecvError::Disconnected,
                ) && *final(s) == *old(s))
                &&& (ch.queue.len() == 0 && ch.senders > 0 ==> r == Err::<T, TryRecvError>(
                    TryRecvError::Empty,
                ) && *final(s) == *old(s))
            }),
            final(s).channels@.len() == old(s).channels@.len(),
    {
        let c = self.chan;
        if s.channels[c].queue.len() > 0 {
            let v = s.pop_value(c);
            Ok(v)
        } else if s.channels[c].senders == 0 {
            Err(TryRecvError::Disconnected)
        } else {
            Err(TryRecvError::Empty)
        }
    }

    /// One turn of a blocking receive from the task running on
    /// processor `pid`: take the oldest value, report disconnection,
    /// or park on the wait list.  Checking the queue and parking are a
    /// single transition, so no value can be enqueued in between: this
    /// is the double-check the wait-list lock performs in the
    /// concurrent implementation.  A parked receiver retries after the
    /// wake that a send delivers.
    pub fn recv<T>(&self, s: &mut Scheduler<T>, pid: usize) -> (r: RecvStep<T>)
        requires
            old(s).wf(),
            self.wf_for(*old(s)),
            pid < old(s).procs@.len(),
            old(s).procs@[pid as int].current_coro is Some,
            old(s).next_token < u64::MAX,
            old(s).chan(self.chan as int).recv_wait.len() == 0,
        ensures
            final(s).wf(),
            ({
                let c = self.chan as int;
                let ch = old(s).chan(c);
                let h = old(s).procs@[pid as int].current_coro->Some_0;
                &&& (ch.queue.len() > 0 ==> r == RecvStep::Got(ch.queue[0]) && final(s).chan(c)
                    == (ChanView { queue: ch.queue.drop_first(), ..ch }) && final(s).procs@
                    == old(s).procs@ && final(s).coros.slots@ == old(s).coros.slots@)
                &&& (ch.queue.len() == 0 && ch.senders == 0 ==> r == RecvStep::<T>::Disconnected
                    && *final(s) == *old(s))
                &&& (ch.queue.len() == 0 && ch.senders > 0 ==> r == RecvStep::<T>::Parked && final(s).chan(c) == (ChanView { recv_wait: ch.recv_wait.push(h), ..ch }) && final(s).blocked(h, Loc::WaitingRecv(self.chan)) && final(s).procs@[pid as int].current_coro is None)
                &&& (forall|d: int| 0 <= d < old(s).channels@.len() && d != c
                    ==> #[trigger] final(s).chan(d) == old(s).chan(d))
            }),
            final(s).channels@.len() == old(s).channels@.len(),
            final(s).parked@ == old(s).parked@,
    {
        let c = self.chan;
        if s.channels[c].queue.len() > 0 {
            let v = s.pop_value(c);
            RecvStep::Got(v)
        } else if s.channels[c].senders == 0 {
            RecvStep::Disconnected
        } else {
            s.take_current_coroutine(pid, ParkReason::ChannelRecv(c));
            RecvStep::Parked
        }
    }

    /// Drop the receiver; senders then fail with `SendError`.
    pub fn close<T>(self, s: &mut Scheduler<T>)
        requires
            old(s).wf(),
            self.wf_for(*old(s)),
        ensures
            final(s).wf(),
            final(s).chan(self.chan as int) == (ChanView {
                receiver_alive: false,
                ..old(s).chan(self.chan as int)
            }),
            forall|d: int| 0 <= d < old(s).channels@.len() && d != self.chan as int
                ==> #[trigger] final(s).chan(d) == old(s).chan(d),
            final(s).channels@.len() == old(s).channels@.len(),
            final(s).procs@ == old(s).procs@,
            final(s).coros.slots@ == old(s).coros.slots@,
            final(s).parked@ == old(s).parked@,
    {
        s.drop_receiver(self.chan);
    }
}

impl SyncSender {
    /// This token names a bounded channel of `s`.
    pub open spec fn wf_for<T>(self, s: Scheduler<T>) -> bool {
        self.chan < s.channels@.len() && s.chan(self.chan as int).bound is Some
    }

    /// Send without blocking: `Full` when the queue is at its bound,
    /// `Disconnected` when the receiver was dropped; both hand the
    /// value back.  On success the receiver is unparked if it waited.
    pub fn try_send<T>(&self, s: &mut Scheduler<T>, t: T) -> (r: Result<(), TrySendError<T>>)
        requires
            old(s).wf(),
            self.wf_for(*old(s)),
            old(s).n_procs() >= 1,
        ensures
            final(s).wf(),
            self.wf_for(*final(s)),
            ({
                let c = self.chan as int;
                let ch = old(s).chan(c);
                let b = ch.bound->Some_0;
                &&& (!ch.receiver_alive ==> r == Err::<(), TrySendError<T>>(
                    TrySendError::Disconnected(t),
                ) && *final(s) == *old(s))
                &&& (ch.receiver_alive && ch.queue.len() == b ==> r == Err::<(), TrySendError<T>>(
                    TrySendError::Full(t),
                ) && *final(s) == *old(s))
                &&& (ch.receiver_alive && ch.queue.len() < b ==> r is Ok && final(s).chan(c).queue
                    == ch.queue.push(t) && final(s).chan(c).recv_wait.len() == 0 && final(s).chan(
                    c,
                ).send_wait == ch.send_wait && final(s).chan(c).senders == ch.senders && final(s).chan(c).receiver_alive && final(s).chan(c).bound == ch.bound && (ch.recv_wait.len()
                    > 0 ==> final(s).runnable(
                    ch.recv_wait[0],
                    Loc::Mailed(old(s).wake_target(ch.recv_wait[0])),
                )) && (ch.recv_wait.len() == 0 ==> final(s).procs@ == old(s).procs@ && final(s).coros.slots@ == old(s).coros.slots@))
                &&& (forall|d: int| 0 <= d < old(s).channels@.len() && d != c
                    ==> #[trigger] final(s).chan(d) == old(s).chan(d))
            }),
            final(s).channels@.len() == old(s).channels@.len(),
            final(s).parked@ == old(s).parked@,
    {
        let c = self.chan;
        proof {
            assert(old(s).chan_wf(c as int));
        }
        if !s.channels[c].receiver_alive {
            return Err(TrySendError::Disconnected(t));
        }
        let b = match s.channels[c].bound {
            Some(b) => b,
            None => 0,
        };
        if s.channels[c].queue.len() >= b {
            return Err(TrySendError::Full(t));
        }
        s.wake_recv_waiter(c);
        s.push_value(c, t);
        Ok(())
    }

    /// One turn of a blocking bounded send from the task running on
    /// processor `pid`: deliver the value, report disconnection, or
    /// park on the send wait list with the value handed back for the
    /// retry.  The full-queue check and the park are one transition:
    /// the double-check discipline of the wait-list lock.
    pub fn send<T>(&self, s: &mut Scheduler<T>, pid: usize, t: T) -> (r: SendStep<T>)
        requires
            old(s).wf(),
            self.wf_for(*old(s)),
            old(s).n_procs() >= 1,
            pid < old(s).procs@.len(),
            old(s).procs@[pid as int].current_coro is Some,
            old(s).next_token < u64::MAX,
        ensures
            final(s).wf(),
            ({
                let c = self.chan as int;
                let ch = old(s).chan(c);
                let b = ch.bound->Some_0;
                let h = old(s).procs@[pid as int].current_coro->Some_0;
                &&& (!ch.receiver_alive ==> r == SendStep::Disconnected(t) && *final(s) == *old(
                    s,
                ))
                &&& (ch.receiver_alive && ch.queue.len() == b ==> r == SendStep::Parked(t)
                    && final(s).chan(c) == (ChanView { send_wait: ch.send_wait.push(h), ..ch })
                    && final(s).blocked(h, Loc::WaitingSend(self.chan)) && final(s).procs@[pid as int].current_coro is None)
                &&& (ch.receiver_alive && ch.queue.len() < b ==> r == SendStep::<T>::Sent && final(s).chan(c).queue == ch.queue.push(t) && final(s).chan(c).send_wait == ch.send_wait
                    && (ch.recv_wait.len() > 0 ==> final(s).runnable(
                    ch.recv_wait[0],
                    Loc::Mailed(old(s).wake_target(ch.recv_wait[0])),
                )))
                &&& (forall|d: int| 0 <= d < old(s).channels@.len() && d != c
                    ==> #[trigger] final(s).chan(d) == old(s).chan(d))
            }),
            final(s).channels@.len() == old(s).channels@.len(),
            final(s).parked@ == old(s).parked@,
    {
        let c = self.chan;
        proof {
            assert(old(s).chan_wf(c as int));
        }
        if !s.channels[c].receiver_alive {
            return SendStep::Disconnected(t);
        }
        let b = match s.channels[c].bound {
            Some(b) => b,
            None => 0,
        };
        if s.channels[c].queue.len() >= b {
            s.take_current_coroutine(pid, ParkReason::ChannelSend(c));
            return SendStep::Parked(t);
        }
        s.wake_recv_waiter(c);
        s.push_value(c, t);
        SendStep::Sent
    }

    /// Register one more sender endpoint on the same channel.
    pub fn duplicate<T>(&self, s: &mut Scheduler<T>) -> (r: SyncSender)
        requires
            old(s).wf(),
            self.wf_for(*old(s)),
            old(s).chan(self.chan as int).senders < usize::MAX,
        ensures
            final(s).wf(),
            r == *self,
            final(s).chan(self.chan as int) == (ChanView {
                senders: old(s).chan(self.chan as int).senders + 1,
                ..old(s).chan(self.chan as int)
            }),
            forall|d: int| 0 <= d < old(s).channels@.len() && d != self.chan as int
                ==> #[trigger] final(s).chan(d) == old(s).chan(d),
            final(s).channels@.len() == old(s).channels@.len(),
            final(s).procs@ == old(s).procs@,
            final(s).coros.slots@ == old(s).coros.slots@,
            final(s).parked@ == old(s).parked@,
    {
        s.add_sender(self.chan);
        SyncSender { chan: self.chan }
    }

    /// Drop this sender endpoint.
    pub fn close<T>(self, s: &mut Scheduler<T>)
        requires
            old(s).wf(),
            self.wf_for(*old(s)),
            old(s).chan(self.chan as int).senders >= 1,
        ensures
            final(s).wf(),
            final(s).chan(self.chan as int) == (ChanView {
                senders: (old(s).chan(self.chan as int).senders - 1) as nat,
                ..old(s).chan(self.chan as int)
            }),
            forall|d: int| 0 <= d < old(s).channels@.len() && d != self.chan as int
                ==> #[trigger] final(s).chan(d) == old(s).chan(d),
            final(s).channels@.len() == old(s).channels@.len(),
            final(s).procs@ == old(s).procs@,
            final(s).coros.slots@ == old(s).coros.slots@,
            final(s).parked@ == old(s).parked@,
    {
        s.drop_sender(self.chan);
    }
}

impl SyncReceiver {
    /// This token names a bounded channel of `s`.
    pub open spec fn wf_for<T>(self, s: Scheduler<T>) -> bool {
        self.chan < s.channels@.len() && s.chan(self.chan as int).bound is Some
    }

    /// Take the oldest queued value without blocking; on success one
    /// parked sender, if any, is unparked to refill the freed slot.
    pub fn try_recv<T>(&self, s: &mut Scheduler<T>) -> (r: Result<T, TryRecvError>)
        requires
            old(s).wf(),
            self.wf_for(*old(s)),
            old(s).n_procs() >= 1,
        ensures
            final(s).wf(),
            ({
                let c = self.chan as int;
                let ch = old(s).chan(c);
                &&& (ch.queue.len() > 0 ==> r == Ok::<T, TryRecvError>(ch.queue[0]) && final(s).chan(c).queue == ch.queue.drop_first() && final(s).chan(c).recv_wait
                    == ch.recv_wait && final(s).chan(c).senders == ch.senders && final(s).chan(
                    c,
                ).receiver_alive == ch.receiver_alive && final(s).chan(c).bound == ch.bound && (
                ch.send_wait.len() > 0 ==> final(s).chan(c).send_wait == ch.send_wait.drop_first()
                    && final(s).runnable(
                    ch.send_wait[0],
                    Loc::Mailed(old(s).wake_target(ch.send_wait[0])),
                )) && (ch.send_wait.len() == 0 ==> final(s).chan(c).send_wait == ch.send_wait
                    && final(s).procs@ == old(s).procs@ && final(s).coros.slots@ == old(
                    s,
                ).coros.slots@))
                &&& (ch.queue.len() == 0 && ch.senders == 0 ==> r == Err::<T, TryRecvError>(
                    TryRecvError::Disconnected,
                ) && *final(s) == *old(s))
                &&& (ch.queue.len() == 0 && ch.senders > 0 ==> r == Err::<T, TryRecvError>(
                    TryRecvError::Empty,
                ) && *final(s) == *old(s))
                &&& (forall|d: int| 0 <= d < old(s).channels@.len() && d != c
                    ==> #[trigger] final(s).chan(d) == old(s).chan(d))
            }),
            final(s).channels@.len() == old(s).channels@.len(),
            final(s).parked@ == old(s).parked@,
    {
        let c = self.chan;
        if s.channels[c].queue.len() > 0 {
            let v = s.pop_value(c);
            s.wake_send_waiter(c);
            Ok(v)
        } else if s.channels[c].senders == 0 {
            Err(TryRecvError::Disconnected)
        } else {
            Err(TryRecvError::Empty)
        }
    }

    /// One turn of a blocking bounded receive from the task running on
    /// processor `pid`; as with the unbounded receive, the emptiness
    /// check and the park are one transition.
    pub fn recv<T>(&self, s: &mut Scheduler<T>, pid: usize) -> (r: RecvStep<T>)
        requires
            old(s).wf(),
            self.wf_for(*old(s)),
            old(s).n_procs() >= 1,
            pid < old(s).procs@.len(),
            old(s).procs@[pid as int].current_coro is Some,
            old(s).next_token < u64::MAX,
            old(s).chan(self.chan as int).recv_wait.len() == 0,
        ensures
            final(s).wf(),
            ({
                let c = self.chan as int;
                let ch = old(s).chan(c);
                let h = old(s).procs@[pid as int].current_coro->Some_0;
                &&& (ch.queue.len() > 0 ==> r == RecvStep::Got(ch.queue[0]) && final(s).chan(
                    c,
                ).queue == ch.queue.drop_first() && (ch.send_wait.len() > 0 ==> final(s).chan(
                    c,
                ).send_wait == ch.send_wait.drop_first() && final(s).runnable(
                    ch.send_wait[0],
                    Loc::Mailed(old(s).wake_target(ch.send_wait[0])),
                )) && (ch.send_wait.len() == 0 ==> final(s).chan(c).send_wait == ch.send_wait))
                &&& (ch.queue.len() == 0 && ch.senders == 0 ==> r == RecvStep::<T>::Disconnected
                    && *final(s) == *old(s))
                &&& (ch.queue.len() == 0 && ch.senders > 0 ==> r == RecvStep::<T>::Parked && final(s).chan(c) == (ChanView { recv_wait: ch.recv_wait.push(h), ..ch }) && final(s).blocked(h, Loc::WaitingRecv(self.chan)) && final(s).procs@[pid as int].current_coro is None)
                &&& (forall|d: int| 0 <= d < old(s).channels@.len() && d != c
                    ==> #[trigger] final(s).chan(d) == old(s).chan(d))
            }),
            final(s).channels@.len() == old(s).channels@.len(),
            final(s).parked@ == old(s).parked@,
    {
        let c = self.chan;
        if s.channels[c].queue.len() > 0 {
            let v = s.pop_value(c);
            s.wake_send_waiter(c);
            RecvStep::Got(v)
        } else if s.channels[c].senders == 0 {
            RecvStep::Disconnected
        } else {
            s.take_current_coroutine(pid, ParkReason::ChannelRecv(c));
            RecvStep::Parked
        }
    }

    /// Drop the receiver; senders then fail with their disconnection
    /// errors.
    pub fn close<T>(self, s: &mut Scheduler<T>)
        requires
            old(s).wf(),
            self.wf_for(*old(s)),
        ensures
            final(s).wf(),
            final(s).chan(self.chan as int) == (ChanView {
                receiver_alive: false,
                ..old(s).chan(self.chan as int)
            }),
            forall|d: int| 0 <= d < old(s).channels@.len() && d != self.chan as int
                ==> #[trigger] final(s).chan(d) == old(s).chan(d),
            final(s).channels@.len() == old(s).channels@.len(),
            final(s).procs@ == old(s).procs@,
            final(s).coros.slots@ == old(s).coros.slots@,
            final(s).parked@ == old(s).parked@,
    {
        s.drop_receiver(self.chan);
    }
}

} // verus!
