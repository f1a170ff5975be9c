//! The coroutine data model: lifecycle states, per-spawn options, the
//! task records and the arena that owns them.
//!
//! A coroutine is an independently schedulable execution.  The scheduler
//! owns every record in an arena keyed by integer handles; a `Handle` is
//! the index of a live slot, and the record's `loc` field names the one
//! place (run queue, inbox, wait list, parked table or current slot)
//! that holds the handle at this instant.

use vstd::prelude::*;

verus! {

/// A coroutine handle: the index of a live slot in the arena.
pub type Handle = usize;

/// Lifecycle state of a coroutine.
///
/// A task is `Suspended` while it is runnable (queued, in an inbox or
/// currently executing), `Blocked` while it is parked on a wait list or
/// in the I/O driver's parked table, and `Finished` once its closure has
/// returned or it has been force-unwound.  `Finished` records are
/// destroyed at once, so the arena only ever holds `Suspended` and
/// `Blocked` tasks; `Finished` also serves as a yield reason.
#[derive(Clone, Copy, PartialEq, Eq, Structural, Debug)]
pub enum State {
    Suspended,
    Blocked,
    Finished,
}

/// The one place that holds a handle right now.
///
/// The processor-indexed variants carry the processor id; `Waiting`
/// variants carry the index of the channel whose wait list holds the
/// handle; `Parked` means the I/O driver's parked table.
#[derive(Clone, Copy, PartialEq, Eq, Structural, Debug)]
pub enum Loc {
    /// In the run queue of the processor with this id.
    Queued(usize),
    /// In a `Ready` message in the inbox of the processor with this id.
    Mailed(usize),
    /// In the `current_coro` slot of the processor with this id.
    Running(usize),
    /// In the receive wait list of the channel with this index.
    WaitingRecv(usize),
    /// In the send wait list of the channel with this index.
    WaitingSend(usize),
    /// In the I/O driver's parked table.
    Parked,
}

/// What the I/O driver reports to a task it has woken: the descriptor
/// became ready, or the per-operation timer fired first.
#[derive(Clone, Copy, PartialEq, Eq, Structural, Debug)]
pub enum WakeOutcome {
    Readiness,
    TimedOut,
}

/// Default stack size, in bytes, for a spawned coroutine.
pub const DEFAULT_STACK_SIZE: usize = 131072;

/// Per-spawn options: stack size in bytes and an optional name for
/// diagnostics.
pub struct Options {
    pub stack_size: usize,
    pub name: Option<String>,
}

impl Options {
    pub fn new(stack_size: usize, name: Option<String>) -> (r: Options)
        ensures
            r.stack_size == stack_size,
            r.name == name,
    {
        Options { stack_size, name }
    }
}

impl Default for Options {
    fn default() -> (r: Options)
        ensures
            r.stack_size == DEFAULT_STACK_SIZE,
            r.name is None,
    {
        Options { stack_size: DEFAULT_STACK_SIZE, name: None }
    }
}

/// One task record.
pub struct Coroutine {
    pub state: State,
    pub loc: Loc,
    /// Preferred processor, recorded when first scheduled or when
    /// readied from a wake; a weak reference held as a processor id.
    pub preferred: Option<usize>,
    pub stack_size: usize,
    pub name: Option<String>,
    /// Wake outcome, recorded by the I/O driver.
    pub wake: Option<WakeOutcome>,
}

/// The arena of task records.  Slot indices are handles; a slot is
/// `None` once its task has finished.  Slots are never reused, so a
/// handle stays unambiguous for the lifetime of the scheduler.
pub struct CoroArena {
    pub slots: Vec<Option<Coroutine>>,
}

impl CoroArena {
    /// The handle `h` names a live (not yet finished) task.
    pub open spec fn live(self, h: Handle) -> bool {
        h < self.slots@.len() && self.slots@[h as int] is Some
    }

    /// The record of the live task `h`.
    pub open spec fn coro(self, h: Handle) -> Coroutine {
        self.slots@[h as int]->Some_0
    }

    pub fn new() -> (r: CoroArena)
        ensures
            r.slots@.len() == 0,
    {
        CoroArena { slots: Vec::new() }
    }

    /// Allocate a fresh slot for a new task record.
    pub fn allocate(&mut self, c: Coroutine) -> (h: Handle)
        ensures
            h == old(self).slots@.len(),
            final(self).slots@ == old(self).slots@.push(Some(c)),
            final(self).live(h),
            final(self).coro(h) == c,
    {
        let h = self.slots.len();
        self.slots.push(Some(c));
        h
    }

    /// Destroy the record of a finished task; the slot stays vacant.
    pub fn free(&mut self, h: Handle)
        requires
            old(self).live(h),
        ensures
            final(self).slots@ == old(self).slots@.update(h as int, None),
            !final(self).live(h),
            final(self).slots@.len() == old(self).slots@.len(),
    {
        let r = &mut self.slots[h];
        *r = None;
    }

    /// Record that a live task is now at location `l` in state `st`.
    pub fn relocate(&mut self, h: Handle, l: Loc, st: State)
        requires
            old(self).live(h),
        ensures
            final(self).slots@.len() == old(self).slots@.len(),
            final(self).live(h),
            final(self).coro(h) == (Coroutine { state: st, loc: l, ..old(self).coro(h) }),
            final(self).slots@ == old(self).slots@.update(
                h as int,
                Some(Coroutine { state: st, loc: l, ..old(self).coro(h) }),
            ),
    {
        let slot = &mut self.slots[h];
        match slot {
            Some(c) => {
                c.state = st;
                c.loc = l;
            }
            None => {}
        }
        proof {
            assert(self.slots@ =~= old(self).slots@.update(
                h as int,
                Some(Coroutine { state: st, loc: l, ..old(self).coro(h) }),
            ));
        }
    }

    /// Record a preferred processor for a live task.
    pub fn set_preferred(&mut self, h: Handle, p: Option<usize>)
        requires
            old(self).live(h),
        ensures
            final(self).slots@ == old(self).slots@.update(
                h as int,
                Some(Coroutine { preferred: p, ..old(self).coro(h) }),
            ),
    {
        let slot = &mut self.slots[h];
        match slot {
            Some(c) => {
                c.preferred = p;
            }
            None => {}
        }
        proof {
            assert(self.slots@ =~= old(self).slots@.update(
                h as int,
                Some(Coroutine { preferred: p, ..old(self).coro(h) }),
            ));
        }
    }

    /// Store the outcome the I/O driver delivers with a wake.
    pub fn set_wake(&mut self, h: Handle, w: Option<WakeOutcome>)
        requires
            old(self).live(h),
        ensures
            final(self).slots@ == old(self).slots@.update(
                h as int,
                Some(Coroutine { wake: w, ..old(self).coro(h) }),
            ),
    {
        let slot = &mut self.slots[h];
        match slot {
            Some(c) => {
                c.wake = w;
            }
            None => {}
        }
        proof {
            assert(self.slots@ =~= old(self).slots@.update(
                h as int,
                Some(Coroutine { wake: w, ..old(self).coro(h) }),
            ));
        }
    }
}

} // verus!
