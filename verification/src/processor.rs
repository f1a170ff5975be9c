//! The per-thread processing unit: its run queue, its inbox of control
//! messages, the slot of the task it is executing and its view of the
//! sibling processors it may steal from.
//!
//! A processor is plain data here; every transition that touches it is
//! a method of the scheduler, because a transition may move handles
//! between processors, the arena and the wait structures.

use vstd::prelude::*;
use crate::coroutine::{Handle, State};

verus! {

/// Marker for the synthesized failure that tears a task down during
/// shutdown: when a processor resumes a task after `Shutdown` was
/// latched, the task unwinds instead of running user code.
#[derive(Clone, Copy, PartialEq, Eq, Structural, Debug)]
pub struct ForceUnwind;

/// A control message another thread sends to a processor's inbox.
pub enum ProcMessage {
    /// A new sibling processor to steal from, named by its id.
    NewNeighbor(usize),
    /// A handle readied by a wake; enqueue it locally.
    Ready(Handle),
    /// Stop: finish the queued tasks by force-unwind and exit.
    Shutdown,
}

/// A weak reference to a processor, held as its id; upgrading
/// checks the id against the scheduler's processor arena.
#[derive(Clone, Copy, PartialEq, Eq, Structural, Debug)]
pub struct WeakProcessor {
    pub id: usize,
}

impl WeakProcessor {
    /// The processor id this weak reference names, if it is below the
    /// bound `n_procs` of live processors.
    pub fn upgrade(&self, n_procs: usize) -> (r: Option<usize>)
        ensures
            r == if self.id < n_procs { Some(self.id) } else { None::<usize> },
    {
        if self.id < n_procs {
            Some(self.id)
        } else {
            None
        }
    }
}

/// Processing unit of one worker thread.
///
/// The run queue is a worker-end stack: the worker pushes and pops at
/// the back, and stealers take the oldest entry at the front.
pub struct Processor {
    pub id: usize,
    /// Local run queue; back is the worker end.
    pub run_queue: Vec<Handle>,
    /// Ids of sibling processors this one may steal from.
    pub neighbor_stealers: Vec<usize>,
    /// Pending control messages, oldest first.
    pub inbox: Vec<ProcMessage>,
    /// The task currently executing on this processor, if any.
    pub current_coro: Option<Handle>,
    /// The yield reason the last resumed task reported.
    pub last_state: State,
    pub is_exiting: bool,
}

impl Processor {
    pub fn new(id: usize) -> (r: Processor)
        ensures
            r.id == id,
            r.run_queue@.len() == 0,
            r.neighbor_stealers@.len() == 0,
            r.inbox@.len() == 0,
            r.current_coro is None,
            r.last_state == State::Suspended,
            !r.is_exiting,
    {
        Processor {
            id,
            run_queue: Vec::new(),
            neighbor_stealers: Vec::new(),
            inbox: Vec::new(),
            current_coro: None,
            last_state: State::Suspended,
            is_exiting: false,
        }
    }
}

} // verus!
