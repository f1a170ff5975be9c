//! A user-space M:N coroutine runtime core, written as an explicit
//! state machine so that its scheduling and channel logic is verified.
//!
//! Lightweight tasks are multiplexed onto a pool of processors with
//! per-processor run queues, work stealing, inter-processor control
//! messages and a readiness/timer I/O driver.  The cyclic structure of
//! a live runtime (processors, coroutines, wait structures) is held as
//! plain data: arenas keyed by integer handles, with weak references
//! as ids.  Every transition — spawning, yielding, parking, waking,
//! stealing, shutdown — is a verified function of the scheduler, and
//! each preserves the cornerstone invariant that every live handle is
//! in exactly one location: a run queue, an inbox message, a current
//! slot, a channel wait list or the parked table.
//!
//! A driver (an embedding program or a test) owns the scheduler value
//! and turns the crank: `schedule_step` says which task runs next, the
//! driver performs that task's work through the channel and I/O
//! operations, and each such operation either completes or parks the
//! task and hands control back.  What cannot stand here — OS threads,
//! the stackful context switch, the event loop's blocking poll — lives
//! outside, behind this same step interface.
//!
//! Modules: `coroutine` holds the task records and their arena;
//! `processor` the per-worker state; `scheduler` the transitions, the
//! invariant and its laws; `sync::mpsc` the coroutine-aware channels;
//! `io` the adapter timeout contract; `net` the non-blocking socket
//! and pipe adapters over the event library.

pub mod coroutine;
pub mod io;
pub mod net;
pub mod processor;
pub mod scheduler;
pub mod sync;
