//! Synchronization primitives built on the scheduler's park/unpark
//! mechanism.

pub mod mpsc;
