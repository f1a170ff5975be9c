//! The contract every descriptor-bearing adapter implements: an
//! optional per-operation timeout in milliseconds, and a slot that
//! remembers the timer the I/O driver armed for the operation in
//! flight, so the next successful operation can cancel it.

use vstd::prelude::*;

verus! {

pub trait Io {
    /// The configured per-operation timeout in milliseconds, if any.
    spec fn timeout_spec(&self) -> Option<u64>;

    /// The registration token of the armed timer, if one is saved.
    spec fn saved_timer_spec(&self) -> Option<u64>;

    /// Configure the per-operation timeout.
    fn set_timeout(&mut self, timeout: Option<u64>)
        ensures
            final(self).timeout_spec() == timeout,
            final(self).saved_timer_spec() == old(self).saved_timer_spec(),
    ;

    /// Read the configured per-operation timeout.
    fn timeout(&self) -> (r: Option<u64>)
        ensures
            r == self.timeout_spec(),
    ;

    /// Remember the timer the driver armed for the operation in
    /// flight.
    fn save_timeout(&mut self, token: u64)
        ensures
            final(self).saved_timer_spec() == Some(token),
            final(self).timeout_spec() == old(self).timeout_spec(),
    ;

    /// Take the remembered timer out, so it can be cancelled after a
    /// successful operation.
    fn take_timeout(&mut self) -> (r: Option<u64>)
        ensures
            r == old(self).saved_timer_spec(),
            final(self).saved_timer_spec() is None,
            final(self).timeout_spec() == old(self).timeout_spec(),
    ;
}

} // verus!
