use std::sync::atomic::AtomicBool;
use std::sync::atomic::Ordering;
use std::sync::Arc;
use vstd::prelude::*;

verus! {

/// The outcome of polling a cancellation signal that has been raised.
#[derive(Debug, Clone, Copy, PartialEq, Eq, Structural)]
pub struct Cancelled;

/// Turns the value read from a running flag into the outcome of the poll: the
/// flag is `true` while work may go on and `false` once it has been cancelled.
pub fn running_status(flag: bool) -> (status: Result<(), Cancelled>)
    ensures
        status.is_ok() == flag,
{
    if !flag {
        Err(Cancelled)
    } else {
        Ok(())
    }
}

/// Polls the shared running flag once.
///
/// The flag may be cleared at any moment by whoever else holds it, for instance
/// an interrupt handler, so nothing is promised about the outcome: two polls of
/// the same flag may differ. What the outcome is for each value read is stated
/// by `running_status`.
pub fn check_running(running: &Arc<AtomicBool>) -> (status: Result<(), Cancelled>) {
    running_status(running.load(Ordering::SeqCst))
}

} // verus!
