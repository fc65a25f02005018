//! Keeping a second copy of the application from running.
//!
//! The operating system is asked for a named mutex; what its answer means is
//! decided here.
use vstd::prelude::*;

verus! {

/// The error code the operating system reports when the named mutex existed already.
pub const ERROR_ALREADY_EXISTS: u32 = 183;

/// What asking for the named mutex came to.
#[derive(Debug, Clone, Copy, PartialEq, Eq, Structural)]
pub enum AcquireOutcome {
    /// No handle was given: the request failed.
    Failed,
    /// A handle was given but the mutex existed: another copy runs; the handle is
    /// closed again.
    AlreadyRunning,
    /// This copy holds the mutex.
    Acquired,
}

/// The outcome of asking for the named mutex, given whether a handle came back and the
/// last error code reported after the request.
pub fn acquire_outcome(handle_created: bool, last_error: u32) -> (res: AcquireOutcome)
    ensures
        !handle_created ==> res == AcquireOutcome::Failed,
        handle_created && last_error == ERROR_ALREADY_EXISTS ==> res == AcquireOutcome::AlreadyRunning,
        handle_created && last_error != ERROR_ALREADY_EXISTS ==> res == AcquireOutcome::Acquired,
{
    if !handle_created {
        AcquireOutcome::Failed
    } else if last_error == ERROR_ALREADY_EXISTS {
        AcquireOutcome::AlreadyRunning
    } else {
        AcquireOutcome::Acquired
    }
}

} // verus!
