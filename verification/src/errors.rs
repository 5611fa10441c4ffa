//! Failure taxonomy of the coordination core.
//!
//! Device and network failures abort only the request they hit and surface
//! as an error value to its caller. Cancellation is deliberately absent
//! here: it is a normal terminal outcome and produces an empty success
//! value, never an error.

use vstd::prelude::*;

verus! {

/// Why a single request failed.
#[derive(Debug)]
pub enum CoreError {
    /// An audio device is missing or busy.
    ResourceUnavailable { detail: String },
    /// A vendor call answered with a non-success status; the status and
    /// response body ride along for the caller.
    UpstreamFailure { status: u16, body: String },
    /// The connection dropped before a terminal marker or a natural end.
    StreamTerminatedEarly,
    /// A coordination primitive was left inconsistent by an abnormally
    /// exited peer; fatal only to the current operation.
    SharedStateUnavailable { detail: String },
}

/// Gate a vendor response: success is owed exactly on status 200, and any
/// other status becomes an upstream failure carrying that status and the
/// response body.
pub fn check_upstream_status(status: u16, body: String) -> (r: Result<(), CoreError>)
    ensures
        status == 200 <==> r is Ok,
        status != 200 ==> r == Result::<(), CoreError>::Err(
            CoreError::UpstreamFailure { status, body },
        ),
{
    if status == 200 {
        Ok(())
    } else {
        Err(CoreError::UpstreamFailure { status, body })
    }
}

} // verus!
