//! The bounded-retry fetch policy.
//!
//! The application performs the actual network attempts; this module decides,
//! after each attempt, whether the response is to be delivered, the attempt
//! retried after the fixed delay, or the fetch given up. An attempt succeeds
//! only if the transport call succeeded and the status is in the success
//! range; every other outcome is retried identically (a permanent status is
//! retried like a transient one — a known simplification of the policy, not
//! to be corrected silently). After `FETCH_MAX_ATTEMPTS` total attempts the
//! fetch fails as a transport error.

use vstd::prelude::*;
use crate::errors::HarvestError;

verus! {

/// Total attempts a fetch makes before giving up.
pub const FETCH_MAX_ATTEMPTS: u64 = 5;

/// Seconds to wait between attempts.
pub const FETCH_RETRY_DELAY_SECS: u64 = 1;

/// What one network attempt came back with.
#[derive(Debug, Clone, Copy, PartialEq, Eq, Structural)]
pub enum AttemptOutcome {
    /// The transport call succeeded with this status code.
    Response(u16),
    /// The transport call itself failed.
    TransportFailure,
}

/// What the fetcher does after an attempt.
#[derive(Debug, Clone, Copy, PartialEq, Eq, Structural)]
pub enum FetchStep {
    /// Success: hand the response to the caller.
    Deliver,
    /// Wait the fixed delay, then try again.
    RetryAfterDelay,
    /// Attempts exhausted: report the failure, always as a transport error
    /// (no distinction is kept between transport failures and bad statuses).
    GiveUp(HarvestError),
}

/// A status code in the success range.
pub open spec fn spec_success_status(code: u16) -> bool {
    200 <= code < 300
}

/// An attempt succeeds only if the transport call succeeded and the status
/// is in the success range.
pub open spec fn attempt_succeeds(o: AttemptOutcome) -> bool {
    o matches AttemptOutcome::Response(code) && spec_success_status(code)
}

/// Whether a status code is in the success range.
pub fn is_success_status(code: u16) -> (r: bool)
    ensures
        r == spec_success_status(code),
{
    200 <= code && code < 300
}

/// Whether one attempt's outcome counts as success.
pub fn attempt_succeeded(o: &AttemptOutcome) -> (r: bool)
    ensures
        r == attempt_succeeds(*o),
{
    match o {
        AttemptOutcome::Response(code) => is_success_status(*code),
        AttemptOutcome::TransportFailure => false,
    }
}

/// Decides the fetcher's next step after the attempt numbered
/// `attempts_used` (counting from 0) out of `max_attempts` came back with
/// `outcome`: deliver on success, retry while attempts remain, give up on
/// the last failure.
pub fn next_fetch_step(outcome: &AttemptOutcome, attempts_used: u64, max_attempts: u64) -> (r:
    FetchStep)
    requires
        attempts_used < max_attempts,
    ensures
        attempt_succeeds(*outcome) ==> r is Deliver,
        !attempt_succeeds(*outcome) && attempts_used + 1 < max_attempts ==> r is RetryAfterDelay,
        !attempt_succeeds(*outcome) && attempts_used + 1 == max_attempts ==> r == FetchStep::GiveUp(
            HarvestError::Transport,
        ),
{
    if attempt_succeeded(outcome) {
        FetchStep::Deliver
    } else if attempts_used + 1 < max_attempts {
        FetchStep::RetryAfterDelay
    } else {
        FetchStep::GiveUp(HarvestError::Transport)
    }
}

} // verus!
