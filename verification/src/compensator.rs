//! Latency compensation: advance an accepted timestamp by the time that
//! elapsed between reception of its sentence and application to the clock.

use vstd::prelude::*;

verus! {

/// The corrected clock value: the decoded candidate instant plus the
/// milliseconds that elapsed since its receipt mark. With zero elapsed time
/// the candidate is returned exactly.
pub fn correct(candidate_ms: i64, elapsed_ms: u64) -> (r: i64)
    requires
        candidate_ms + elapsed_ms <= i64::MAX,
    ensures
        r == candidate_ms + elapsed_ms,
        elapsed_ms == 0 ==> r == candidate_ms,
{
    let sum: i128 = candidate_ms as i128 + elapsed_ms as i128;
    sum as i64
}

} // verus!
