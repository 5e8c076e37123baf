//! Probe scoring: which HTTP answers count as "alive", and what a bounded
//! sequence of attempts amounts to.
//!
//! The transport itself (requests, timeouts, the backoff sleeps between
//! attempts) lives outside the library; it hands in one record per attempt.

use vstd::prelude::*;

verus! {

/// What one probe attempt observed: the HTTP status code, or nothing when
/// the attempt failed to connect or timed out, and the wall-clock latency of
/// the attempt in milliseconds.
#[derive(Clone, Copy, Debug)]
pub struct ProbeAttempt {
    pub status: Option<u16>,
    pub latency: u64,
}

/// Whether an observed answer scores the attempt successful: any status in
/// the success range, or 429 — a rate-limited server is alive, not down. No
/// answer at all is a failed attempt.
pub open spec fn spec_attempt_success(status: Option<u16>) -> bool {
    match status {
        Some(code) => (200 <= code < 300) || code == 429,
        None => false,
    }
}

/// Scores one probe attempt.
pub fn attempt_succeeded(status: Option<u16>) -> (r: bool)
    ensures
        r == spec_attempt_success(status),
{
    match status {
        Some(code) => (200 <= code && code < 300) || code == 429,
        None => false,
    }
}

/// The first successful attempt, searching from `i`; `-1` when every attempt
/// from `i` on failed.
pub open spec fn spec_first_success_from(attempts: Seq<ProbeAttempt>, i: int) -> int
    decreases attempts.len() - i,
{
    if i < 0 || i >= attempts.len() {
        -1
    } else if spec_attempt_success(attempts[i].status) {
        i
    } else {
        spec_first_success_from(attempts, i + 1)
    }
}

/// The index of the first successful attempt, or `-1`.
pub open spec fn spec_first_success(attempts: Seq<ProbeAttempt>) -> int {
    spec_first_success_from(attempts, 0)
}

/// The verdict of one bounded probe: success as soon as one attempt
/// succeeded, failure only when every attempt failed; the reported latency
/// belongs to the first successful attempt, or to the last attempt when all
/// failed.
pub fn probe_verdict(attempts: &Vec<ProbeAttempt>) -> (r: (bool, u64))
    requires
        attempts@.len() >= 1,
    ensures
        r.0 == (spec_first_success(attempts@) != -1),
        r.0 ==> r.1 == attempts@[spec_first_success(attempts@)].latency,
        !r.0 ==> r.1 == attempts@.last().latency,
{
    let ghost all = attempts@;
    let mut i: usize = 0;
    while i < attempts.len()
        invariant
            0 <= i <= all.len(),
            all == attempts@,
            spec_first_success_from(all, 0) == spec_first_success_from(all, i as int),
            forall|j: int| 0 <= j < i ==> !spec_attempt_success(all[j].status),
        decreases all.len() - i,
    {
        if attempt_succeeded(attempts[i].status) {
            return (true, attempts[i].latency);
        }
        i = i + 1;
    }
    (false, attempts[attempts.len() - 1].latency)
}

} // verus!
