//! The digest metadata singleton: when the last digest went out, and the
//! crash-resilient computation of how long to wait until the next one is due.

use vstd::prelude::*;
use crate::UPDATE_INTERVAL;

verus! {

/// How long after `now` the next digest is due, given the period and the
/// persisted send time of the last digest. A digest that never went out is
/// due at once; one sent a full period ago or earlier is due at once; one
/// sent more recently is due when its period completes. A send time ahead of
/// the clock pushes the due time out by the difference, capped at the largest
/// expressible wait.
pub open spec fn spec_due_in(period: u64, now: u64, last: Option<u64>) -> int {
    match last {
        None => 0,
        Some(l) => {
            if l <= now {
                if now - l >= period {
                    0
                } else {
                    period - (now - l)
                }
            } else {
                if period + (l - now) <= u64::MAX {
                    period + (l - now)
                } else {
                    u64::MAX as int
                }
            }
        },
    }
}

/// Computes the wait until the next digest is due.
pub fn digest_due_in(period: u64, now: u64, last: Option<u64>) -> (r: u64)
    ensures
        r == spec_due_in(period, now, last),
{
    match last {
        None => 0,
        Some(l) => {
            if l <= now {
                let elapsed = now - l;
                if elapsed >= period {
                    0
                } else {
                    period - elapsed
                }
            } else {
                let ahead = l - now;
                if ahead <= u64::MAX - period {
                    period + ahead
                } else {
                    u64::MAX
                }
            }
        },
    }
}

/// The send time recovers the due time across a restart: a digest sent
/// `period - d` before `now` comes due in exactly `d`, not in a full period.
pub proof fn lemma_due_recovers_after_restart(period: u64, now: u64, l: u64, d: u64)
    requires
        d <= period,
        l <= now,
        now - l == period - d,
    ensures
        spec_due_in(period, now, Some(l)) == d as int,
{
}

/// The digest metadata singleton.
#[derive(Debug)]
pub struct MetadataModel {
    pub last_update_sent_at: Option<u64>,
}

impl MetadataModel {
    /// Adopts the persisted send time of the last digest; `None` means a
    /// digest never went out.
    pub fn new(persisted: Option<u64>) -> (r: MetadataModel)
        ensures
            r.last_update_sent_at == persisted,
    {
        MetadataModel { last_update_sent_at: persisted }
    }

    /// The send time of the last digest, if one went out.
    pub fn get(&self) -> (r: Option<u64>)
        ensures
            r == self.last_update_sent_at,
    {
        self.last_update_sent_at
    }

    /// Records that a digest went out at `now`.
    pub fn update_last_sent_at(&mut self, now: u64)
        ensures
            final(self).last_update_sent_at == Some(now),
    {
        self.last_update_sent_at = Some(now);
    }

    /// The wait until the next digest is due, under the fixed digest period.
    pub fn interval(&self, now: u64) -> (r: u64)
        ensures
            r == spec_due_in(UPDATE_INTERVAL, now, self.last_update_sent_at),
    {
        digest_due_in(UPDATE_INTERVAL, now, self.last_update_sent_at)
    }
}

} // verus!
