//! Timestamp formatting for incident lines in the digest.
//!
//! Timestamps are plain milliseconds since the Unix epoch throughout the
//! library; only the final human-readable rendering is delegated to chrono.

use vstd::prelude::*;

verus! {

/// Largest timestamp the library works with: the last millisecond of year
/// 9999, comfortably inside the range chrono can represent.
pub const MAX_TIMESTAMP_MS: u64 = 253402300799999;

/// The text chrono produces for a timestamp under the day/month/year
/// hour:minute AM/PM format used in incident lines. The rendering depends on
/// the timestamp alone.
pub uninterp spec fn spec_time_text(ms: u64) -> Seq<char>;

/// Relies on chrono's `DateTime::<Utc>::from_timestamp_millis` (defined for
/// every timestamp up to `MAX_TIMESTAMP_MS`) and `format("%d/%m/%Y %I:%M %p")`,
/// whose output is a fixed-layout function of the timestamp alone.
#[verifier::external_body]
pub fn format_time(ms: u64) -> (r: String)
    requires
        ms <= MAX_TIMESTAMP_MS,
    ensures
        r@ == spec_time_text(ms),
{
    let dt = chrono::DateTime::<chrono::Utc>::from_timestamp_millis(ms as i64).unwrap();
    dt.format("%d/%m/%Y %I:%M %p").to_string()
}

} // verus!
