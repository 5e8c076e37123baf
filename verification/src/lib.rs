//! Verified core of an HTTP endpoint monitor.
//!
//! The library models the monitor's durable state (endpoint statuses, the
//! incident log and the digest metadata), the transition state machine that
//! turns noisy probe results into status changes and alerts, and the
//! composition of the periodic digest report. Everything here is pure logic
//! over plain values; the surrounding process supplies probe results,
//! timestamps and I/O.

use vstd::prelude::*;

pub mod bot;
pub mod db;
pub mod digest;
pub mod endpoint;
pub mod incident;
pub mod metadata;
pub mod probe;
pub mod status;
pub mod text;
pub mod timefmt;
pub mod url;

verus! {

/// Default probe period in milliseconds (one minute).
pub const DEFAULT_INTERVAL: u64 = 60000;

/// Period of the aggregate digest in milliseconds (24 hours).
pub const UPDATE_INTERVAL: u64 = 86400000;

} // verus!
