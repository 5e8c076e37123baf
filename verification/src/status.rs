//! Endpoint status and the transition state machine.
//!
//! `evaluate` is the pure decision heart of the monitor: from the stored
//! status of an endpoint and the outcome of one probe it decides the next
//! status, whether a new incident must be recorded and whether an alert must
//! be sent. The three statuses and two probe outcomes make the table below
//! complete; there is no other state.

use vstd::prelude::*;
use crate::text::str_eq;

verus! {

/// Health of one monitored endpoint as recorded in the store.
/// `Pending` holds only before the first probe of the endpoint completes.
#[derive(Clone, Copy, Debug, PartialEq, Eq, Structural)]
pub enum Status {
    Up,
    Down,
    Pending,
}

/// The status a stored status code decodes to: anything but the two known
/// codes reads as `Pending`.
pub open spec fn spec_status_from_code(s: Seq<char>) -> Status {
    if s == "UP"@ {
        Status::Up
    } else if s == "DOWN"@ {
        Status::Down
    } else {
        Status::Pending
    }
}

/// The code a status is stored under.
pub open spec fn spec_status_code(s: Status) -> Seq<char> {
    match s {
        Status::Up => "UP"@,
        Status::Down => "DOWN"@,
        Status::Pending => "PENDING"@,
    }
}

impl Status {
    /// Decodes a stored status code.
    pub fn from_code(s: &str) -> (r: Status)
        ensures
            r == spec_status_from_code(s@),
    {
        if str_eq(s, "UP") {
            Status::Up
        } else if str_eq(s, "DOWN") {
            Status::Down
        } else {
            Status::Pending
        }
    }

    /// The code this status is stored under.
    pub fn as_code(&self) -> (r: &'static str)
        ensures
            r@ == spec_status_code(*self),
    {
        match self {
            Status::Up => "UP",
            Status::Down => "DOWN",
            Status::Pending => "PENDING",
        }
    }
}

impl From<String> for Status {
    /// Decodes a stored status code, as read back from the store.
    fn from(s: String) -> (r: Status)
        ensures
            r == spec_status_from_code(s@),
    {
        Status::from_code(s.as_str())
    }
}

impl vstd::std_specs::convert::FromSpecImpl<String> for Status {
    open spec fn obeys_from_spec() -> bool {
        true
    }

    open spec fn from_spec(s: String) -> Status {
        spec_status_from_code(s@)
    }
}

/// What one probe outcome does to one endpoint: the four possible moves of
/// the state machine.
#[derive(Clone, Copy, Debug, PartialEq, Eq, Structural)]
pub enum Transition {
    /// Was `Up`, probe succeeded: nothing to write, nothing to send.
    StayUp,
    /// Was `Pending` or `Down`, probe succeeded: write `Up` with a fresh
    /// uptime timestamp; alert only when recovering from `Down`.
    BecomeUp,
    /// Was `Down`, probe failed: already alerted, stay silent.
    StayDown,
    /// Was `Pending` or `Up`, probe failed: write `Down`, record one
    /// incident, send one alert.
    BecomeDown,
}

/// The decision table as a spec-level function.
pub open spec fn spec_evaluate(previous: Status, probe_succeeded: bool) -> Transition {
    if probe_succeeded {
        if previous == Status::Up {
            Transition::StayUp
        } else {
            Transition::BecomeUp
        }
    } else {
        if previous == Status::Down {
            Transition::StayDown
        } else {
            Transition::BecomeDown
        }
    }
}

/// Whether the transition sends a notification: recoveries from `Down` and
/// fresh failures alert; a first-ever `Up` and repeats are silent.
pub open spec fn spec_notifies(previous: Status, probe_succeeded: bool) -> bool {
    match spec_evaluate(previous, probe_succeeded) {
        Transition::StayUp => false,
        Transition::BecomeUp => previous == Status::Down,
        Transition::StayDown => false,
        Transition::BecomeDown => true,
    }
}

/// Decides, from the stored status and one probe outcome, what happens to the
/// endpoint.
pub fn evaluate(previous: Status, probe_succeeded: bool) -> (t: Transition)
    ensures
        t == spec_evaluate(previous, probe_succeeded),
        (t == Transition::StayUp) <==> (previous == Status::Up && probe_succeeded),
        (t == Transition::BecomeUp) <==> (previous != Status::Up && probe_succeeded),
        (t == Transition::StayDown) <==> (previous == Status::Down && !probe_succeeded),
        (t == Transition::BecomeDown) <==> (previous != Status::Down && !probe_succeeded),
{
    if probe_succeeded {
        if previous == Status::Up {
            Transition::StayUp
        } else {
            Transition::BecomeUp
        }
    } else {
        if previous == Status::Down {
            Transition::StayDown
        } else {
            Transition::BecomeDown
        }
    }
}

/// The first successful probe of a `Pending` endpoint brings it `Up` and
/// sends no notification: there was nothing to recover from.
pub proof fn lemma_first_up_is_silent()
    ensures
        spec_evaluate(Status::Pending, true) == Transition::BecomeUp,
        !spec_notifies(Status::Pending, true),
{
}

/// A recovery, and only a recovery, notifies on success; a fresh failure, and
/// only a fresh failure, notifies on failure.
pub proof fn lemma_notification_discipline(previous: Status, probe_succeeded: bool)
    ensures
        probe_succeeded ==> (spec_notifies(previous, probe_succeeded) <==> previous
            == Status::Down),
        !probe_succeeded ==> (spec_notifies(previous, probe_succeeded) <==> previous
            != Status::Down),
{
}

} // verus!
