//! The store as a whole, and the monitor's check cycle.
//!
//! `Db` gathers the three tables the durable store serves: endpoints, the
//! incident log and the digest metadata. `check_url_status` is one full
//! monitor decision: it reads the endpoint's stored status (creating the row
//! lazily), feeds it with the probe outcome to the transition evaluator, and
//! applies the decided writes, handing back the alert to send, if any.
//! `monitor_cycle` puts the latency bookkeeping of a successful probe in
//! front of that decision.

use vstd::prelude::*;
use vstd::string::StringExecFns;
use crate::endpoint::{
    lemma_apply_latency_frame, lemma_ensure_row_wf, lemma_find_url, lemma_mark_down_wf,
    lemma_mark_up_wf, spec_apply_latency, spec_ensure_row, spec_find_url, spec_mark_down,
    spec_mark_up, spec_pending_row, spec_status_of, EndpointModel, EndpointV,
};
use crate::incident::{IncidentModel, IncidentV};
use crate::metadata::MetadataModel;
use crate::status::{evaluate, spec_evaluate, spec_notifies, Status, Transition};
use crate::timefmt::MAX_TIMESTAMP_MS;
use crate::url::{spec_strip_prefix, Url};

verus! {

/// The message an incident is recorded with.
pub open spec fn spec_incident_message(url: Seq<char>) -> Seq<char> {
    spec_strip_prefix(url) + " was down!"@
}

/// The alert sent when an endpoint recovers.
pub open spec fn spec_recovery_message(url: Seq<char>) -> Seq<char> {
    "✅ "@ + url + " is up again!"@
}

/// The alert sent when an endpoint goes down.
pub open spec fn spec_down_message(url: Seq<char>) -> Seq<char> {
    "❌ "@ + url + " is down!"@
}

/// Builds the incident message for `url`.
fn incident_message(url: &Url) -> (r: String)
    ensures
        r@ == spec_incident_message(url@),
{
    let mut m = url.strip_prefix().to_owned();
    m.append(" was down!");
    proof {
        assert(m@ =~= spec_incident_message(url@));
    }
    m
}

/// Builds the recovery alert for `url`.
fn recovery_message(url: &Url) -> (r: String)
    ensures
        r@ == spec_recovery_message(url@),
{
    let mut m = "✅ ".to_owned();
    m.append(url.as_str());
    m.append(" is up again!");
    proof {
        assert(m@ =~= spec_recovery_message(url@));
    }
    m
}

/// Builds the down alert for `url`.
fn down_message(url: &Url) -> (r: String)
    ensures
        r@ == spec_down_message(url@),
{
    let mut m = "❌ ".to_owned();
    m.append(url.as_str());
    m.append(" is down!");
    proof {
        assert(m@ =~= spec_down_message(url@));
    }
    m
}

/// What one check cycle decided: the transition taken and the alert to send,
/// if the transition calls for one.
pub struct CheckOutcome {
    pub transition: Transition,
    pub notification: Option<String>,
}

/// The store: the three tables the monitor works against.
#[derive(Debug)]
pub struct Db {
    pub endpoint: EndpointModel,
    pub incident: IncidentModel,
    pub metadata: MetadataModel,
}

impl Db {
    /// All tables well formed.
    pub open spec fn wf(&self) -> bool {
        &&& self.endpoint.wf()
        &&& self.incident.wf()
    }

    /// A fresh store for a configuration: one `Pending` endpoint per distinct
    /// URL, an empty incident log, and the persisted digest send time (absent
    /// on a first start).
    pub fn new(urls: &Vec<Url>, now: u64, last_sent: Option<u64>) -> (r: Db)
        ensures
            r.endpoint@.len() == crate::endpoint::spec_first_occurrences(
                urls@.map_values(|u: Url| u@),
            ).len(),
            forall|i: int|
                0 <= i < r.endpoint@.len() ==> #[trigger] r.endpoint@[i] == spec_pending_row(
                    crate::endpoint::spec_first_occurrences(urls@.map_values(|u: Url| u@))[i],
                    now,
                ),
            r.incident@ =~= Seq::<IncidentV>::empty(),
            r.incident.next_id == 0,
            r.metadata.last_update_sent_at == last_sent,
            r.wf(),
    {
        Db {
            endpoint: EndpointModel::new(urls, now),
            incident: IncidentModel::new(),
            metadata: MetadataModel::new(last_sent),
        }
    }

    /// Writes `url` up with a fresh uptime timestamp. Touches nothing else.
    pub fn set_status_up(&mut self, url: &str, now: u64)
        requires
            old(self).wf(),
        ensures
            final(self).endpoint@ =~= spec_mark_up(old(self).endpoint@, url@, now),
            final(self).incident == old(self).incident,
            final(self).metadata == old(self).metadata,
            final(self).wf(),
    {
        proof {
            lemma_mark_up_wf(self.endpoint@, url@, now);
        }
        self.endpoint.mark_up(url, now);
    }

    /// Writes `url` down with its uptime timestamp cleared, and records one
    /// incident for the episode.
    pub fn set_status_down(&mut self, url: &Url, now: u64)
        requires
            old(self).wf(),
            old(self).incident.next_id < u64::MAX,
            now <= MAX_TIMESTAMP_MS,
        ensures
            final(self).endpoint@ =~= spec_mark_down(old(self).endpoint@, url@),
            final(self).incident@ =~= old(self).incident@.push(
                IncidentV {
                    id: old(self).incident.next_id,
                    url: url@,
                    message: spec_incident_message(url@),
                    created_at: now,
                },
            ),
            final(self).incident.next_id == old(self).incident.next_id + 1,
            final(self).metadata == old(self).metadata,
            final(self).wf(),
    {
        proof {
            lemma_mark_down_wf(self.endpoint@, url@);
        }
        self.endpoint.mark_down(url.as_str());
        let message = incident_message(url);
        self.incident.record(url, message, now);
    }

    /// One monitor decision: evaluates the probe outcome against the stored
    /// status, applies the decided writes, and hands back the alert to send.
    /// The digest metadata is never touched here.
    pub fn check_url_status(&mut self, url: &Url, probe_succeeded: bool, now: u64) -> (r:
        CheckOutcome)
        requires
            old(self).wf(),
            old(self).incident.next_id < u64::MAX,
            now <= MAX_TIMESTAMP_MS,
        ensures
            ({
                let eps0 = spec_ensure_row(old(self).endpoint@, url@, now);
                let prev = spec_status_of(old(self).endpoint@, url@);
                let t = spec_evaluate(prev, probe_succeeded);
                &&& r.transition == t
                &&& final(self).endpoint@ =~= (match t {
                    Transition::StayUp => eps0,
                    Transition::StayDown => eps0,
                    Transition::BecomeUp => spec_mark_up(eps0, url@, now),
                    Transition::BecomeDown => spec_mark_down(eps0, url@),
                })
                &&& (t == Transition::BecomeDown ==> final(self).incident@ =~= old(
                    self,
                ).incident@.push(
                    IncidentV {
                        id: old(self).incident.next_id,
                        url: url@,
                        message: spec_incident_message(url@),
                        created_at: now,
                    },
                ) && final(self).incident.next_id == old(self).incident.next_id + 1)
                &&& (t != Transition::BecomeDown ==> final(self).incident == old(self).incident)
                &&& final(self).metadata == old(self).metadata
                &&& (r.notification is Some <==> spec_notifies(prev, probe_succeeded))
                &&& (match r.notification {
                    Some(m) => m@ == if probe_succeeded {
                        spec_recovery_message(url@)
                    } else {
                        spec_down_message(url@)
                    },
                    None => true,
                })
                &&& final(self).wf()
            }),
    {
        proof {
            lemma_ensure_row_wf(self.endpoint@, url@, now);
        }
        let ep = self.endpoint.get(url, now);
        proof {
            lemma_find_url(old(self).endpoint@, url@);
        }
        let t = evaluate(ep.status, probe_succeeded);
        let notification = match t {
            Transition::StayUp => None,
            Transition::StayDown => None,
            Transition::BecomeUp => {
                self.set_status_up(url.as_str(), now);
                if ep.status == Status::Down {
                    Some(recovery_message(url))
                } else {
                    None
                }
            },
            Transition::BecomeDown => {
                let m = down_message(url);
                self.set_status_down(url, now);
                Some(m)
            },
        };
        CheckOutcome { transition: t, notification }
    }

    /// One whole monitor cycle against the store: on a successful probe the
    /// observed latency enters the tracker first, then the transition is
    /// evaluated against the stored status and applied.
    pub fn monitor_cycle(&mut self, url: &Url, probe_succeeded: bool, latency: u64, now: u64) -> (r:
        CheckOutcome)
        requires
            old(self).wf(),
            old(self).incident.next_id < u64::MAX,
            now <= MAX_TIMESTAMP_MS,
        ensures
            ({
                let epsl = if probe_succeeded {
                    spec_apply_latency(old(self).endpoint@, url@, latency)
                } else {
                    old(self).endpoint@
                };
                let eps0 = spec_ensure_row(epsl, url@, now);
                let prev = spec_status_of(old(self).endpoint@, url@);
                let t = spec_evaluate(prev, probe_succeeded);
                &&& r.transition == t
                &&& final(self).endpoint@ =~= (match t {
                    Transition::StayUp => eps0,
                    Transition::StayDown => eps0,
                    Transition::BecomeUp => spec_mark_up(eps0, url@, now),
                    Transition::BecomeDown => spec_mark_down(eps0, url@),
                })
                &&& (t == Transition::BecomeDown ==> final(self).incident@ =~= old(
                    self,
                ).incident@.push(
                    IncidentV {
                        id: old(self).incident.next_id,
                        url: url@,
                        message: spec_incident_message(url@),
                        created_at: now,
                    },
                ) && final(self).incident.next_id == old(self).incident.next_id + 1)
                &&& (t != Transition::BecomeDown ==> final(self).incident == old(self).incident)
                &&& final(self).metadata == old(self).metadata
                &&& (r.notification is Some <==> spec_notifies(prev, probe_succeeded))
                &&& (match r.notification {
                    Some(m) => m@ == if probe_succeeded {
                        spec_recovery_message(url@)
                    } else {
                        spec_down_message(url@)
                    },
                    None => true,
                })
                &&& final(self).wf()
            }),
    {
        if probe_succeeded {
            proof {
                lemma_apply_latency_frame(self.endpoint@, url@, latency);
            }
            self.endpoint.relative_max_latency_update(url.as_str(), latency);
        }
        self.check_url_status(url, probe_succeeded, now)
    }
}

/// The first successful probe of a `Pending` endpoint makes it `Up` with a
/// fresh uptime timestamp and sends no notification.
pub proof fn lemma_pending_first_success(eps: Seq<EndpointV>, url: Seq<char>, now: u64)
    requires
        spec_status_of(eps, url) == Status::Pending,
    ensures
        spec_evaluate(spec_status_of(eps, url), true) == Transition::BecomeUp,
        !spec_notifies(spec_status_of(eps, url), true),
        ({
            let eps0 = spec_ensure_row(eps, url, now);
            let eps1 = spec_mark_up(eps0, url, now);
            let k = spec_find_url(eps0, url);
            &&& 0 <= k < eps1.len()
            &&& eps1[k].status == Status::Up
            &&& eps1[k].uptime_at == Some(now)
        }),
{
    lemma_find_url(eps, url);
    let eps0 = spec_ensure_row(eps, url, now);
    lemma_find_url(eps0, url);
    if spec_find_url(eps, url) == -1 {
        assert(eps0[eps.len() as int].url == url);
        assert(spec_find_url(eps0, url) != -1);
    }
}

/// A `Down` endpoint whose probe succeeds recovers: exactly its row is
/// rewritten, to `Up` with a fresh uptime timestamp, every other row is left
/// alone, and exactly one notification goes out.
pub proof fn lemma_down_recovery(eps: Seq<EndpointV>, url: Seq<char>, now: u64)
    requires
        spec_status_of(eps, url) == Status::Down,
    ensures
        spec_evaluate(spec_status_of(eps, url), true) == Transition::BecomeUp,
        spec_notifies(spec_status_of(eps, url), true),
        spec_ensure_row(eps, url, now) == eps,
        ({
            let eps1 = spec_mark_up(eps, url, now);
            let k = spec_find_url(eps, url);
            &&& 0 <= k < eps.len()
            &&& eps1.len() == eps.len()
            &&& eps1[k].status == Status::Up
            &&& eps1[k].uptime_at == Some(now)
            &&& forall|j: int| 0 <= j < eps.len() && j != k ==> eps1[j] == eps[j]
        }),
{
    lemma_find_url(eps, url);
}

/// A failing probe of an endpoint already `Down` changes nothing: no write,
/// no new incident, no notification.
pub proof fn lemma_down_failure_idempotent(eps: Seq<EndpointV>, url: Seq<char>, now: u64)
    requires
        spec_status_of(eps, url) == Status::Down,
    ensures
        spec_evaluate(spec_status_of(eps, url), false) == Transition::StayDown,
        !spec_notifies(spec_status_of(eps, url), false),
        spec_ensure_row(eps, url, now) == eps,
{
    lemma_find_url(eps, url);
}

} // verus!
