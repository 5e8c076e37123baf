//! Composition of the periodic digest: one status line per endpoint, one
//! line per unreported incident, and the bookkeeping a successful send
//! performs.

use vstd::prelude::*;
use vstd::string::StringExecFns;
use crate::db::Db;
use crate::endpoint::{lemma_find_url, spec_find_url, Endpoint, EndpointV};
use crate::incident::{lemma_delete_all, Incident, IncidentV};
use crate::status::Status;
use crate::text::{spec_decimal, u64_to_string};
use crate::timefmt::{format_time, spec_time_text};
use crate::url::spec_strip_prefix;

verus! {

/// The glyph a status is shown with.
pub open spec fn spec_status_glyph(s: Status) -> Seq<char> {
    match s {
        Status::Up => "✅"@,
        Status::Down => "❌"@,
        Status::Pending => "🕒"@,
    }
}

/// The word a status is shown with.
pub open spec fn spec_status_label(s: Status) -> Seq<char> {
    match s {
        Status::Up => "Up"@,
        Status::Down => "Down"@,
        Status::Pending => "Pending"@,
    }
}

/// The glyph a status is shown with.
pub fn status_glyph(s: Status) -> (r: &'static str)
    ensures
        r@ == spec_status_glyph(s),
{
    match s {
        Status::Up => "✅",
        Status::Down => "❌",
        Status::Pending => "🕒",
    }
}

/// The word a status is shown with.
pub fn status_label(s: Status) -> (r: &'static str)
    ensures
        r@ == spec_status_label(s),
{
    match s {
        Status::Up => "Up",
        Status::Down => "Down",
        Status::Pending => "Pending",
    }
}

/// Whole days an endpoint has been up at `now` (zero when the clock reads
/// earlier than the uptime timestamp).
pub open spec fn spec_uptime_days(now: u64, up: u64) -> int {
    if now >= up {
        (now - up) / 86400000
    } else {
        0
    }
}

/// Hour-of-day remainder of an endpoint's uptime at `now`.
pub open spec fn spec_uptime_hours(now: u64, up: u64) -> int {
    if now >= up {
        ((now - up) / 3600000) % 24
    } else {
        0
    }
}

/// One endpoint's lines of the status section.
pub open spec fn spec_status_line(e: EndpointV, now: u64) -> Seq<char> {
    "URL: "@ + spec_strip_prefix(e.url) + "\nStatus: "@ + spec_status_glyph(e.status) + " "@
        + spec_status_label(e.status) + "\n"@ + (match e.uptime_at {
        Some(up) => "Uptime: "@ + spec_decimal(spec_uptime_days(now, up)) + " days and "@
            + spec_decimal(spec_uptime_hours(now, up)) + " hours\n"@,
        None => Seq::<char>::empty(),
    }) + (match e.max_latency {
        Some(ml) => "Max latency: "@ + spec_decimal(ml as int) + "ms\n"@,
        None => Seq::<char>::empty(),
    }) + "\n"@
}

/// The status lines of all endpoints, in table order.
pub open spec fn spec_status_lines(eps: Seq<EndpointV>, now: u64) -> Seq<char>
    decreases eps.len(),
{
    if eps.len() == 0 {
        Seq::empty()
    } else {
        spec_status_lines(eps.drop_last(), now) + spec_status_line(eps.last(), now)
    }
}

/// Whether every endpoint is `Up`.
pub open spec fn spec_all_up(eps: Seq<EndpointV>) -> bool {
    forall|i: int| 0 <= i < eps.len() ==> (#[trigger] eps[i]).status == Status::Up
}

/// The status section of the digest: a header, the good-news marker when
/// there is nothing to report, and one block per endpoint.
pub open spec fn spec_server_update_message(
    eps: Seq<EndpointV>,
    incidents_empty: bool,
    now: u64,
) -> Seq<char> {
    "Server status:\n\n"@ + (if incidents_empty && spec_all_up(eps) {
        "✅ No new incidents have happened so far.\n\n"@
    } else {
        Seq::<char>::empty()
    }) + spec_status_lines(eps, now) + "\n"@
}

/// One incident's lines of the incident section.
pub open spec fn spec_incident_line(inc: IncidentV) -> Seq<char> {
    "Message: "@ + inc.message + "\nTime: "@ + spec_time_text(inc.created_at) + "\n"@
}

/// The incident lines from index `i` on, each followed by a blank-line
/// separator, with an extra blank line after the last.
pub open spec fn spec_incident_lines_from(incs: Seq<IncidentV>, i: int) -> Seq<char>
    decreases incs.len() - i,
{
    if i < 0 || i >= incs.len() {
        Seq::empty()
    } else {
        spec_incident_line(incs[i]) + (if i == incs.len() - 1 {
            "\n\n"@
        } else {
            "\n"@
        }) + spec_incident_lines_from(incs, i + 1)
    }
}

/// The incident section of the digest: empty when nothing is unreported,
/// else a header and one block per incident.
pub open spec fn spec_incidents_message(incs: Seq<IncidentV>) -> Seq<char> {
    if incs.len() == 0 {
        Seq::empty()
    } else {
        "Incidents:\n\n"@ + spec_incident_lines_from(incs, 0)
    }
}

/// The whole digest: incident section first, status section after it.
pub open spec fn spec_digest_message(eps: Seq<EndpointV>, incs: Seq<IncidentV>, now: u64) -> Seq<
    char,
> {
    spec_incidents_message(incs) + spec_server_update_message(eps, incs.len() == 0, now)
}

/// The endpoint table with every latency cell cleared: the state after a
/// digest has reported the window.
pub open spec fn spec_reset_all(eps: Seq<EndpointV>) -> Seq<EndpointV> {
    Seq::new(
        eps.len(),
        |i: int|
            EndpointV {
                url: eps[i].url,
                status: eps[i].status,
                uptime_at: eps[i].uptime_at,
                max_latency: None,
                created_at: eps[i].created_at,
            },
    )
}

/// Builds one endpoint's lines of the status section.
fn status_line(e: &Endpoint, now: u64) -> (r: String)
    ensures
        r@ == spec_status_line(e@, now),
{
    let mut m = "URL: ".to_owned();
    m.append(e.url.strip_prefix());
    m.append("\nStatus: ");
    m.append(status_glyph(e.status));
    m.append(" ");
    m.append(status_label(e.status));
    m.append("\n");
    match e.uptime_at {
        Some(up) => {
            let dur: u64 = if now >= up {
                now - up
            } else {
                0
            };
            let days = dur / 86400000;
            let hours = (dur / 3600000) % 24;
            m.append("Uptime: ");
            let days_text = u64_to_string(days);
            m.append(days_text.as_str());
            m.append(" days and ");
            let hours_text = u64_to_string(hours);
            m.append(hours_text.as_str());
            m.append(" hours\n");
        },
        None => {},
    }
    match e.max_latency {
        Some(ml) => {
            m.append("Max latency: ");
            let latency_text = u64_to_string(ml);
            m.append(latency_text.as_str());
            m.append("ms\n");
        },
        None => {},
    }
    m.append("\n");
    proof {
        assert(m@ =~= spec_status_line(e@, now));
    }
    m
}

/// Composes the status section and opens a new measurement window: every
/// endpoint's latency cell is reset once its stored maximum has been put in
/// the report.
pub fn server_update_message(db: &mut Db, now: u64) -> (r: String)
    requires
        old(db).wf(),
    ensures
        r@ == spec_server_update_message(old(db).endpoint@, old(db).incident@.len() == 0, now),
        final(db).endpoint@ =~= spec_reset_all(old(db).endpoint@),
        final(db).incident == old(db).incident,
        final(db).metadata == old(db).metadata,
        final(db).wf(),
{
    let ghost eps = db.endpoint@;
    let endpoints = db.endpoint.get_all();
    let incidents_empty = db.incident.is_empty();
    let mut all_up = incidents_empty;
    let mut i: usize = 0;
    while i < endpoints.len()
        invariant
            0 <= i <= endpoints@.len(),
            endpoints@.map_values(|e: Endpoint| e@) =~= eps,
            all_up == (incidents_empty && forall|j: int|
                0 <= j < i ==> (#[trigger] eps[j]).status == Status::Up),
        decreases endpoints@.len() - i,
    {
        proof {
            assert(endpoints@.map_values(|e: Endpoint| e@)[i as int] == endpoints@[i as int]@);
        }
        all_up = all_up && (endpoints[i].status == Status::Up);
        i = i + 1;
    }
    let mut m = "Server status:\n\n".to_owned();
    if all_up {
        m.append("✅ No new incidents have happened so far.\n\n");
    }
    let ghost header = m@;
    let mut i: usize = 0;
    while i < endpoints.len()
        invariant
            0 <= i <= endpoints@.len(),
            endpoints@.map_values(|e: Endpoint| e@) =~= eps,
            m@ =~= header + spec_status_lines(eps.take(i as int), now),
            db.endpoint@.len() == eps.len(),
            forall|j: int|
                0 <= j < eps.len() ==> #[trigger] db.endpoint@[j] == (if j < i {
                    spec_reset_all(eps)[j]
                } else {
                    eps[j]
                }),
            forall|a: int, b: int| 0 <= a < b < eps.len() ==> eps[a].url != eps[b].url,
            db.incident == old(db).incident,
            db.metadata == old(db).metadata,
        decreases endpoints@.len() - i,
    {
        let ghost before = db.endpoint@;
        let line = status_line(&endpoints[i], now);
        m.append(line.as_str());
        proof {
            assert(eps.take(i + 1).drop_last() =~= eps.take(i as int));
            assert(eps.take(i + 1).last() == eps[i as int]);
            assert(endpoints@.map_values(|e: Endpoint| e@)[i as int] == endpoints@[i as int]@);
            lemma_find_url(before, eps[i as int].url);
            let k = spec_find_url(before, eps[i as int].url);
            assert(before[i as int].url == eps[i as int].url);
            if k != i as int {
                assert(before[k].url == eps[k].url);
                assert(false);
            }
        }
        db.endpoint.reset_max_latency(endpoints[i].url.as_str());
        proof {
            assert forall|j: int| 0 <= j < eps.len() implies #[trigger] db.endpoint@[j] == (if j
                < i + 1 {
                spec_reset_all(eps)[j]
            } else {
                eps[j]
            }) by {
                assert(db.endpoint@ == before.update(
                    i as int,
                    EndpointV {
                        url: before[i as int].url,
                        status: before[i as int].status,
                        uptime_at: before[i as int].uptime_at,
                        max_latency: None,
                        created_at: before[i as int].created_at,
                    },
                ));
            }
        }
        i = i + 1;
    }
    m.append("\n");
    proof {
        assert(eps.take(eps.len() as int) =~= eps);
        assert(m@ =~= spec_server_update_message(eps, old(db).incident@.len() == 0, now));
        assert(final(db).endpoint@ =~= spec_reset_all(eps));
        let cur = final(db).endpoint@;
        assert forall|j: int| 0 <= j < cur.len() implies (#[trigger] cur[j]).inv() by {
            assert(eps[j].inv());
        }
    }
    m
}

/// Composes the incident section and collects the reported ids, in log
/// order.
pub fn incidents_update_message(db: &Db) -> (r: (String, Vec<u64>))
    requires
        db.incident.wf(),
    ensures
        r.0@ == spec_incidents_message(db.incident@),
        r.1@ =~= db.incident@.map_values(|inc: IncidentV| inc.id),
{
    let ghost incs = db.incident@;
    let incidents = db.incident.get_all();
    let mut m = String::new();
    if !db.incident.is_empty() {
        m.append("Incidents:\n\n");
    }
    let mut ids: Vec<u64> = Vec::new();
    let mut i: usize = 0;
    while i < incidents.len()
        invariant
            0 <= i <= incidents@.len(),
            incidents@.map_values(|inc: Incident| inc@) =~= incs,
            db.incident@ == incs,
            db.incident.wf(),
            spec_incidents_message(incs) =~= m@ + spec_incident_lines_from(incs, i as int),
            ids@ =~= incs.take(i as int).map_values(|inc: IncidentV| inc.id),
        decreases incidents@.len() - i,
    {
        proof {
            assert(incidents@.map_values(|inc: Incident| inc@)[i as int] == incidents@[i as int]@);
            assert(incs[i as int].created_at <= crate::timefmt::MAX_TIMESTAMP_MS);
        }
        m.append("Message: ");
        m.append(incidents[i].message.as_str());
        m.append("\nTime: ");
        let t = format_time(incidents[i].created_at);
        m.append(t.as_str());
        m.append("\n");
        if i == incidents.len() - 1 {
            m.append("\n\n");
        } else {
            m.append("\n");
        }
        let ghost prev_ids = ids@;
        ids.push(incidents[i].id);
        proof {
            assert(ids@ =~= prev_ids.push(incs[i as int].id));
            assert(incs.take(i + 1).map_values(|inc: IncidentV| inc.id) =~= incs.take(
                i as int,
            ).map_values(|inc: IncidentV| inc.id).push(incs[i as int].id));
        }
        i = i + 1;
    }
    proof {
        assert(incs.take(incs.len() as int) =~= incs);
    }
    (m, ids)
}

/// Composes one whole digest — incident section first, status section after
/// it — collects the reported incident ids, and opens a new latency window.
pub fn compose_digest(db: &mut Db, now: u64) -> (r: (String, Vec<u64>))
    requires
        old(db).wf(),
    ensures
        r.0@ == spec_digest_message(old(db).endpoint@, old(db).incident@, now),
        r.1@ =~= old(db).incident@.map_values(|inc: IncidentV| inc.id),
        final(db).endpoint@ =~= spec_reset_all(old(db).endpoint@),
        final(db).incident == old(db).incident,
        final(db).metadata == old(db).metadata,
        final(db).wf(),
{
    let status_message = server_update_message(db, now);
    let pair = incidents_update_message(db);
    let incidents_message = pair.0;
    let ids = pair.1;
    let message = incidents_message.concat(status_message.as_str());
    proof {
        assert(message@ =~= spec_digest_message(old(db).endpoint@, old(db).incident@, now));
    }
    (message, ids)
}

/// The bookkeeping of a digest that went out: the send time is recorded and
/// the reported incidents leave the log. Nothing of this runs when the send
/// failed, so an unsent report is never lost.
pub fn apply_digest_sent(db: &mut Db, ids: &Vec<u64>, now: u64)
    requires
        old(db).wf(),
    ensures
        final(db).metadata.last_update_sent_at == Some(now),
        final(db).incident@ =~= old(db).incident@.filter(
            |inc: IncidentV| !ids@.contains(inc.id),
        ),
        final(db).incident.next_id == old(db).incident.next_id,
        final(db).endpoint == old(db).endpoint,
        final(db).wf(),
{
    db.metadata.update_last_sent_at(now);
    db.incident.delete_many(ids);
}

/// A digest that collected every unreported id empties the log once its send
/// is acknowledged.
pub proof fn lemma_digest_purges_reported(incs: Seq<IncidentV>)
    ensures
        incs.filter(
            |inc: IncidentV| !incs.map_values(|x: IncidentV| x.id).contains(inc.id),
        ) =~= Seq::<IncidentV>::empty(),
{
    let ids = incs.map_values(|x: IncidentV| x.id);
    assert forall|i: int| 0 <= i < incs.len() implies ids.contains((#[trigger] incs[i]).id) by {
        assert(ids[i] == incs[i].id);
    }
    lemma_delete_all(incs, ids);
}

/// A digest with nothing to report — no unreported incident and every
/// endpoint `Up` — carries the good-news marker right after its header.
pub proof fn lemma_quiet_digest_has_marker(eps: Seq<EndpointV>, incs: Seq<IncidentV>, now: u64)
    requires
        incs.len() == 0,
        spec_all_up(eps),
    ensures
        spec_digest_message(eps, incs, now) == "Server status:\n\n"@
            + "✅ No new incidents have happened so far.\n\n"@ + spec_status_lines(eps, now)
            + "\n"@,
        spec_digest_message(eps, incs, now).subrange(
            "Server status:\n\n"@.len() as int,
            "Server status:\n\n"@.len() as int
                + "✅ No new incidents have happened so far.\n\n"@.len() as int,
        ) =~= "✅ No new incidents have happened so far.\n\n"@,
{
    assert(spec_incidents_message(incs) =~= Seq::<char>::empty());
    assert(spec_digest_message(eps, incs, now) =~= "Server status:\n\n"@
        + "✅ No new incidents have happened so far.\n\n"@ + spec_status_lines(eps, now) + "\n"@);
}

} // verus!
