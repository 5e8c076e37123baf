use server_monitor::db::Db;
use server_monitor::digest::{apply_digest_sent, compose_digest};
use server_monitor::probe::{probe_verdict, ProbeAttempt};
use server_monitor::status::{Status, Transition};
use server_monitor::url::parse_urls;

// One bounded probe under TRIES = 2: the transport stops after the first
// success, so a cycle sees at most two attempts.
fn probe_with_two_tries(outcomes: &[Option<u16>]) -> (bool, u64) {
    let mut attempts: Vec<ProbeAttempt> = Vec::new();
    for (i, status) in outcomes.iter().take(2).enumerate() {
        attempts.push(ProbeAttempt {
            status: *status,
            latency: 10 * (i as u64 + 1),
        });
        if server_monitor::probe::attempt_succeeded(*status) {
            break;
        }
    }
    probe_verdict(&attempts)
}

#[test]
fn two_endpoints_flap_and_recover() {
    let urls = parse_urls("a.test,b.test");
    let mut db = Db::new(&urls, 0, None);

    // Cycle 1: a.test answers 200 at once; b.test times out on both tries.
    let (a_ok, _) = probe_with_two_tries(&[Some(200)]);
    let (b_ok, _) = probe_with_two_tries(&[None, None]);
    assert!(a_ok);
    assert!(!b_ok);

    let a1 = db.check_url_status(&urls[0], a_ok, 1000);
    assert_eq!(a1.transition, Transition::BecomeUp);
    assert!(a1.notification.is_none());

    let b1 = db.check_url_status(&urls[1], b_ok, 1000);
    assert_eq!(b1.transition, Transition::BecomeDown);
    assert_eq!(b1.notification.as_deref(), Some("\u{274c} b.test is down!"));
    assert_eq!(db.incident.rows.len(), 1);

    // Cycle 2: a.test still fine; b.test still unreachable — no new
    // incident, no new alert.
    let a2 = db.check_url_status(&urls[0], true, 2000);
    assert_eq!(a2.transition, Transition::StayUp);
    let b2 = db.check_url_status(&urls[1], false, 2000);
    assert_eq!(b2.transition, Transition::StayDown);
    assert!(b2.notification.is_none());
    assert_eq!(db.incident.rows.len(), 1);

    // Cycle 3: b.test answers again.
    let b3 = db.check_url_status(&urls[1], true, 3000);
    assert_eq!(b3.transition, Transition::BecomeUp);
    assert_eq!(
        b3.notification.as_deref(),
        Some("\u{2705} b.test is up again!")
    );

    // a.test ends Up and owes no incident; b.test's incident survives the
    // recovery until a digest purges it.
    assert_eq!(db.endpoint.rows[0].status, Status::Up);
    assert_eq!(db.endpoint.rows[1].status, Status::Up);
    assert_eq!(db.incident.rows.len(), 1);
    assert_eq!(db.incident.rows[0].url, "b.test");
    for e in db.endpoint.rows.iter() {
        assert_eq!(e.status == Status::Up, e.uptime_at.is_some());
    }

    let (message, ids) = compose_digest(&mut db, 4000);
    assert!(message.contains("Message: b.test was down!"));
    apply_digest_sent(&mut db, &ids, 4000);
    assert!(db.incident.is_empty());
}

#[test]
fn probe_verdict_reports_the_decisive_attempt() {
    // Failure then success: the verdict is success with the latency of the
    // successful attempt.
    let (ok, latency) = probe_with_two_tries(&[None, Some(204)]);
    assert!(ok);
    assert_eq!(latency, 20);

    // All attempts fail: the verdict is failure with the last latency.
    let (ok, latency) = probe_with_two_tries(&[Some(500), Some(503)]);
    assert!(!ok);
    assert_eq!(latency, 20);

    // Rate limiting counts as alive.
    let (ok, _) = probe_with_two_tries(&[Some(429)]);
    assert!(ok);
}
