use server_monitor::db::Db;
use server_monitor::endpoint::Endpoint;
use server_monitor::status::{evaluate, Status, Transition};
use server_monitor::url::{parse_urls, Url};

fn row<'a>(db: &'a Db, url: &str) -> &'a Endpoint {
    db.endpoint
        .rows
        .iter()
        .find(|e| e.url.as_str() == url)
        .expect("row must exist")
}

fn assert_store_invariant(db: &Db) {
    for e in db.endpoint.rows.iter() {
        assert_eq!(e.status == Status::Up, e.uptime_at.is_some());
    }
}

#[test]
fn evaluate_covers_the_whole_table() {
    assert_eq!(evaluate(Status::Up, true), Transition::StayUp);
    assert_eq!(evaluate(Status::Pending, true), Transition::BecomeUp);
    assert_eq!(evaluate(Status::Down, true), Transition::BecomeUp);
    assert_eq!(evaluate(Status::Down, false), Transition::StayDown);
    assert_eq!(evaluate(Status::Up, false), Transition::BecomeDown);
    assert_eq!(evaluate(Status::Pending, false), Transition::BecomeDown);
}

#[test]
fn first_success_on_pending_is_silent() {
    let urls = parse_urls("http://a.test");
    let mut db = Db::new(&urls, 1000, None);
    assert_eq!(row(&db, "http://a.test").status, Status::Pending);
    assert_eq!(row(&db, "http://a.test").uptime_at, None);
    assert_store_invariant(&db);

    let outcome = db.check_url_status(&urls[0], true, 2000);
    assert_eq!(outcome.transition, Transition::BecomeUp);
    assert!(outcome.notification.is_none());
    assert_eq!(row(&db, "http://a.test").status, Status::Up);
    assert_eq!(row(&db, "http://a.test").uptime_at, Some(2000));
    assert!(db.incident.is_empty());
    assert_store_invariant(&db);
}

#[test]
fn down_recovery_notifies_once_and_writes_up_once() {
    let urls = parse_urls("http://a.test");
    let mut db = Db::new(&urls, 1000, None);
    db.check_url_status(&urls[0], false, 2000);
    assert_eq!(row(&db, "http://a.test").status, Status::Down);
    assert_store_invariant(&db);

    let outcome = db.check_url_status(&urls[0], true, 3000);
    assert_eq!(outcome.transition, Transition::BecomeUp);
    assert_eq!(
        outcome.notification.as_deref(),
        Some("\u{2705} http://a.test is up again!")
    );
    assert_eq!(row(&db, "http://a.test").status, Status::Up);
    assert_eq!(row(&db, "http://a.test").uptime_at, Some(3000));
    // The recovered episode's incident stays for the digest to purge.
    assert_eq!(db.incident.rows.len(), 1);
    assert_store_invariant(&db);
}

#[test]
fn fresh_failure_alerts_and_records_one_incident() {
    let urls = parse_urls("http://a.test");
    let mut db = Db::new(&urls, 1000, None);
    let outcome = db.check_url_status(&urls[0], false, 2000);
    assert_eq!(outcome.transition, Transition::BecomeDown);
    assert_eq!(
        outcome.notification.as_deref(),
        Some("\u{274c} http://a.test is down!")
    );
    assert_eq!(row(&db, "http://a.test").status, Status::Down);
    assert_eq!(row(&db, "http://a.test").uptime_at, None);
    assert_eq!(db.incident.rows.len(), 1);
    assert_eq!(db.incident.rows[0].url, "http://a.test");
    assert_eq!(db.incident.rows[0].message, "a.test was down!");
    assert_eq!(db.incident.rows[0].created_at, 2000);
    assert_store_invariant(&db);
}

#[test]
fn repeated_failures_while_down_change_nothing() {
    let urls = parse_urls("http://a.test");
    let mut db = Db::new(&urls, 1000, None);
    db.check_url_status(&urls[0], false, 2000);
    assert_eq!(db.incident.rows.len(), 1);

    for t in [3000u64, 4000, 5000] {
        let outcome = db.check_url_status(&urls[0], false, t);
        assert_eq!(outcome.transition, Transition::StayDown);
        assert!(outcome.notification.is_none());
        assert_eq!(db.incident.rows.len(), 1);
        assert_eq!(row(&db, "http://a.test").status, Status::Down);
        assert_store_invariant(&db);
    }
}

#[test]
fn success_while_up_is_a_quiet_no_op() {
    let urls = parse_urls("http://a.test");
    let mut db = Db::new(&urls, 1000, None);
    db.check_url_status(&urls[0], true, 2000);
    let outcome = db.check_url_status(&urls[0], true, 9000);
    assert_eq!(outcome.transition, Transition::StayUp);
    assert!(outcome.notification.is_none());
    // The uptime timestamp keeps the time the endpoint became Up.
    assert_eq!(row(&db, "http://a.test").uptime_at, Some(2000));
    assert_store_invariant(&db);
}

#[test]
fn lookup_creates_unknown_urls_as_pending() {
    let urls = parse_urls("http://a.test");
    let mut db = Db::new(&urls, 1000, None);
    let other = Url::from(String::from("http://late.test"));
    let e = db.endpoint.get(&other, 5000);
    assert_eq!(e.status, Status::Pending);
    assert_eq!(e.uptime_at, None);
    assert_eq!(e.created_at, 5000);
    assert_eq!(db.endpoint.rows.len(), 2);
    assert_store_invariant(&db);
}

#[test]
fn seeding_skips_repeated_urls() {
    let urls = parse_urls("http://a.test,http://b.test,http://a.test");
    let db = Db::new(&urls, 1000, None);
    assert_eq!(db.endpoint.rows.len(), 2);
    assert_eq!(db.endpoint.rows[0].url.as_str(), "http://a.test");
    assert_eq!(db.endpoint.rows[1].url.as_str(), "http://b.test");
    assert_store_invariant(&db);
}
