use server_monitor::db::Db;
use server_monitor::digest::{apply_digest_sent, compose_digest};
use server_monitor::timefmt::format_time;
use server_monitor::url::parse_urls;

#[test]
fn quiet_digest_carries_the_good_news_marker() {
    let urls = parse_urls("http://a.test");
    let mut db = Db::new(&urls, 1000, None);
    db.check_url_status(&urls[0], true, 2000);

    // Two days and three hours after the endpoint came up.
    let now = 2000 + 2 * 86400000 + 3 * 3600000;
    let (message, ids) = compose_digest(&mut db, now);
    assert!(ids.is_empty());
    let expected = "Server status:\n\n\u{2705} No new incidents have happened so far.\n\nURL: a.test\nStatus: \u{2705} Up\nUptime: 2 days and 3 hours\n\n\n";
    assert_eq!(message, expected);
}

#[test]
fn digest_reports_latency_and_resets_the_window() {
    let urls = parse_urls("http://a.test");
    let mut db = Db::new(&urls, 1000, None);
    db.check_url_status(&urls[0], true, 2000);
    db.endpoint.relative_max_latency_update("http://a.test", 345);

    let now = 2000 + 3600000;
    let (message, _ids) = compose_digest(&mut db, now);
    assert!(message.contains("Max latency: 345ms\n"));
    assert_eq!(db.endpoint.rows[0].max_latency, None);

    // The next digest no longer reports the old window.
    let (second, _ids) = compose_digest(&mut db, now + 3600000);
    assert!(!second.contains("Max latency:"));
}

#[test]
fn digest_lists_every_unreported_incident_and_purges_them() {
    let urls = parse_urls("http://a.test,http://b.test");
    let mut db = Db::new(&urls, 1000, None);
    let when = 1700000000000; // 14 Nov 2023, 22:13:20 UTC
    db.check_url_status(&urls[0], false, when);
    db.check_url_status(&urls[1], false, when);
    assert_eq!(db.incident.rows.len(), 2);

    let now = when + 1000;
    let (message, ids) = compose_digest(&mut db, now);
    let expected = "Incidents:\n\nMessage: a.test was down!\nTime: 14/11/2023 10:13 PM\n\nMessage: b.test was down!\nTime: 14/11/2023 10:13 PM\n\n\nServer status:\n\nURL: a.test\nStatus: \u{274c} Down\n\nURL: b.test\nStatus: \u{274c} Down\n\n\n";
    assert_eq!(message, expected);
    assert_eq!(message.matches("Message: ").count(), 2);
    assert_eq!(ids.len(), 2);

    apply_digest_sent(&mut db, &ids, now);
    assert!(db.incident.is_empty());
    assert_eq!(db.metadata.get(), Some(now));
}

#[test]
fn failed_send_withholds_metadata_and_incidents() {
    let urls = parse_urls("http://a.test");
    let mut db = Db::new(&urls, 1000, None);
    db.check_url_status(&urls[0], false, 2000);

    let (_message, ids) = compose_digest(&mut db, 3000);
    assert_eq!(ids.len(), 1);
    // The send failed: nothing of the bookkeeping runs, so the incident and
    // the unset metadata stay for the retry.
    assert_eq!(db.incident.rows.len(), 1);
    assert_eq!(db.metadata.get(), None);
}

#[test]
fn incident_time_formatting_follows_the_timestamp() {
    assert_eq!(format_time(1700000000000), "14/11/2023 10:13 PM");
    assert_eq!(format_time(0), "01/01/1970 12:00 AM");
    assert_eq!(format_time(86400000 + 3600000 * 13 + 60000 * 5), "02/01/1970 01:05 PM");
}
