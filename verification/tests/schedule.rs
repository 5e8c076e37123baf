use server_monitor::metadata::{digest_due_in, MetadataModel};
use server_monitor::probe::attempt_succeeded;
use server_monitor::UPDATE_INTERVAL;

#[test]
fn digest_never_sent_is_due_at_once() {
    assert_eq!(digest_due_in(UPDATE_INTERVAL, 123456789, None), 0);
}

#[test]
fn digest_due_time_recovers_across_a_restart() {
    // The last digest went out five seconds short of a full period ago: the
    // scheduler fires after those five seconds, not after a whole period.
    let now = 200_000_000;
    let last = now - (UPDATE_INTERVAL - 5000);
    assert_eq!(digest_due_in(UPDATE_INTERVAL, now, Some(last)), 5000);
}

#[test]
fn overdue_digest_is_due_at_once() {
    let now = 2 * UPDATE_INTERVAL + 17;
    assert_eq!(digest_due_in(UPDATE_INTERVAL, now, Some(0)), 0);
    assert_eq!(
        digest_due_in(UPDATE_INTERVAL, now, Some(now - UPDATE_INTERVAL)),
        0
    );
}

#[test]
fn fresh_digest_waits_a_full_period() {
    let now = 500_000_000;
    assert_eq!(
        digest_due_in(UPDATE_INTERVAL, now, Some(now)),
        UPDATE_INTERVAL
    );
}

#[test]
fn metadata_tracks_the_send_time() {
    let mut metadata = MetadataModel::new(None);
    assert_eq!(metadata.get(), None);
    assert_eq!(metadata.interval(700), 0);

    metadata.update_last_sent_at(700);
    assert_eq!(metadata.get(), Some(700));
    assert_eq!(metadata.interval(700), UPDATE_INTERVAL);
    assert_eq!(metadata.interval(700 + UPDATE_INTERVAL / 2), UPDATE_INTERVAL / 2);

    // A persisted send time survives a restart.
    let restarted = MetadataModel::new(Some(700));
    assert_eq!(restarted.get(), Some(700));
}

#[test]
fn success_range_and_rate_limit_score_alive() {
    assert!(attempt_succeeded(Some(200)));
    assert!(attempt_succeeded(Some(204)));
    assert!(attempt_succeeded(Some(299)));
    assert!(attempt_succeeded(Some(429)));
    assert!(!attempt_succeeded(Some(199)));
    assert!(!attempt_succeeded(Some(300)));
    assert!(!attempt_succeeded(Some(404)));
    assert!(!attempt_succeeded(Some(500)));
    assert!(!attempt_succeeded(None));
}
