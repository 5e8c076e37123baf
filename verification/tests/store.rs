use server_monitor::incident::{Incident, IncidentModel};
use server_monitor::url::Url;

fn log_with(urls: &[&str], now: u64) -> IncidentModel {
    let mut log = IncidentModel::new();
    for u in urls {
        let url = Url::from(String::from(*u));
        log.record(&url, format!("{} was down!", u), now);
    }
    log
}

#[test]
fn record_hands_out_fresh_increasing_ids() {
    let log = log_with(&["a.test", "b.test", "c.test"], 500);
    let ids: Vec<u64> = log.rows.iter().map(|i| i.id).collect();
    assert_eq!(ids, vec![0, 1, 2]);
    assert_eq!(log.next_id, 3);
    assert_eq!(log.rows[1].url, "b.test");
    assert_eq!(log.rows[1].message, "b.test was down!");
    assert_eq!(log.rows[1].created_at, 500);
}

#[test]
fn delete_many_removes_exactly_the_listed_ids() {
    let mut log = log_with(&["a.test", "b.test", "c.test"], 500);
    log.delete_many(&vec![0, 2, 77]);
    let ids: Vec<u64> = log.rows.iter().map(|i| i.id).collect();
    assert_eq!(ids, vec![1]);
    assert_eq!(log.next_id, 3);

    log.delete_many(&vec![]);
    assert_eq!(log.rows.len(), 1);
}

#[test]
fn get_all_copies_the_log_in_order() {
    let log = log_with(&["a.test", "b.test"], 500);
    let all: Vec<Incident> = log.get_all();
    assert_eq!(all.len(), 2);
    assert_eq!(all[0].url, "a.test");
    assert_eq!(all[1].url, "b.test");
    assert!(!log.is_empty());
    assert!(IncidentModel::new().is_empty());
}
