use server_monitor::db::Db;
use server_monitor::endpoint::EndpointModel;
use server_monitor::url::parse_urls;

#[test]
fn max_latency_is_the_running_maximum() {
    let urls = parse_urls("http://a.test");
    let mut model = EndpointModel::new(&urls, 1000);
    assert_eq!(model.get_max_latency("http://a.test"), None);

    let observed = [5u64, 3, 9, 9, 1];
    for latency in observed {
        model.relative_max_latency_update("http://a.test", latency);
    }
    assert_eq!(model.get_max_latency("http://a.test"), Some(9));

    model.relative_max_latency_update("http://a.test", 250);
    assert_eq!(model.get_max_latency("http://a.test"), Some(250));
}

#[test]
fn zero_never_beats_the_empty_cell() {
    let urls = parse_urls("http://a.test");
    let mut model = EndpointModel::new(&urls, 1000);
    model.relative_max_latency_update("http://a.test", 0);
    assert_eq!(model.get_max_latency("http://a.test"), None);
}

#[test]
fn reset_empties_the_cell() {
    let urls = parse_urls("http://a.test");
    let mut model = EndpointModel::new(&urls, 1000);
    model.relative_max_latency_update("http://a.test", 42);
    assert_eq!(model.get_max_latency("http://a.test"), Some(42));

    model.reset_max_latency("http://a.test");
    assert_eq!(model.get_max_latency("http://a.test"), None);

    // A new window starts counting from scratch.
    model.relative_max_latency_update("http://a.test", 7);
    assert_eq!(model.get_max_latency("http://a.test"), Some(7));
}

#[test]
fn monitor_cycle_tracks_latency_only_on_success() {
    let urls = parse_urls("http://a.test");
    let mut db = Db::new(&urls, 1000, None);

    db.monitor_cycle(&urls[0], false, 999, 2000);
    assert_eq!(db.endpoint.get_max_latency("http://a.test"), None);

    db.monitor_cycle(&urls[0], true, 120, 3000);
    assert_eq!(db.endpoint.get_max_latency("http://a.test"), Some(120));

    db.monitor_cycle(&urls[0], true, 80, 4000);
    assert_eq!(db.endpoint.get_max_latency("http://a.test"), Some(120));
}

#[test]
fn updates_touch_only_their_url() {
    let urls = parse_urls("http://a.test,http://b.test");
    let mut model = EndpointModel::new(&urls, 1000);
    model.relative_max_latency_update("http://a.test", 11);
    assert_eq!(model.get_max_latency("http://a.test"), Some(11));
    assert_eq!(model.get_max_latency("http://b.test"), None);
    assert_eq!(model.get_max_latency("http://unknown.test"), None);
}
