use server_monitor::status::Status;
use server_monitor::text::{str_eq, u64_to_string};
use server_monitor::url::{parse_urls, Url};

#[test]
fn status_codes_round_trip() {
    assert_eq!(Status::from_code("UP"), Status::Up);
    assert_eq!(Status::from_code("DOWN"), Status::Down);
    assert_eq!(Status::from_code("PENDING"), Status::Pending);
    assert_eq!(Status::from_code("anything else"), Status::Pending);

    assert_eq!(Status::Up.as_code(), "UP");
    assert_eq!(Status::Down.as_code(), "DOWN");
    assert_eq!(Status::Pending.as_code(), "PENDING");

    assert_eq!(Status::from(String::from("UP")), Status::Up);
    assert_eq!(Status::from(String::from("DOWN")), Status::Down);
    assert_eq!(Status::from(String::from("")), Status::Pending);
}

#[test]
fn url_strip_prefix_removes_scheme() {
    let plain = Url::from(String::from("example.test"));
    assert_eq!(plain.strip_prefix(), "example.test");
    assert_eq!(plain.as_str(), "example.test");

    let http = Url::from(String::from("http://example.test"));
    assert_eq!(http.strip_prefix(), "example.test");
    assert_eq!(http.as_str(), "http://example.test");

    let https = Url::from(String::from("https://example.test/x"));
    assert_eq!(https.strip_prefix(), "example.test/x");

    let short = Url::from(String::from("http:"));
    assert_eq!(short.strip_prefix(), "http:");
}

#[test]
fn parse_urls_splits_on_commas() {
    let urls = parse_urls("http://a.test,https://b.test,c.test");
    let texts: Vec<&str> = urls.iter().map(|u| u.as_str()).collect();
    assert_eq!(texts, vec!["http://a.test", "https://b.test", "c.test"]);

    let single = parse_urls("a.test");
    assert_eq!(single.len(), 1);
    assert_eq!(single[0].as_str(), "a.test");

    let empty = parse_urls("");
    assert_eq!(empty.len(), 1);
    assert_eq!(empty[0].as_str(), "");

    let trailing = parse_urls("a.test,");
    assert_eq!(trailing.len(), 2);
    assert_eq!(trailing[1].as_str(), "");
}

#[test]
fn str_eq_compares_contents() {
    assert!(str_eq("", ""));
    assert!(str_eq("abc", "abc"));
    assert!(!str_eq("abc", "abd"));
    assert!(!str_eq("abc", "abcd"));
}

#[test]
fn u64_renders_in_decimal() {
    assert_eq!(u64_to_string(0), "0");
    assert_eq!(u64_to_string(7), "7");
    assert_eq!(u64_to_string(42), "42");
    assert_eq!(u64_to_string(1000), "1000");
    assert_eq!(u64_to_string(1234567890), "1234567890");
    assert_eq!(u64_to_string(u64::MAX), "18446744073709551615");
}
