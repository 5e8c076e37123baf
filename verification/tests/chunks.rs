use rand::Rng;
use server_monitor::bot::{split_into_chunks, TELEGRAM_MAX_MESSAGE_LENGTH};

fn generate_random_text(length: usize) -> String {
    const CHARSET: &[u8] = b"ABCDEFGHIJKLMNOPQRSTUVWXYZabcdefghijklmnopqrstuvwxyz0123456789 ";
    let mut rng = rand::thread_rng();

    (0..length)
        .map(|_| {
            let idx = rng.gen_range(0..CHARSET.len());
            CHARSET[idx] as char
        })
        .collect()
}

#[test]
fn test_split_into_chunks() {
    assert_eq!(
        split_into_chunks("Hello, World!", 1),
        vec!["H", "e", "l", "l", "o", ",", " ", "W", "o", "r", "l", "d", "!"]
    );

    assert_eq!(split_into_chunks(&generate_random_text(1000), 500).len(), 2);

    assert_eq!(
        split_into_chunks(&generate_random_text(10000), 4096).len(),
        3
    );

    assert_eq!(
        split_into_chunks(&generate_random_text(100000), 4096).len(),
        25
    );
}

#[test]
fn split_empty_message_has_no_chunks() {
    assert_eq!(split_into_chunks("", 5).len(), 0);
}

#[test]
fn split_keeps_content_and_order() {
    assert_eq!(split_into_chunks("abcdef", 4), vec!["abcd", "ef"]);
    assert_eq!(split_into_chunks("abcd", 4), vec!["abcd"]);
    assert_eq!(split_into_chunks("abc", 4), vec!["abc"]);
}

#[test]
fn telegram_limit_is_4096() {
    assert_eq!(TELEGRAM_MAX_MESSAGE_LENGTH, 4096);
}
