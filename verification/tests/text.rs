use notes_service::text::{parse_id, u64_to_string};

#[test]
fn renders_small_numbers() {
    assert_eq!(u64_to_string(0), "0");
    assert_eq!(u64_to_string(7), "7");
    assert_eq!(u64_to_string(10), "10");
}

#[test]
fn renders_larger_numbers() {
    assert_eq!(u64_to_string(12345), "12345");
    assert_eq!(u64_to_string(u64::MAX), "18446744073709551615");
}

#[test]
fn parses_plain_ids() {
    assert_eq!(parse_id("0"), Some(0));
    assert_eq!(parse_id("42"), Some(42));
    assert_eq!(parse_id("007"), Some(7));
    assert_eq!(parse_id("18446744073709551615"), Some(u64::MAX));
}

#[test]
fn rejects_malformed_ids() {
    assert_eq!(parse_id(""), None);
    assert_eq!(parse_id("abc"), None);
    assert_eq!(parse_id("12x"), None);
    assert_eq!(parse_id("-3"), None);
    assert_eq!(parse_id("18446744073709551616"), None);
}
