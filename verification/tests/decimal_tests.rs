use orbite::decimal::{format_usize, parse_usize};

#[test]
fn parse_accepts_plain_decimals() {
    assert_eq!(parse_usize("0"), Some(0));
    assert_eq!(parse_usize("42"), Some(42));
    assert_eq!(parse_usize("007"), Some(7));
}

#[test]
fn parse_accepts_a_leading_plus() {
    assert_eq!(parse_usize("+7"), Some(7));
    assert_eq!(parse_usize("+0"), Some(0));
}

#[test]
fn parse_rejects_empty_and_sign_only() {
    assert_eq!(parse_usize(""), None);
    assert_eq!(parse_usize("+"), None);
}

#[test]
fn parse_rejects_stray_characters() {
    assert_eq!(parse_usize("12a"), None);
    assert_eq!(parse_usize("-3"), None);
    assert_eq!(parse_usize("1 2"), None);
    assert_eq!(parse_usize("1.5"), None);
}

#[test]
fn parse_handles_the_word_boundary() {
    let max = usize::MAX.to_string();
    assert_eq!(parse_usize(&max), Some(usize::MAX));
    let too_big = format!("{}0", max);
    assert_eq!(parse_usize(&too_big), None);
}

#[test]
fn format_renders_decimals() {
    assert_eq!(format_usize(0), "0");
    assert_eq!(format_usize(9), "9");
    assert_eq!(format_usize(10), "10");
    assert_eq!(format_usize(12345), "12345");
    assert_eq!(format_usize(usize::MAX), usize::MAX.to_string());
}

#[test]
fn format_then_parse_returns_the_counter() {
    for c in [0usize, 1, 9, 10, 99, 1000, 123456789] {
        assert_eq!(parse_usize(format_usize(c).as_str()), Some(c));
    }
}
