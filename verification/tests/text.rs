use twitch_bot::text::{decimal_string, first_word_of};

#[test]
fn decimal_of_zero() {
    assert_eq!(decimal_string(0), "0");
}

#[test]
fn decimal_of_single_digits() {
    assert_eq!(decimal_string(7), "7");
    assert_eq!(decimal_string(9), "9");
}

#[test]
fn decimal_of_larger_numbers() {
    assert_eq!(decimal_string(10), "10");
    assert_eq!(decimal_string(42), "42");
    assert_eq!(decimal_string(1234567890), "1234567890");
    assert_eq!(decimal_string(u128::MAX), u128::MAX.to_string());
}

#[test]
fn first_word_skips_leading_white_space() {
    assert_eq!(first_word_of("  !first  later"), Some("!first".to_string()));
}

#[test]
fn first_word_of_blank_text_is_none() {
    assert_eq!(first_word_of(""), None);
    assert_eq!(first_word_of(" \t\n "), None);
}

#[test]
fn first_word_stops_at_unicode_white_space() {
    assert_eq!(first_word_of("olá\u{3000}mundo"), Some("olá".to_string()));
    assert_eq!(first_word_of("\u{a0}nº\u{2003}1"), Some("nº".to_string()));
}

#[test]
fn first_word_matches_split_whitespace() {
    for s in ["a b", "  x", "x  ", "\r\nword\tnext", "único", "!first!"] {
        assert_eq!(first_word_of(s), s.split_whitespace().next().map(|w| w.to_string()));
    }
}
