use heisensim::text::{
    chars_of, decimal_string, parse_u64_radix, same_str, str_starts_with, trim_str,
    IntErrorKind,
};

#[test]
fn prefixes_and_equality() {
    assert!(str_starts_with("https://x", "https://"));
    assert!(!str_starts_with("http", "https"));
    assert!(str_starts_with("abc", ""));
    assert!(same_str("abc", "abc"));
    assert!(!same_str("abc", "abd"));
}

#[test]
fn numbers_render_and_parse() {
    assert_eq!(decimal_string(0), "0");
    assert_eq!(decimal_string(18446744073709551615), "18446744073709551615");
    let cs = chars_of("0x+ff");
    assert_eq!(parse_u64_radix(&cs, 2, 5, 16), Ok(255));
    let big = chars_of("18446744073709551616");
    assert_eq!(parse_u64_radix(&big, 0, big.len(), 10), Err(IntErrorKind::PosOverflow));
    let sign = chars_of("-");
    assert_eq!(parse_u64_radix(&sign, 0, 1, 10), Err(IntErrorKind::InvalidDigit));
}

#[test]
fn trimming_removes_unicode_white_space() {
    assert_eq!(trim_str("\u{3000} a b \n"), "a b");
}
