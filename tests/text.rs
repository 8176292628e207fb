use mini_http::text::{
    ascii_lowercase, capitalize, decimal, join, parse_u64, split_ascii_whitespace, str_eq, trim,
    trim_end, trim_start,
};

#[test]
fn capitalizes_each_dash_separated_part() {
    assert_eq!(capitalize("content-type"), "Content-Type");
    assert_eq!(capitalize("host"), "Host");
    assert_eq!(capitalize("x-FORWARDED-for"), "X-Forwarded-For");
    assert_eq!(capitalize("a--b"), "A--B");
    assert_eq!(capitalize(""), "");
    assert_eq!(capitalize("é"), "É");
    assert_eq!(capitalize("ß-x"), "SS-X");
    assert_eq!(capitalize("éTAG"), "Étag");
    assert_eq!(capitalize("-x-"), "-X-");
}

#[test]
fn lowercases_ascii_only() {
    assert_eq!(ascii_lowercase("Content-LENGTH"), "content-length");
    assert_eq!(ascii_lowercase("ÄB"), "Äb");
}

#[test]
fn decimal_writes_and_reads_back() {
    assert_eq!(decimal(0), "0");
    assert_eq!(decimal(13), "13");
    assert_eq!(decimal(u64::MAX), "18446744073709551615");
    for n in [0u64, 1, 9, 10, 99, 100, 12345, u64::MAX - 1, u64::MAX] {
        assert_eq!(parse_u64(&decimal(n)), Some(n));
    }
}

#[test]
fn parse_u64_follows_from_str() {
    assert_eq!(parse_u64("+7"), Some(7));
    assert_eq!(parse_u64("007"), Some(7));
    assert_eq!(parse_u64(""), None);
    assert_eq!(parse_u64("+"), None);
    assert_eq!(parse_u64("-1"), None);
    assert_eq!(parse_u64("12a"), None);
    assert_eq!(parse_u64(" 1"), None);
    assert_eq!(parse_u64("18446744073709551616"), None);
    for s in ["+7", "", "+", "-1", "12a", "18446744073709551616", "99999999999999999999x"] {
        assert_eq!(parse_u64(s), s.parse::<u64>().ok());
    }
}

#[test]
fn trims_unicode_whitespace() {
    assert_eq!(trim(" \t\u{a0}ab c\u{3000}\r\n"), "ab c");
    assert_eq!(trim_start("  x "), "x ");
    assert_eq!(trim_end("  x "), "  x");
    assert_eq!(trim("   "), "");
    let s = "\u{2028} y \u{85}";
    assert_eq!(trim(s), s.trim());
}

#[test]
fn splits_on_ascii_whitespace_only() {
    let words = split_ascii_whitespace(" a\tb\u{a0}c  d\n");
    assert_eq!(words, vec!["a".to_owned(), "b\u{a0}c".to_owned(), "d".to_owned()]);
    assert!(split_ascii_whitespace("  ").is_empty());
}

#[test]
fn joins_and_compares() {
    let parts = vec!["a".to_owned(), "b".to_owned(), "c".to_owned()];
    assert_eq!(join(&parts, "\r\n"), "a\r\nb\r\nc");
    assert_eq!(join(&Vec::new(), ","), "");
    assert!(str_eq("abc", "abc"));
    assert!(!str_eq("abc", "abd"));
}
