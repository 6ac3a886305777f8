use axum::http::{HeaderMap, HeaderValue};
use codex_egress_relay::headers::{
    copy_last_without, copy_without, header_text, is_listed, set_all,
};
use codex_egress_relay::text::{
    has_prefix, parse_decimal, same_in_any_case, same_text, trim_end,
};

#[test]
fn texts_are_compared_whole() {
    assert!(same_text("", ""));
    assert!(same_text("caf\u{e9}", "caf\u{e9}"));
    assert!(!same_text("a", "ab"));
    assert!(!same_text("ab", "a"));
    assert!(!same_text("a", "A"));
}

#[test]
fn letter_case_is_ignored_in_ascii_only() {
    for (text, other) in [
        ("", ""),
        ("Host", "hOST"),
        ("a", "ab"),
        ("[", "{"),
        ("@", "`"),
        ("\u{c9}", "\u{e9}"),
        ("k", "\u{212a}"),
        ("AZaz", "azAZ"),
    ] {
        assert_eq!(
            same_in_any_case(text, other),
            text.eq_ignore_ascii_case(other),
            "{text} {other}"
        );
    }
}

#[test]
fn every_header_name_can_be_set_and_read() {
    let long = "a-name-of-more-than-sixty-four-characters-that-is-stored-as-it-stands";
    assert!(long.len() > 64);
    for name in ["x.y", "!\"#$%&'*+-.^_`|~09az", "host", long] {
        let mut map = HeaderMap::new();
        map.insert("other", HeaderValue::from_static("1"));
        codex_egress_relay::headers::set(&mut map, name, "v");
        codex_egress_relay::headers::set(&mut map, name, "");
        codex_egress_relay::headers::set(&mut map, name, "w");
        assert_eq!(header_text(&map, name), "w", "{name}");
        assert_eq!(header_text(&map, "other"), "1");
        assert_eq!(map.len(), 2);
    }
}

#[test]
fn repeated_values_are_copied_whole_or_last() {
    let mut source = HeaderMap::new();
    source.append("a", HeaderValue::from_static("1"));
    source.append("b", HeaderValue::from_static("2"));
    source.append("a", HeaderValue::from_static("3"));
    source.append("c", HeaderValue::from_static("4"));
    let whole = copy_without(&source, &["C"], &[]);
    let values: Vec<&HeaderValue> = whole.get_all("a").iter().collect();
    assert_eq!(values, vec!["1", "3"]);
    let last = copy_last_without(&source, &["C"]);
    let values: Vec<&HeaderValue> = last.get_all("a").iter().collect();
    assert_eq!(values, vec!["3"]);
    assert_eq!(header_text(&last, "b"), "2");
    assert_eq!(last.len(), 2);
}

#[test]
fn prefixes_are_found() {
    assert!(has_prefix("abc", ""));
    assert!(has_prefix("abc", "abc"));
    assert!(!has_prefix("ab", "abc"));
    assert!(!has_prefix("xbc", "a"));
}

#[test]
fn marks_are_trimmed_at_the_end_only() {
    assert_eq!(trim_end("/a/b///", '/'), "/a/b");
    assert_eq!(trim_end("///", '/'), "");
    assert_eq!(trim_end("", '/'), "");
    assert_eq!(trim_end("\u{e9}/", '/'), "\u{e9}");
}

#[test]
fn decimal_numbers_are_read() {
    assert_eq!(parse_decimal("0", 10), Some(0));
    assert_eq!(parse_decimal("+10", 10), Some(10));
    assert_eq!(parse_decimal("0010", 10), Some(10));
    assert_eq!(parse_decimal("11", 10), None);
    assert_eq!(parse_decimal("", 10), None);
    assert_eq!(parse_decimal("+", 10), None);
    assert_eq!(parse_decimal("++1", 10), None);
    assert_eq!(parse_decimal("-1", 10), None);
    assert_eq!(parse_decimal(" 1", 10), None);
    assert_eq!(parse_decimal("1a", 10), None);
    assert_eq!(parse_decimal("18446744073709551615", u64::MAX), Some(u64::MAX));
    assert_eq!(parse_decimal("18446744073709551616", u64::MAX), None);
    assert_eq!(parse_decimal("99999999999999999999999", u64::MAX), None);
}

#[test]
fn decimal_numbers_are_those_of_the_standard_library() {
    for text in ["", "+", "-0", "+0", "7", "007", "65535", "65536", "1e3", "1_0", "\u{661}"] {
        assert_eq!(
            parse_decimal(text, u16::MAX as u64),
            text.parse::<u16>().ok().map(u64::from),
            "{text}"
        );
    }
}

#[test]
fn listed_names_match_in_any_case() {
    assert!(is_listed(&["host", "upgrade"], "Host"));
    assert!(is_listed(&["host", "upgrade"], "UPGRADE"));
    assert!(!is_listed(&["host"], "hosts"));
    assert!(!is_listed(&[], "host"));
}

#[test]
fn headers_are_copied_set_and_read() {
    let mut source = HeaderMap::new();
    source.insert("a", HeaderValue::from_static("1"));
    source.insert("b", HeaderValue::from_static("2"));
    source.insert("c", HeaderValue::from_static("3"));
    let mut copied = copy_without(&source, &["A"], &["c"]);
    assert_eq!(copied.len(), 1);
    assert_eq!(header_text(&copied, "b"), "2");
    assert_eq!(header_text(&copied, "a"), "");
    copied.append("b", HeaderValue::from_static("4"));
    codex_egress_relay::headers::set(&mut copied, "b", "5");
    assert_eq!(copied.len(), 1);
    assert_eq!(header_text(&copied, "b"), "5");
    codex_egress_relay::headers::set(&mut copied, "b", "bad\r\n");
    assert_eq!(header_text(&copied, "b"), "5");
    set_all(&mut copied, &["d", "e"], &["6", "7"]);
    assert_eq!(header_text(&copied, "d"), "6");
    assert_eq!(header_text(&copied, "e"), "7");
}
