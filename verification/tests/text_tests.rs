use rustymixer::display::clock;
use rustymixer::text::{after_first, ends_with, starts_with, strip_prefix, strip_suffix, trim};

#[test]
fn trim_matches_std() {
    for s in ["", "  ", " a ", "\t\nab c\r\n", "x", "\u{3000}全角\u{3000}", "\u{a0}nbsp\u{85}"] {
        assert_eq!(trim(s), s.trim(), "{s:?}");
    }
}

#[test]
fn prefixes_and_suffixes() {
    assert!(starts_with("File1=x", "File"));
    assert!(!starts_with("Fil", "File"));
    assert!(ends_with("1 dB", "dB"));
    assert!(!ends_with("B", "dB"));
    assert_eq!(strip_prefix("File1=x", "File"), Some("1=x"));
    assert_eq!(strip_prefix("Title1=x", "File"), None);
    assert_eq!(strip_suffix("1 dB", "dB"), Some("1 "));
    assert_eq!(strip_suffix("1 db", "dB"), None);
}

#[test]
fn after_first_splits_once() {
    assert_eq!(after_first("a=b=c", '='), Some("b=c"));
    assert_eq!(after_first("=", '='), Some(""));
    assert_eq!(after_first("abc", '='), None);
}

#[test]
fn clock_text() {
    assert_eq!(clock(0), "00:00");
    assert_eq!(clock(5), "00:05");
    assert_eq!(clock(65), "01:05");
    assert_eq!(clock(600), "10:00");
    assert_eq!(clock(3599), "59:59");
    assert_eq!(clock(7325), "122:05");
}

#[test]
fn trim_twice_is_trim_once() {
    for s in ["  a b  ", "\t\r\n", "x", " \u{2003}y\u{2003} "] {
        assert_eq!(trim(trim(s)), trim(s));
    }
}
