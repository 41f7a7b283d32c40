//! Text and time.
use agm_supervisor::json;
use agm_supervisor::json::Field;
use agm_supervisor::text;
use agm_supervisor::time::{is_earlier, past, same_instant, Instant};

#[test]
fn text_is_trimmed_and_compared_by_its_characters() {
    assert_eq!(text::trim(" \t\u{3000}a b\n"), "a b");
    assert_eq!(text::trim("  "), "");
    assert!(text::blank("\u{a0}\r\n"));
    assert!(!text::blank(" x "));
    assert!(text::precedes("2026-01", "2026-02"));
    assert!(text::precedes("a", "ab"));
    assert!(!text::precedes("b", "ab"));
    assert!(!text::precedes("same", "same"));
    assert!(text::precedes("", "a"));
}

#[test]
fn numbers_are_written_and_read_back() {
    for n in [0, 1, -1, 42, i64::MAX, i64::MIN] {
        assert_eq!(text::signed(n), n.to_string());
        assert_eq!(text::parse_i64(&n.to_string()), Some(n));
    }
    assert_eq!(text::number(u64::MAX), "18446744073709551615");
    for bad in ["", "-", "+", "1 ", " 1", "0x1", "9223372036854775808", "-9223372036854775809", "1_0", "１"] {
        assert_eq!(text::parse_i64(bad), bad.parse::<i64>().ok(), "{bad:?}");
        assert_eq!(text::parse_i64(bad), None, "{bad:?}");
    }
    assert_eq!(text::parse_i64("+7"), Some(7));
    assert_eq!(text::parse_i64("-007"), Some(-7));
}

#[test]
fn a_part_is_found_where_it_begins() {
    assert_eq!(text::find("排隊中 queued", "queued"), Some(4));
    assert_eq!(text::find("abc", ""), Some(0));
    assert_eq!(text::find("abc", "abcd"), None);
    assert_eq!(text::find("aab", "ab"), Some(1));
    assert_eq!(text::trim_slashes("a//"), "a");
    assert_eq!(text::trim_slashes("/"), "");
}

#[test]
fn missing_text_falls_back() {
    assert_eq!(text::or(None, &Some("b".into())).as_deref(), Some("b"));
    assert_eq!(text::or(Some("a"), &Some("b".into())).as_deref(), Some("a"));
    assert!(text::same_opt(None, None));
    assert!(!text::same_opt(Some(""), None));
}

#[test]
fn times_are_compared_as_instants() {
    let noon = Instant { secs: 1_789_214_400, nanos: 0 };
    assert!(past("2026-09-12T11:59:59Z", noon));
    assert!(past("2026-09-12T12:00:00Z", noon));
    assert!(!past("2026-09-12T12:00:00.001Z", noon));
    assert!(past("2026-09-12T19:59:00+08:00", noon));
    assert!(is_earlier("2026-09-12T20:00:00+08:00", "2026-09-12T12:00:01Z"));
    assert!(!is_earlier("2026-09-12T12:00:00Z", "2026-09-12T20:00:00+08:00"));
    assert!(same_instant(Some("2026-09-12T20:00:00+08:00"), Some("2026-09-12T12:00:00Z")));
    assert!(!same_instant(Some("2026-09-12T20:00:00Z"), None));
    assert!(noon.is_before(noon.later(1)));
    assert_eq!(noon.later(60).secs, 1_789_214_460);
}

#[test]
fn what_is_absent_is_null() {
    assert!(matches!(json::text_or_null(&None), Field::Null));
    assert!(matches!(json::str_or_null(Some("x")), Field::Str("x")));
    assert!(matches!(json::int_or_null(Some(3)), Field::Int(3)));
}
