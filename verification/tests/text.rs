//! Text and small values.

use cirrus::error::{CirrusError, Span};
use cirrus::kind::Kind;
use cirrus::signal::{expand, try_join_all_connects};
use cirrus::text::{
    chars_of, dec_i64, dec_u64, join3, join_all, parse_i64, parse_u64, split_once, starts_with, trim,
    trim_end_char, trim_start_char,
};

#[test]
fn numbers_are_written_and_read() {
    for n in [0, 9, 10, 1234567890, u64::MAX] {
        assert_eq!(dec_u64(n), n.to_string());
        assert_eq!(parse_u64(&n.to_string()), Some(n));
    }
    for n in [i64::MIN, -1, 0, 42, i64::MAX] {
        assert_eq!(dec_i64(n), n.to_string());
        assert_eq!(parse_i64(&n.to_string()), Some(n));
    }
    for s in ["", "+", "-", "1a", " 1", "18446744073709551616", "0x1"] {
        assert_eq!(parse_u64(s), s.parse::<u64>().ok(), "{s}");
    }
    for s in ["", "-", "+5", "-0", "9223372036854775808", "-9223372036854775808", "1.0"] {
        assert_eq!(parse_i64(s), s.parse::<i64>().ok(), "{s}");
    }
}

#[test]
fn text_is_trimmed_and_split() {
    for s in ["", "  a b ", "\u{2003}x\u{a0}", "\t\r\n", "z"] {
        assert_eq!(trim(s), s.trim(), "{s:?}");
    }
    assert_eq!(trim_start_char("//a/", '/'), "a/");
    assert_eq!(trim_end_char("/a//", '/'), "/a");
    assert_eq!(split_once("a=b=c", '='), Some(("a".to_string(), "b=c".to_string())));
    assert_eq!(split_once("abc", '='), None);
    assert!(starts_with("abc", "ab") && !starts_with("ab", "abc"));
    assert_eq!(join_all(&vec!["a".into(), "b".into(), "c".into()], ", "), "a, b, c");
    assert_eq!(join3("x", "", "z"), "xz");
    assert_eq!(chars_of("a\u{e9}b").len(), 3);
}

#[test]
fn templates_are_expanded() {
    assert_eq!(expand("{prefix}.VAL", "BL:m1"), "BL:m1.VAL");
    assert_eq!(expand("{prefix}:{prefix}", "x"), "x:x");
    assert_eq!(expand("plain", "x"), "plain");
    assert_eq!(expand("{prefi}{prefix", "x"), "{prefi}{prefix");
    assert_eq!(expand("{{prefix}}", "{prefix}"), "{{prefix}}");
}

#[test]
fn errors_are_described() {
    assert_eq!(CirrusError::Plan("no run".into()).describe(), "no run");
    assert_eq!(CirrusError::Backend("x".into()).describe(), "x");
    assert!(!CirrusError::Cancelled.describe().is_empty());
    assert!(CirrusError::InvalidValue("y".into()).describe().ends_with('y'));
    let t = CirrusError::Timeout(Span { secs: 0, nanos: 100_000_000 }).describe();
    assert_eq!(t, "timed out");
}

#[test]
fn the_first_failed_connection_counts() {
    assert_eq!(try_join_all_connects(vec![Ok(()), Ok(())]), Ok(()));
    let a = CirrusError::Backend("a".into());
    let b = CirrusError::Backend("b".into());
    assert_eq!(
        try_join_all_connects(vec![Ok(()), Err(a), Err(b)]),
        Err(CirrusError::Backend("a".into()))
    );
    assert_eq!(try_join_all_connects(vec![]), Ok(()));
}

#[test]
fn kinds_say_where_a_signal_is_told() {
    assert_eq!(Kind::default(), Kind::Normal);
    assert!(Kind::Normal.in_event_data() && Kind::Hinted.in_event_data());
    assert!(!Kind::Config.in_event_data() && Kind::Config.in_configuration());
    assert!(!Kind::Omitted.in_event_data() && !Kind::Omitted.in_configuration());
    assert!(Kind::Hinted.is_hinted() && !Kind::Normal.is_hinted());
}
