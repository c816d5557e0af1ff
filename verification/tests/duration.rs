use std::time::Duration;

use caffeine::duration::{fmt, parse, parse_overflows};

#[test]
fn test_parse_plain_number() {
    assert_eq!(parse("30").unwrap(), Some(Duration::from_secs(1800)));
    assert_eq!(parse("1").unwrap(), Some(Duration::from_secs(60)));
}

#[test]
fn test_parse_with_units() {
    assert_eq!(parse("2h").unwrap(), Some(Duration::from_secs(7200)));
    assert_eq!(parse("30m").unwrap(), Some(Duration::from_secs(1800)));
    assert_eq!(parse("90s").unwrap(), Some(Duration::from_secs(90)));
}

#[test]
fn test_parse_combined() {
    assert_eq!(parse("1h30m").unwrap(), Some(Duration::from_secs(5400)));
    assert_eq!(parse("2h15m30s").unwrap(), Some(Duration::from_secs(8130)));
}

#[test]
fn test_parse_indefinite() {
    assert_eq!(parse("inf").unwrap(), None);
    assert_eq!(parse("∞").unwrap(), None);
    assert_eq!(parse("").unwrap(), None);
}

#[test]
fn test_fmt() {
    assert_eq!(fmt(Duration::from_secs(7200)), "2h");
    assert_eq!(fmt(Duration::from_secs(5400)), "1h30m");
    assert_eq!(fmt(Duration::from_secs(1800)), "30m");
    assert_eq!(fmt(Duration::from_secs(90)), "1m30s");
    assert_eq!(fmt(Duration::from_secs(45)), "45s");
}

#[test]
fn parse_other_indefinite_words_and_whitespace() {
    assert_eq!(parse("forever").unwrap(), None);
    assert_eq!(parse("indefinite").unwrap(), None);
    assert_eq!(parse("  inf\t\n").unwrap(), None);
    assert_eq!(parse("   ").unwrap(), None);
    assert_eq!(parse(" 2h ").unwrap(), Some(Duration::from_secs(7200)));
    assert_eq!(parse("\u{3000}2h\u{a0}").unwrap(), Some(Duration::from_secs(7200)));
    assert_eq!(parse("\u{200b}2h").unwrap_err(), "expected a number, got '\u{200b}2h'");
}

#[test]
fn parse_trailing_bare_number_is_minutes() {
    // After a unit, a bare number still counts minutes.
    assert_eq!(parse("1h5").unwrap(), Some(Duration::from_secs(3900)));
    assert_eq!(parse("007m").unwrap(), Some(Duration::from_secs(420)));
    assert_eq!(parse("1s1s1s").unwrap(), Some(Duration::from_secs(3)));
}

#[test]
fn parse_errors() {
    assert_eq!(parse("0").unwrap_err(), "duration must be greater than zero");
    assert_eq!(parse("0h0m").unwrap_err(), "duration must be greater than zero");
    assert_eq!(parse("abc").unwrap_err(), "expected a number, got 'abc'");
    assert_eq!(parse("1hx").unwrap_err(), "expected a number, got 'x'");
    assert_eq!(parse("+5").unwrap_err(), "expected a number, got '+5'");
    assert_eq!(parse("5d").unwrap_err(), "unknown unit 'd', expected h/m/s");
    assert_eq!(parse("5 m").unwrap_err(), "unknown unit ' ', expected h/m/s");
    assert_eq!(
        parse("99999999999999999999s").unwrap_err(),
        "number too large: number too large to fit in target type"
    );
}

#[test]
fn parse_overflow_detection() {
    assert!(!parse_overflows("30"));
    assert!(!parse_overflows("inf"));
    assert!(!parse_overflows("abc"));
    assert!(!parse_overflows("18446744073709551615s"));
    assert!(parse_overflows("18446744073709551615m"));
    assert!(parse_overflows("18446744073709551615s1s"));
    // The parse error comes before any addition.
    assert!(!parse_overflows("x18446744073709551615m"));
    assert_eq!(
        parse("18446744073709551615s").unwrap(),
        Some(Duration::from_secs(u64::MAX))
    );
}

#[test]
fn fmt_edge_cases() {
    assert_eq!(fmt(Duration::from_secs(0)), "0s");
    assert_eq!(fmt(Duration::from_secs(60)), "1m");
    assert_eq!(fmt(Duration::from_secs(3600)), "1h");
    // Seconds are dropped once there is an hour.
    assert_eq!(fmt(Duration::from_secs(3601)), "1h0m");
    assert_eq!(fmt(Duration::from_secs(5430)), "1h30m");
    assert_eq!(fmt(Duration::from_millis(1999)), "1s");
    assert_eq!(fmt(Duration::from_secs(360000)), "100h");
}

#[test]
fn fmt_then_parse_roundtrip() {
    for secs in [1u64, 45, 59, 60, 61, 90, 1800, 3599, 3600, 5400, 7200, 86400, 90060] {
        let text = fmt(Duration::from_secs(secs));
        assert_eq!(parse(&text).unwrap(), Some(Duration::from_secs(secs)), "{text}");
    }
}

#[test]
fn bare_number_means_minutes() {
    for n in [1u64, 5, 30, 90, 1440] {
        assert_eq!(parse(&n.to_string()).unwrap(), Some(Duration::from_secs(n * 60)));
    }
}
