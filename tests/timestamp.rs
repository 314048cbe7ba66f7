use skyscraper::{parse_timestamp, Instant};

#[test]
fn parse_timestamp_rfc3339_utc() {
    let dt = parse_timestamp("2024-06-15T12:30:00Z").unwrap();
    assert_eq!(dt.to_rfc3339(), "2024-06-15T12:30:00+00:00");
}

#[test]
fn parse_timestamp_rfc3339_with_offset() {
    let dt = parse_timestamp("2024-06-15T12:30:00+05:30").unwrap();
    assert_eq!(dt.to_rfc3339(), "2024-06-15T12:30:00+05:30");
}

#[test]
fn parse_timestamp_plus0000_fallback() {
    let dt = parse_timestamp("2024-06-15T12:30:00+0000").unwrap();
    assert_eq!(dt.to_rfc3339(), "2024-06-15T12:30:00+00:00");
}

#[test]
fn parse_timestamp_invalid_string() {
    assert!(parse_timestamp("not-a-date").is_err());
}

#[test]
fn parse_timestamp_empty_string() {
    assert!(parse_timestamp("").is_err());
}

#[test]
fn parse_timestamp_error_keeps_input() {
    let e = parse_timestamp("yesterday").unwrap_err();
    assert_eq!(e.input, "yesterday");
}

#[test]
fn parse_timestamp_gives_the_instant() {
    let t = parse_timestamp("2020-01-01T00:00:00Z").unwrap();
    assert_eq!(t.instant(), Instant { secs: 1577836800, nanos: 0 });
    assert_eq!(t.offset_secs, 0);
    let t = parse_timestamp("2024-06-15T12:30:00+05:30").unwrap();
    assert_eq!(t.secs, 1718434800);
    assert_eq!(t.offset_secs, 19800);
    let t = parse_timestamp("2024-06-15T12:30:00-0100").unwrap();
    assert_eq!(t.instant(), Instant { secs: 1718458200, nanos: 0 });
    assert_eq!(t.offset_secs, -3600);
    let t = parse_timestamp("2024-06-15T12:30:00.25Z").unwrap();
    assert_eq!(t.instant(), Instant { secs: 1718454600, nanos: 250_000_000 });
}

#[test]
fn instant_order() {
    let a = Instant { secs: 10, nanos: 5 };
    let b = Instant { secs: 10, nanos: 6 };
    let c = Instant { secs: 11, nanos: 0 };
    assert!(a.is_before(&b));
    assert!(b.is_before(&c));
    assert!(!b.is_before(&a));
    assert!(!a.is_before(&a));
}
