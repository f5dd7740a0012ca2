use vps_monitor::clock::{is_earlier, parse_rfc3339, Moment};

#[test]
fn moments_lie_within_the_calendar() {
    assert!(Moment::new(0, 0).is_some());
    assert!(Moment::new(-8334601228800, 0).is_some());
    assert!(Moment::new(-8334601228801, 0).is_none());
    assert!(Moment::new(8210266876799, 999_999_999).is_some());
    assert!(Moment::new(8210266876800, 0).is_none());
    assert!(Moment::new(59, 1_500_000_000).is_some());
    assert!(Moment::new(58, 1_500_000_000).is_none());
    assert!(Moment::new(-1, 1_500_000_000).is_some());
    assert!(Moment::new(59, 2_000_000_000).is_none());
}

#[test]
fn bounds_are_those_of_chrono() {
    for (secs, nanos) in [
        (-8334601228800i64, 0u32),
        (-8334601228801, 0),
        (8210266876799, 999_999_999),
        (8210266876800, 0),
        (59, 1_500_000_000),
        (58, 1_500_000_000),
        (-1, 1_500_000_000),
        (59, 2_000_000_000),
    ] {
        assert_eq!(
            Moment::new(secs, nanos).is_some(),
            chrono::DateTime::from_timestamp(secs, nanos).is_some(),
        );
    }
}

#[test]
fn rfc3339_texts() {
    let m = Moment::new(1789905600, 0).unwrap();
    assert_eq!(m.to_rfc3339(), "2026-09-20T12:00:00+00:00");
    let m = Moment::new(1789905600, 120_000_000).unwrap();
    assert_eq!(m.to_rfc3339(), "2026-09-20T12:00:00.120+00:00");
}

#[test]
fn reading_gives_back_what_was_written() {
    for (secs, nanos) in [
        (0i64, 0u32),
        (1789905600, 1),
        (1789905600, 123_000),
        (1789905600, 999_999_999),
        (-62167219200, 0),
        (253402300799, 999_999_999),
        (59, 1_999_999_999),
    ] {
        let text = Moment::new(secs, nanos).unwrap().to_rfc3339();
        assert_eq!(parse_rfc3339(&text), Some((secs, nanos)), "{}", text);
    }
}

#[test]
fn rfc3339_other_forms() {
    assert_eq!(parse_rfc3339("1970-01-01T08:00:00+08:00"), Some((0, 0)));
    assert_eq!(parse_rfc3339("1970-01-01 00:00:01Z"), Some((1, 0)));
    assert_eq!(parse_rfc3339("1970-01-01"), None);
    assert_eq!(parse_rfc3339("soon"), None);
    assert_eq!(parse_rfc3339(""), None);
}

#[test]
fn minutes_are_taken_off() {
    let m = Moment::new(1000, 5).unwrap();
    assert_eq!(m.minus_minutes(5), Some((700, 5)));
    assert_eq!(m.minus_minutes(i64::MAX), None);
    let first = Moment::new(-8334601228800 + 60, 0).unwrap();
    assert_eq!(first.minus_minutes(1), Some((-8334601228800, 0)));
    assert_eq!(first.minus_minutes(2), None);
    let leap = Moment::new(59, 1_300_000_000).unwrap();
    assert_eq!(leap.minus_minutes(1), Some((0, 300_000_000)));
    let last = Moment::new(8210266876799, 1_000_000_000).unwrap();
    assert_eq!(last.minus_minutes(1), Some((8210266876740, 0)));
}

#[test]
fn earlier_looks_at_seconds_first() {
    assert!(is_earlier((1, 9), (2, 0)));
    assert!(is_earlier((1, 1), (1, 2)));
    assert!(!is_earlier((1, 2), (1, 2)));
    assert!(!is_earlier((2, 0), (1, 9)));
}
