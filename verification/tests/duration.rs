use alerter::{format_duration, format_elapsed, format_unit, Duration};
use chrono::DateTime;

fn span(later: &str, earlier: &str) -> Duration {
    let time1 = DateTime::parse_from_rfc3339(later).unwrap();
    let time2 = DateTime::parse_from_rfc3339(earlier).unwrap();
    let delta = time1.signed_duration_since(time2);
    Duration::from_parts(delta.num_seconds(), delta.subsec_nanos()).unwrap()
}

#[test]
fn test_format_duration_weeks() {
    assert_eq!(
        format_duration(span("1990-12-15T22:00:00Z", "1990-12-01T22:00:00Z")),
        "2 weeks"
    );
}

#[test]
fn test_format_duration_days() {
    assert_eq!(
        format_duration(span("1990-12-03T22:00:00Z", "1990-12-01T22:00:00Z")),
        "2 days"
    );
}

#[test]
fn test_format_duration_hour() {
    assert_eq!(
        format_duration(span("1990-12-01T23:00:00Z", "1990-12-01T22:00:00Z")),
        "1 hour"
    );
}

#[test]
fn test_format_duration_minutes() {
    assert_eq!(
        format_duration(span("1990-12-01T22:30:00Z", "1990-12-01T22:00:00Z")),
        "30 minutes"
    );
}

#[test]
fn test_format_duration_seconds() {
    assert_eq!(
        format_duration(span("1990-12-01T22:00:15Z", "1990-12-01T22:00:00Z")),
        "15 seconds"
    );
}

#[test]
fn test_format_duration_milliseconds() {
    assert_eq!(
        format_duration(span("1990-12-01T22:00:00.500Z", "1990-12-01T22:00:00.000Z")),
        "500 milliseconds"
    );
}

#[test]
fn test_format_duration_full() {
    // Milliseconds ignored if seconds not 0.
    assert_eq!(
        format_duration(span("1990-12-17T23:30:15.500Z", "1990-12-01T22:00:00.000Z")),
        "2 weeks 2 days 1 hour 30 minutes 15 seconds"
    );
}

#[test]
fn format_unit_zero_is_empty() {
    assert_eq!(format_unit("week".to_string(), "weeks".to_string(), 0), "");
}

#[test]
fn format_unit_one_is_singular() {
    assert_eq!(format_unit("day".to_string(), "days".to_string(), 1), " 1 day");
}

#[test]
fn format_unit_many_is_plural() {
    assert_eq!(format_unit("hour".to_string(), "hours".to_string(), 23), " 23 hours");
    assert_eq!(format_unit("hour".to_string(), "hours".to_string(), 1234567890), " 1234567890 hours");
}

#[test]
fn format_unit_negative_counts_are_plural() {
    assert_eq!(format_unit("hour".to_string(), "hours".to_string(), -1), " -1 hours");
    assert_eq!(
        format_unit("x".to_string(), "xs".to_string(), i64::MIN),
        " -9223372036854775808 xs"
    );
    assert_eq!(
        format_unit("x".to_string(), "xs".to_string(), i64::MAX),
        " 9223372036854775807 xs"
    );
}

#[test]
fn format_duration_zero_is_empty() {
    assert_eq!(format_duration(Duration::new(0, 0).unwrap()), "");
    assert_eq!(format_duration(Duration::new(0, 999_999).unwrap()), "");
}

#[test]
fn format_duration_one_millisecond() {
    assert_eq!(format_duration(Duration::new(0, 1_000_000).unwrap()), "1 millisecond");
}

#[test]
fn format_duration_drops_millis_beside_seconds() {
    assert_eq!(format_duration(Duration::new(1, 500_000_000).unwrap()), "1 second");
    assert_eq!(format_duration(Duration::new(60, 500_000_000).unwrap()), "1 minute 500 milliseconds");
}

#[test]
fn format_duration_every_unit() {
    // 1 week, 1 day, 1 hour, 1 minute, 1 second.
    let secs = 604_800 + 86_400 + 3_600 + 60 + 1;
    assert_eq!(
        format_duration(Duration::new(secs, 0).unwrap()),
        "1 week 1 day 1 hour 1 minute 1 second"
    );
}

#[test]
fn format_duration_negative_spans() {
    assert_eq!(format_duration(Duration::from_parts(-3600, 0).unwrap()), "-1 hours");
    assert_eq!(
        format_duration(Duration::from_parts(-90, -250_000_000).unwrap()),
        "-1 minutes -30 seconds"
    );
    assert_eq!(format_duration(Duration::from_parts(0, -2_000_000).unwrap()), "-2 milliseconds");
}

#[test]
fn format_duration_longest_span() {
    let longest = Duration::new(9_223_372_036_854_775, 807_000_000).unwrap();
    assert_eq!(
        format_duration(longest),
        "15250284452 weeks 3 days 7 hours 12 minutes 55 seconds"
    );
}

#[test]
fn format_elapsed_matches_format_duration() {
    assert_eq!(format_elapsed(1_209_600, 0), Some("2 weeks".to_string()));
    assert_eq!(format_elapsed(0, 1_000_000_000), None);
    assert_eq!(format_elapsed(i64::MAX, 0), None);
}

#[test]
fn duration_new_bounds_match_chrono() {
    let cases: [(i64, u32); 8] = [
        (0, 0),
        (0, 999_999_999),
        (0, 1_000_000_000),
        (9_223_372_036_854_775, 807_000_000),
        (9_223_372_036_854_775, 807_000_001),
        (-9_223_372_036_854_776, 193_000_000),
        (-9_223_372_036_854_776, 192_999_999),
        (i64::MIN, 0),
    ];
    for (secs, nanos) in cases {
        assert_eq!(
            Duration::new(secs, nanos).is_some(),
            chrono::TimeDelta::new(secs, nanos).is_some(),
            "secs {} nanos {}",
            secs,
            nanos
        );
    }
}

#[test]
fn duration_from_parts_refuses_bad_fractions() {
    assert!(Duration::from_parts(0, 1_000_000_000).is_none());
    assert!(Duration::from_parts(0, -1_000_000_000).is_none());
    assert!(Duration::from_parts(i64::MIN, -1).is_none());
    assert!(Duration::from_parts(-5, -999_999_999).is_some());
}

#[test]
fn whole_units_round_toward_zero() {
    let d = Duration::new(-2, 500_000_000).unwrap(); // -1.5 s
    assert_eq!(d.num_seconds(), -1);
    assert_eq!(d.num_milliseconds(), -1500);
    assert_eq!(d.num_minutes(), 0);
    let d = Duration::new(-2, 999_999).unwrap(); // -1.999000001 s
    assert_eq!(d.num_milliseconds(), -1999);
}

#[test]
fn whole_units_of_two_weeks() {
    let d = Duration::new(1_209_600, 123_456_789).unwrap();
    assert_eq!(d.num_weeks(), 2);
    assert_eq!(d.num_days(), 14);
    assert_eq!(d.num_hours(), 336);
    assert_eq!(d.num_minutes(), 20_160);
    assert_eq!(d.num_seconds(), 1_209_600);
    assert_eq!(d.num_milliseconds(), 1_209_600_123);
}

#[test]
fn parts_recompose_to_whole_milliseconds() {
    // 2 weeks 2 days 1 hour 30 minutes 15 seconds 500 milliseconds.
    let d = span("1990-12-17T23:30:15.500Z", "1990-12-01T22:00:00.000Z");
    let total = 2 * 604_800_000 + 2 * 86_400_000 + 3_600_000 + 30 * 60_000 + 15 * 1000 + 500;
    assert_eq!(d.num_milliseconds(), total);
}

#[test]
fn spans_told_to_the_millisecond() {
    assert_eq!(
        format_duration(Duration::new(0, 1_000_000).unwrap()),
        format_duration(Duration::new(0, 1_999_999).unwrap())
    );
    assert_eq!(format_duration(Duration::new(0, 1_999_999).unwrap()), "1 millisecond");
}
