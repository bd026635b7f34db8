use alerter::{format_between, format_since, format_span};
use chrono::DateTime;

#[test]
fn span_of_two_weeks() {
    assert_eq!(
        format_span("1990-12-01T22:00:00Z", "1990-12-15T22:00:00Z"),
        Some("2 weeks".to_string())
    );
}

#[test]
fn span_across_offsets() {
    // The same instant written with two offsets is no span at all.
    assert_eq!(
        format_span("1990-12-01T22:00:00Z", "1990-12-02T01:00:00+03:00"),
        Some(String::new())
    );
    assert_eq!(
        format_span("1990-12-01T22:00:00+01:00", "1990-12-01T22:00:00Z"),
        Some("1 hour".to_string())
    );
}

#[test]
fn span_backwards_is_negative() {
    assert_eq!(
        format_span("1990-12-01T23:00:00Z", "1990-12-01T22:00:00Z"),
        Some("-1 hours".to_string())
    );
}

#[test]
fn span_of_bad_text_is_none() {
    assert_eq!(format_span("yesterday", "1990-12-01T22:00:00Z"), None);
    assert_eq!(format_span("1990-12-01T22:00:00Z", "1990-13-01T22:00:00Z"), None);
}

#[test]
fn span_over_leap_second_matches_chrono() {
    let from = "1990-12-31T23:59:60.500Z";
    let to = "1991-01-01T00:00:10Z";
    let delta = DateTime::parse_from_rfc3339(to)
        .unwrap()
        .signed_duration_since(DateTime::parse_from_rfc3339(from).unwrap());
    let expected = alerter::format_elapsed(delta.num_seconds(), delta.subsec_nanos());
    assert_eq!(format_span(from, to), expected);
}

#[test]
fn since_a_moment() {
    let now = DateTime::parse_from_rfc3339("1990-12-17T23:30:15.500Z").unwrap();
    assert_eq!(
        format_since("1990-12-01T22:00:00Z", now.timestamp(), now.timestamp_subsec_nanos()),
        Some("2 weeks 2 days 1 hour 30 minutes 15 seconds".to_string())
    );
    assert_eq!(format_since("not a date", now.timestamp(), 0), None);
}

#[test]
fn between_instants() {
    assert_eq!(format_between((90, 0), (0, 0)), Some("1 minute 30 seconds".to_string()));
    assert_eq!(format_between((0, 1_500_000), (0, 0)), Some("1 millisecond".to_string()));
    assert_eq!(format_between((i64::MAX, 0), (0, 0)), None);
}
