//! Spans between instants written in RFC 3339, told in words (what the message
//! templates show as an alert's age and length).
use vstd::prelude::*;
use crate::calendar::{days_from_epoch, days_in_month, days_since_epoch, is_date, lemma_next_day, leap_years_before};
use crate::duration::{duration_text, format_elapsed, is_span};
use crate::span::{div_toward_zero, lemma_div_toward_zero_bounds};
use chrono::{Datelike, Timelike};

verus! {

/// A date and time of day as written, with the offset from UTC it is written in.
#[derive(Debug, Clone, Copy, PartialEq, Eq, Structural)]
pub struct LocalDateTime {
    /// The year.
    pub year: i32,
    /// The month, 1 to 12.
    pub month: u32,
    /// The day of the month, from 1.
    pub day: u32,
    /// The hour, 0 to 23.
    pub hour: u32,
    /// The minute, 0 to 59.
    pub minute: u32,
    /// The second, 0 to 59 (a leap second is second 59 with `10^9` more nanoseconds).
    pub second: u32,
    /// The nanoseconds beyond the second, `10^9` or more during a leap second.
    pub nanosecond: u32,
    /// The local time minus UTC, in seconds.
    pub offset: i32,
}

/// Whether `f` is a date-time as RFC 3339 writes it: a date of a four-digit year,
/// a time of day, nanoseconds beyond the second (a leap second only at second 59),
/// and an offset of less than a day.
pub open spec fn is_rfc3339_date_time(f: LocalDateTime) -> bool {
    &&& 0 <= f.year <= 9999
    &&& is_date(f.year as int, f.month as int, f.day as int)
    &&& f.hour < 24
    &&& f.minute < 60
    &&& f.second < 60
    &&& f.nanosecond < 2_000_000_000
    &&& (f.nanosecond >= 1_000_000_000 ==> f.second == 59)
    &&& -86400 < f.offset < 86400
}

/// The seconds from 1970-01-01T00:00:00 to the wall-clock time of `f`, its offset aside.
pub open spec fn local_seconds(f: LocalDateTime) -> int {
    days_from_epoch(f.year as int, f.month as int, f.day as int) * 86400 + f.hour * 3600 + f.minute * 60
        + f.second
}

/// The Unix time of `f` in whole seconds: its wall-clock seconds minus its offset.
pub open spec fn unix_seconds(f: LocalDateTime) -> int {
    local_seconds(f) - f.offset
}

/// What `chrono::DateTime::parse_from_rfc3339` makes of `text`: the local date,
/// time and offset it reads, or `None` where it refuses the text.
pub uninterp spec fn rfc3339_fields(text: Seq<char>) -> Option<LocalDateTime>;

/// The instant that the RFC 3339 date-time `text` denotes: whole seconds since
/// the Unix epoch and the nanoseconds beyond (`10^9` or more during a leap second),
/// or `None` where it is no such date-time.
pub open spec fn rfc3339_instant(text: Seq<char>) -> Option<(i64, u32)> {
    match rfc3339_fields(text) {
        Some(f) => Some((unix_seconds(f) as i64, f.nanosecond)),
        None => None,
    }
}

/// `chrono::DateTime::parse_from_rfc3339`, the result given by its local date and
/// time fields (`Datelike`, `Timelike`) and `offset().local_minus_utc()`. Its source
/// reads a four-digit year, a date that `NaiveDate::from_ymd_opt` accepts, a time
/// that `NaiveTime::from_hms_nano_opt` accepts (second 60 becomes second 59 with
/// `10^9` more nanoseconds) and an offset that `FixedOffset::east_opt` accepts.
/// Which fields it reads from which text is not stated.
#[verifier::external_body]
fn parse_rfc3339(text: &str) -> (r: Option<LocalDateTime>)
    ensures
        r == rfc3339_fields(text@),
        r matches Some(f) ==> is_rfc3339_date_time(f),
{
    match chrono::DateTime::parse_from_rfc3339(text) {
        Ok(t) => Some(LocalDateTime {
            year: t.year(),
            month: t.month(),
            day: t.day(),
            hour: t.hour(),
            minute: t.minute(),
            second: t.second(),
            nanosecond: t.nanosecond(),
            offset: t.offset().local_minus_utc(),
        }),
        Err(_) => None,
    }
}

/// The instant of a date-time: Unix seconds and the nanoseconds beyond.
pub fn instant_of(f: &LocalDateTime) -> (r: (i64, u32))
    requires
        is_rfc3339_date_time(*f),
    ensures
        r.0 == unix_seconds(*f),
        r.1 == f.nanosecond,
{
    let days = days_since_epoch(f.year, f.month, f.day);
    let seconds = days * 86400 + (f.hour as i64) * 3600 + (f.minute as i64) * 60 + f.second as i64
        - f.offset as i64;
    (seconds, f.nanosecond)
}

/// The RFC 3339 date-time `text` read as an instant.
fn parse_instant(text: &str) -> (r: Option<(i64, u32)>)
    ensures
        r == rfc3339_instant(text@),
{
    match parse_rfc3339(text) {
        Some(f) => Some(instant_of(&f)),
        None => None,
    }
}

/// The second of the day of Unix time `s`.
pub open spec fn second_of_day(s: int) -> int {
    s % 86400
}

/// The second that chrono adds or takes away where one instant is in a leap second
/// (nanoseconds `10^9` or more) and the other falls later or earlier in its day.
pub open spec fn leap_correction(secs: int, nanos: int, since_secs: int, since_nanos: int) -> int {
    if second_of_day(secs) > second_of_day(since_secs) && since_nanos >= 1_000_000_000 {
        1
    } else if second_of_day(secs) < second_of_day(since_secs) && nanos >= 1_000_000_000 {
        -1
    } else {
        0
    }
}

/// Nanoseconds from instant `(since_secs, since_nanos)` to instant `(secs, nanos)`,
/// as `DateTime::signed_duration_since` counts them.
pub open spec fn elapsed_nanos(secs: int, nanos: int, since_secs: int, since_nanos: int) -> int {
    (secs - since_secs + leap_correction(secs, nanos, since_secs, since_nanos)) * 1_000_000_000 + nanos
        - since_nanos
}

/// The span from instant `(since_secs, since_nanos)` to instant `(secs, nanos)` as
/// whole seconds (toward zero) and the nanoseconds beyond; `None` where the whole
/// seconds do not fit in an `i64`.
pub open spec fn elapsed_between(secs: i64, nanos: u32, since_secs: i64, since_nanos: u32) -> Option<(i64, i32)> {
    let t = elapsed_nanos(secs as int, nanos as int, since_secs as int, since_nanos as int);
    let q = div_toward_zero(t, 1_000_000_000);
    if i64::MIN <= q <= i64::MAX {
        Some((q as i64, (t - q * 1_000_000_000) as i32))
    } else {
        None
    }
}

proof fn lemma_second_of_day_shift(s: int)
    ensures
        (s + 86400 * 106_751_991_167_301) % 86400 == s % 86400,
{
    vstd::arithmetic::div_mod::lemma_mod_multiples_vanish(106_751_991_167_301, s, 86400);
}

fn second_of_day_exec(s: i64) -> (r: u64)
    ensures
        r == second_of_day(s as int),
{
    let wide: i128 = s as i128 + 86400 * 106_751_991_167_301i128;
    assert(0 <= wide);
    let shifted: u128 = wide as u128;
    proof {
        lemma_second_of_day_shift(s as int);
        assert(shifted as int == s as int + 86400 * 106_751_991_167_301);
    }
    (shifted % 86400) as u64
}

/// `DateTime::signed_duration_since` on two instants given as Unix seconds and the
/// nanoseconds beyond, reported as `TimeDelta::num_seconds` and `TimeDelta::subsec_nanos`.
fn signed_duration_since(secs: i64, nanos: u32, since_secs: i64, since_nanos: u32) -> (r: Option<(i64, i32)>)
    ensures
        r == elapsed_between(secs, nanos, since_secs, since_nanos),
{
    let day_second = second_of_day_exec(secs);
    let since_day_second = second_of_day_exec(since_secs);
    let correction: i128 = if day_second > since_day_second && since_nanos >= 1_000_000_000 {
        1
    } else if day_second < since_day_second && nanos >= 1_000_000_000 {
        -1
    } else {
        0
    };
    let t: i128 = (secs as i128 - since_secs as i128 + correction) * 1_000_000_000 + nanos as i128
        - since_nanos as i128;
    let q: i128 = if t >= 0 {
        ((t as u128) / 1_000_000_000) as i128
    } else {
        -(((-t) as u128 / 1_000_000_000) as i128)
    };
    if q < i64::MIN as i128 || q > i64::MAX as i128 {
        None
    } else {
        Some((q as i64, (t - q * 1_000_000_000) as i32))
    }
}

/// The words for a span reported as whole seconds and nanoseconds beyond,
/// where a `Duration` holds it.
pub open spec fn elapsed_text(elapsed: Option<(i64, i32)>) -> Option<Seq<char>> {
    match elapsed {
        Some((seconds, subsec)) => if -1_000_000_000 < subsec < 1_000_000_000 && is_span(
            seconds * 1_000_000_000 + subsec,
        ) {
            Some(duration_text(seconds * 1_000_000_000 + subsec))
        } else {
            None
        },
        None => None,
    }
}

/// The words for the span from instant `since` to instant `until`.
pub open spec fn span_text(until: (i64, u32), since: (i64, u32)) -> Option<Seq<char>> {
    elapsed_text(elapsed_between(until.0, until.1, since.0, since.1))
}

/// Tells in words how long after the date-time `from` the date-time `to` is,
/// both written in RFC 3339: `None` where either text is no such date-time.
pub fn format_span(from: &str, to: &str) -> (r: Option<String>)
    ensures
        r is Some <==> (rfc3339_instant(from@) matches Some(since) && rfc3339_instant(to@) matches Some(until)
            && span_text(until, since) is Some),
        r matches Some(text) ==> (rfc3339_instant(from@) matches Some(since) && rfc3339_instant(to@) matches Some(until)
            && span_text(until, since) == Some(text@)),
{
    let since = parse_instant(from);
    let until = parse_instant(to);
    match (until, since) {
        (Some(until), Some(since)) => format_between(until, since),
        _ => None,
    }
}

/// Tells in words how long before the instant `now` (Unix seconds and the
/// nanoseconds beyond) the RFC 3339 date-time `then` is: `None` where `then` is
/// no such date-time.
pub fn format_since(then: &str, now_secs: i64, now_nanos: u32) -> (r: Option<String>)
    ensures
        r is Some <==> (rfc3339_instant(then@) matches Some(since) && span_text((now_secs, now_nanos), since) is Some),
        r matches Some(text) ==> (rfc3339_instant(then@) matches Some(since)
            && span_text((now_secs, now_nanos), since) == Some(text@)),
{
    match parse_instant(then) {
        Some(since) => format_between((now_secs, now_nanos), since),
        None => None,
    }
}

/// Tells in words the span from instant `since` to instant `until`.
pub fn format_between(until: (i64, u32), since: (i64, u32)) -> (r: Option<String>)
    ensures
        r is Some <==> span_text(until, since) is Some,
        r matches Some(text) ==> span_text(until, since) == Some(text@),
{
    match signed_duration_since(until.0, until.1, since.0, since.1) {
        Some((seconds, subsec)) => format_elapsed(seconds, subsec),
        None => None,
    }
}


/// The Unix time starts at 1970-01-01T00:00:00 UTC.
pub proof fn lemma_unix_epoch(f: LocalDateTime)
    requires
        f.year == 1970 && f.month == 1 && f.day == 1 && f.hour == 0 && f.minute == 0 && f.second == 0
            && f.offset == 0,
    ensures
        unix_seconds(f) == 0,
{
}

/// The same wall-clock reading at a larger offset (further east) is an earlier
/// instant, by exactly the difference of the offsets.
pub proof fn lemma_offset_moves_instant(f: LocalDateTime, g: LocalDateTime)
    requires
        f.year == g.year && f.month == g.month && f.day == g.day && f.hour == g.hour && f.minute == g.minute
            && f.second == g.second,
    ensures
        unix_seconds(f) - unix_seconds(g) == g.offset - f.offset,
{
}

/// Whether the wall clock of `g` reads one second after that of `f`, at the same
/// offset: the next second of the minute, else of the hour, else of the day, else
/// the first second of the next date.
pub open spec fn is_next_second(f: LocalDateTime, g: LocalDateTime) -> bool {
    &&& g.offset == f.offset
    &&& g.nanosecond == f.nanosecond
    &&& if f.second < 59 {
        g == LocalDateTime { second: (f.second + 1) as u32, ..f }
    } else if f.minute < 59 {
        g == LocalDateTime { minute: (f.minute + 1) as u32, second: 0, ..f }
    } else if f.hour < 23 {
        g == LocalDateTime { hour: (f.hour + 1) as u32, minute: 0, second: 0, ..f }
    } else {
        &&& g.hour == 0 && g.minute == 0 && g.second == 0
        &&& if f.day < days_in_month(f.year as int, f.month as int) {
            g.year == f.year && g.month == f.month && g.day == f.day + 1
        } else if f.month < 12 {
            g.year == f.year && g.month == f.month + 1 && g.day == 1
        } else {
            g.year == f.year + 1 && g.month == 1 && g.day == 1
        }
    }
}

/// Each second of the wall clock is one second of Unix time.
pub proof fn lemma_next_second(f: LocalDateTime, g: LocalDateTime)
    requires
        is_rfc3339_date_time(f),
        is_next_second(f, g),
    ensures
        unix_seconds(g) == unix_seconds(f) + 1,
{
    lemma_next_day(f.year as int, f.month as int, f.day as int);
}

/// 05:00 at UTC-05:00 and 10:00 UTC on 2022-03-14 are the same instant.
pub open spec fn offset_example_west() -> LocalDateTime {
    LocalDateTime { year: 2022, month: 3, day: 14, hour: 5, minute: 0, second: 0, nanosecond: 0, offset: -18000i32 }
}

/// 10:00 UTC on 2022-03-14.
pub open spec fn offset_example_utc() -> LocalDateTime {
    LocalDateTime { year: 2022, month: 3, day: 14, hour: 10, minute: 0, second: 0, nanosecond: 0, offset: 0 }
}

/// The instant of both examples is 1647252000.
pub proof fn lemma_offset_example()
    ensures
        unix_seconds(offset_example_west()) == 1647252000,
        unix_seconds(offset_example_utc()) == 1647252000,
{
    assert(leap_years_before(2022) == 490);
    assert(leap_years_before(1970) == 477);
}

/// Away from leap seconds, the span between two instants is their difference: its
/// whole seconds are the difference's, rounded toward zero, and the nanoseconds
/// beyond make up the rest, with the difference's sign; it is `None` only where
/// those whole seconds do not fit in an `i64`.
pub proof fn lemma_elapsed_is_difference(secs: i64, nanos: u32, since_secs: i64, since_nanos: u32)
    requires
        nanos < 1_000_000_000,
        since_nanos < 1_000_000_000,
    ensures
        ({
            let diff = (secs * 1_000_000_000 + nanos) - (since_secs * 1_000_000_000 + since_nanos);
            let q = div_toward_zero(diff, 1_000_000_000);
            &&& elapsed_nanos(secs as int, nanos as int, since_secs as int, since_nanos as int) == diff
            &&& (elapsed_between(secs, nanos, since_secs, since_nanos) is Some <==> i64::MIN <= q <= i64::MAX)
            &&& (elapsed_between(secs, nanos, since_secs, since_nanos) matches Some((whole, rest)) ==> {
                &&& whole == q
                &&& whole * 1_000_000_000 + rest == diff
                &&& -1_000_000_000 < rest < 1_000_000_000
                &&& (diff >= 0 ==> rest >= 0)
                &&& (diff <= 0 ==> rest <= 0)
            })
        }),
{
    let diff = (secs * 1_000_000_000 + nanos) - (since_secs * 1_000_000_000 + since_nanos);
    lemma_div_toward_zero_bounds(diff, 1_000_000_000);
}

/// A leap second (second 59 written with `10^9` more nanoseconds, that is second
/// 60) lasts one second: it begins one second after second 59 began, and the next
/// second of the same day begins one second after it began.
pub proof fn lemma_leap_second_lasts_a_second(s: i64, into_59: u32, into_leap: u32, into_next: u32)
    requires
        (s as int) % 86400 < 86399,
        into_59 < 1_000_000_000,
        into_leap < 1_000_000_000,
        into_next < 1_000_000_000,
    ensures
        elapsed_nanos(s as int, 1_000_000_000 + into_leap, s as int, into_59 as int)
            == 1_000_000_000 + into_leap - into_59,
        elapsed_nanos(s + 1, into_next as int, s as int, 1_000_000_000 + into_leap)
            == 1_000_000_000 + into_next - into_leap,
{
    vstd::arithmetic::div_mod::lemma_fundamental_div_mod(s as int, 86400);
    vstd::arithmetic::div_mod::lemma_mod_bound(s as int, 86400);
    vstd::arithmetic::div_mod::lemma_fundamental_div_mod_converse(
        s + 1,
        86400,
        (s as int) / 86400,
        (s as int) % 86400 + 1,
    );
}

/// Away from leap seconds, the span from `a` to `b` is the span from `b` to `a`
/// turned round.
pub proof fn lemma_elapsed_antisymmetric(secs: i64, nanos: u32, since_secs: i64, since_nanos: u32)
    requires
        nanos < 1_000_000_000,
        since_nanos < 1_000_000_000,
    ensures
        elapsed_nanos(secs as int, nanos as int, since_secs as int, since_nanos as int)
            == -elapsed_nanos(since_secs as int, since_nanos as int, secs as int, nanos as int),
{
}

/// Away from leap seconds, the words for the span between two instants are the
/// words for their difference, wherever a `Duration` holds it.
pub proof fn lemma_span_text_is_difference(until: (i64, u32), since: (i64, u32))
    requires
        until.1 < 1_000_000_000,
        since.1 < 1_000_000_000,
        is_span((until.0 * 1_000_000_000 + until.1) - (since.0 * 1_000_000_000 + since.1)),
    ensures
        span_text(until, since) == Some(duration_text(
            (until.0 * 1_000_000_000 + until.1) - (since.0 * 1_000_000_000 + since.1),
        )),
{
    let diff = (until.0 * 1_000_000_000 + until.1) - (since.0 * 1_000_000_000 + since.1);
    lemma_elapsed_is_difference(until.0, until.1, since.0, since.1);
    lemma_div_toward_zero_bounds(diff, 1_000_000_000);
}

} // verus!
