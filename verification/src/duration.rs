//! Spans of time, and how a span is told in words ("2 weeks 2 days 1 hour").
//!
//! A [`Duration`] holds what a `chrono::TimeDelta` holds: whole seconds and a
//! nanosecond fraction in `0..10^9`, within `i64::MAX` milliseconds either way.
//! Its view is the signed number of nanoseconds. The whole weeks, days, hours,
//! minutes, seconds and milliseconds in it are those that chrono counts.
use vstd::prelude::*;
use crate::span::{div_toward_zero, lemma_div_toward_zero_bounds, lemma_div_toward_zero_nested, lemma_div_toward_zero_split, lemma_whole_seconds};
use crate::text::{decimal, is_digit, is_white_space, lemma_decimal_denotes, lemma_decimal_lead, signed_numeral_value, lemma_trim_all_space, lemma_trim_keeps_non_space, push_decimal, str_trim, trim};

verus! {

/// Nanoseconds in a millisecond.
pub const NANOS_PER_MILLI: u64 = 1_000_000;
/// Nanoseconds in a second.
pub const NANOS_PER_SEC: u64 = 1_000_000_000;
/// Nanoseconds in a minute.
pub const NANOS_PER_MINUTE: u64 = 60_000_000_000;
/// Nanoseconds in an hour.
pub const NANOS_PER_HOUR: u64 = 3_600_000_000_000;
/// Nanoseconds in a day.
pub const NANOS_PER_DAY: u64 = 86_400_000_000_000;
/// Nanoseconds in a week.
pub const NANOS_PER_WEEK: u64 = 604_800_000_000_000;

/// The longest span either way, `i64::MAX` milliseconds, in nanoseconds.
pub open spec fn span_limit() -> int {
    9_223_372_036_854_775_807_000_000int
}

/// Whether `t` nanoseconds is a span that a `Duration` can hold.
pub open spec fn is_span(t: int) -> bool {
    -span_limit() <= t <= span_limit()
}

/// When `chrono::TimeDelta::new(secs, nanos)` gives a value, as its source
/// writes the test against `TimeDelta::MIN` and `TimeDelta::MAX`.
pub open spec fn chrono_accepts_parts(secs: int, nanos: int) -> bool {
    !(secs < -9_223_372_036_854_776 || secs > 9_223_372_036_854_775 || nanos >= 1_000_000_000
        || (secs == 9_223_372_036_854_775 && nanos > 807_000_000)
        || (secs == -9_223_372_036_854_776 && nanos < 193_000_000))
}

/// `TimeDelta::num_seconds` on the parts `secs`, `nanos`.
pub open spec fn chrono_whole_seconds(secs: int, nanos: int) -> int {
    if secs < 0 && nanos > 0 {
        secs + 1
    } else {
        secs
    }
}

/// `TimeDelta::subsec_nanos` on the parts `secs`, `nanos`.
pub open spec fn chrono_subsec_nanos(secs: int, nanos: int) -> int {
    if secs < 0 && nanos > 0 {
        nanos - 1_000_000_000
    } else {
        nanos
    }
}

/// `chrono::TimeDelta::new`: whether it makes a value of these parts. The contract
/// restates the bounds test of its source (`MIN` is `-i64::MAX` milliseconds,
/// `MAX` is `i64::MAX` milliseconds, and `nanos` must be under `10^9`).
#[verifier::external_body]
fn chrono_new_accepts(secs: i64, nanos: u32) -> (r: bool)
    ensures
        r == chrono_accepts_parts(secs as int, nanos as int),
{
    chrono::TimeDelta::new(secs, nanos).is_some()
}

/// `chrono::TimeDelta::num_weeks` on `TimeDelta::new(secs, nanos)`: by its source,
/// `num_days() / 7`, with `num_days()` being `num_seconds() / 86400`.
#[verifier::external_body]
fn chrono_num_weeks(secs: i64, nanos: u32) -> (r: i64)
    requires
        chrono_accepts_parts(secs as int, nanos as int),
    ensures
        r == div_toward_zero(div_toward_zero(chrono_whole_seconds(secs as int, nanos as int), 86400), 7),
{
    chrono::TimeDelta::new(secs, nanos).unwrap().num_weeks()
}

/// `chrono::TimeDelta::num_days` on `TimeDelta::new(secs, nanos)`: by its source,
/// `num_seconds() / 86400`.
#[verifier::external_body]
fn chrono_num_days(secs: i64, nanos: u32) -> (r: i64)
    requires
        chrono_accepts_parts(secs as int, nanos as int),
    ensures
        r == div_toward_zero(chrono_whole_seconds(secs as int, nanos as int), 86400),
{
    chrono::TimeDelta::new(secs, nanos).unwrap().num_days()
}

/// `chrono::TimeDelta::num_hours` on `TimeDelta::new(secs, nanos)`: by its source,
/// `num_seconds() / 3600`.
#[verifier::external_body]
fn chrono_num_hours(secs: i64, nanos: u32) -> (r: i64)
    requires
        chrono_accepts_parts(secs as int, nanos as int),
    ensures
        r == div_toward_zero(chrono_whole_seconds(secs as int, nanos as int), 3600),
{
    chrono::TimeDelta::new(secs, nanos).unwrap().num_hours()
}

/// `chrono::TimeDelta::num_minutes` on `TimeDelta::new(secs, nanos)`: by its source,
/// `num_seconds() / 60`.
#[verifier::external_body]
fn chrono_num_minutes(secs: i64, nanos: u32) -> (r: i64)
    requires
        chrono_accepts_parts(secs as int, nanos as int),
    ensures
        r == div_toward_zero(chrono_whole_seconds(secs as int, nanos as int), 60),
{
    chrono::TimeDelta::new(secs, nanos).unwrap().num_minutes()
}

/// `chrono::TimeDelta::num_seconds` on `TimeDelta::new(secs, nanos)`: by its source,
/// `secs + 1` where `secs` is negative and `nanos` is not zero, else `secs`.
#[verifier::external_body]
fn chrono_num_seconds(secs: i64, nanos: u32) -> (r: i64)
    requires
        chrono_accepts_parts(secs as int, nanos as int),
    ensures
        r == chrono_whole_seconds(secs as int, nanos as int),
{
    chrono::TimeDelta::new(secs, nanos).unwrap().num_seconds()
}

/// `chrono::TimeDelta::num_milliseconds` on `TimeDelta::new(secs, nanos)`: by its
/// source, `num_seconds() * 1000 + subsec_nanos() / 1_000_000`.
#[verifier::external_body]
fn chrono_num_milliseconds(secs: i64, nanos: u32) -> (r: i64)
    requires
        chrono_accepts_parts(secs as int, nanos as int),
    ensures
        r == chrono_whole_seconds(secs as int, nanos as int) * 1000
            + div_toward_zero(chrono_subsec_nanos(secs as int, nanos as int), 1_000_000),
{
    chrono::TimeDelta::new(secs, nanos).unwrap().num_milliseconds()
}

/// The parts that chrono accepts are those of nanosecond counts within the span limit.
proof fn lemma_accepts_iff_span(secs: int, nanos: int)
    requires
        0 <= nanos,
    ensures
        chrono_accepts_parts(secs, nanos) <==> (nanos < 1_000_000_000 && is_span(secs * 1_000_000_000 + nanos)),
{
}

/// A signed span of time with nanosecond precision, of at most `i64::MAX`
/// milliseconds either way.
pub struct Duration {
    secs: i64,
    nanos: u32,
}

impl Duration {
    #[verifier::type_invariant]
    spec fn well_formed(self) -> bool {
        chrono_accepts_parts(self.secs as int, self.nanos as int)
    }
}

impl View for Duration {
    type V = int;

    /// The span in nanoseconds.
    closed spec fn view(&self) -> int {
        self.secs * 1_000_000_000 + self.nanos
    }
}

impl Duration {
    /// The span of `secs` seconds and `nanos` nanoseconds, as `TimeDelta::new`
    /// makes it: `None` where `nanos` is `10^9` or more or the span is longer
    /// than `i64::MAX` milliseconds either way.
    pub fn new(secs: i64, nanos: u32) -> (r: Option<Duration>)
        ensures
            r is Some <==> (nanos < NANOS_PER_SEC && is_span(secs * 1_000_000_000 + nanos)),
            r matches Some(d) ==> d@ == secs * 1_000_000_000 + nanos,
    {
        proof {
            lemma_accepts_iff_span(secs as int, nanos as int);
        }
        if chrono_new_accepts(secs, nanos) {
            Some(Duration { secs, nanos })
        } else {
            None
        }
    }

    /// The span of `seconds` seconds plus `subsec_nanos` nanoseconds, these being
    /// what `TimeDelta::num_seconds` and `TimeDelta::subsec_nanos` report: `None`
    /// where `subsec_nanos` is `10^9` or more either way or the span is longer
    /// than `i64::MAX` milliseconds either way.
    pub fn from_parts(seconds: i64, subsec_nanos: i32) -> (r: Option<Duration>)
        ensures
            r is Some <==> (-1_000_000_000 < subsec_nanos < 1_000_000_000
                && is_span(seconds * 1_000_000_000 + subsec_nanos)),
            r matches Some(d) ==> d@ == seconds * 1_000_000_000 + subsec_nanos,
    {
        if subsec_nanos <= -1_000_000_000 || subsec_nanos >= 1_000_000_000 {
            None
        } else if subsec_nanos < 0 {
            if seconds == i64::MIN {
                None
            } else {
                Duration::new(seconds - 1, (subsec_nanos + 1_000_000_000) as u32)
            }
        } else {
            Duration::new(seconds, subsec_nanos as u32)
        }
    }

    /// Whole weeks in the span, rounded toward zero (`TimeDelta::num_weeks`).
    pub fn num_weeks(&self) -> (r: i64)
        ensures
            r == div_toward_zero(self@, NANOS_PER_WEEK as int),
    {
        proof {
            use_type_invariant(self);
            self.lemma_whole_seconds();
            lemma_div_toward_zero_nested(self@, 1_000_000_000, 86400);
            lemma_div_toward_zero_nested(self@, 86_400_000_000_000, 7);
        }
        chrono_num_weeks(self.secs, self.nanos)
    }

    /// Whole days in the span, rounded toward zero (`TimeDelta::num_days`).
    pub fn num_days(&self) -> (r: i64)
        ensures
            r == div_toward_zero(self@, NANOS_PER_DAY as int),
    {
        proof {
            use_type_invariant(self);
            self.lemma_whole_seconds();
            lemma_div_toward_zero_nested(self@, 1_000_000_000, 86400);
        }
        chrono_num_days(self.secs, self.nanos)
    }

    /// Whole hours in the span, rounded toward zero (`TimeDelta::num_hours`).
    pub fn num_hours(&self) -> (r: i64)
        ensures
            r == div_toward_zero(self@, NANOS_PER_HOUR as int),
    {
        proof {
            use_type_invariant(self);
            self.lemma_whole_seconds();
            lemma_div_toward_zero_nested(self@, 1_000_000_000, 3600);
        }
        chrono_num_hours(self.secs, self.nanos)
    }

    /// Whole minutes in the span, rounded toward zero (`TimeDelta::num_minutes`).
    pub fn num_minutes(&self) -> (r: i64)
        ensures
            r == div_toward_zero(self@, NANOS_PER_MINUTE as int),
    {
        proof {
            use_type_invariant(self);
            self.lemma_whole_seconds();
            lemma_div_toward_zero_nested(self@, 1_000_000_000, 60);
        }
        chrono_num_minutes(self.secs, self.nanos)
    }

    /// Whole seconds in the span, rounded toward zero (`TimeDelta::num_seconds`).
    pub fn num_seconds(&self) -> (r: i64)
        ensures
            r == div_toward_zero(self@, NANOS_PER_SEC as int),
    {
        proof {
            use_type_invariant(self);
            self.lemma_whole_seconds();
        }
        chrono_num_seconds(self.secs, self.nanos)
    }

    /// Whole milliseconds in the span, rounded toward zero (`TimeDelta::num_milliseconds`).
    pub fn num_milliseconds(&self) -> (r: i64)
        ensures
            r == div_toward_zero(self@, NANOS_PER_MILLI as int),
    {
        proof {
            use_type_invariant(self);
            self.lemma_whole_seconds();
            let s = chrono_whole_seconds(self.secs as int, self.nanos as int);
            assert(chrono_subsec_nanos(self.secs as int, self.nanos as int) == self@ - s * 1_000_000_000);
            lemma_div_toward_zero_split(self@, s, self@ - s * 1_000_000_000);
        }
        chrono_num_milliseconds(self.secs, self.nanos)
    }

    proof fn lemma_whole_seconds(&self)
        requires
            self.well_formed(),
        ensures
            chrono_whole_seconds(self.secs as int, self.nanos as int) == div_toward_zero(self@, 1_000_000_000),
            is_span(self@),
    {
        lemma_whole_seconds(self.secs as int, self.nanos as int);
        lemma_accepts_iff_span(self.secs as int, self.nanos as int);
    }
}


/// Whole weeks in a span of `t` nanoseconds.
pub open spec fn weeks_part(t: int) -> int {
    div_toward_zero(t, NANOS_PER_WEEK as int)
}

/// Whole days in `t` beyond its whole weeks.
pub open spec fn days_part(t: int) -> int {
    div_toward_zero(t, NANOS_PER_DAY as int) - 7 * div_toward_zero(t, NANOS_PER_WEEK as int)
}

/// Whole hours in `t` beyond its whole days.
pub open spec fn hours_part(t: int) -> int {
    div_toward_zero(t, NANOS_PER_HOUR as int) - 24 * div_toward_zero(t, NANOS_PER_DAY as int)
}

/// Whole minutes in `t` beyond its whole hours.
pub open spec fn minutes_part(t: int) -> int {
    div_toward_zero(t, NANOS_PER_MINUTE as int) - 60 * div_toward_zero(t, NANOS_PER_HOUR as int)
}

/// Whole seconds in `t` beyond its whole minutes.
pub open spec fn seconds_part(t: int) -> int {
    div_toward_zero(t, NANOS_PER_SEC as int) - 60 * div_toward_zero(t, NANOS_PER_MINUTE as int)
}

/// Whole milliseconds in `t` beyond its whole seconds.
pub open spec fn millis_part(t: int) -> int {
    div_toward_zero(t, NANOS_PER_MILLI as int) - 1000 * div_toward_zero(t, NANOS_PER_SEC as int)
}

/// The words for `count` of a unit: nothing for none, `" 1 "` and the singular
/// for one, else a space, the number, a space and the plural.
pub open spec fn unit_text(unit: Seq<char>, units: Seq<char>, count: int) -> Seq<char> {
    if count == 0 {
        Seq::empty()
    } else if count == 1 {
        seq![' ', '1', ' '] + unit
    } else {
        seq![' '] + decimal(count) + seq![' '] + units
    }
}

/// The words for each unit of a span of `t` nanoseconds, largest first, each after
/// a space; the milliseconds only where the seconds beyond the minutes are none.
pub open spec fn unit_texts(t: int) -> Seq<char> {
    unit_text("week"@, "weeks"@, weeks_part(t))
        + unit_text("day"@, "days"@, days_part(t))
        + unit_text("hour"@, "hours"@, hours_part(t))
        + unit_text("minute"@, "minutes"@, minutes_part(t))
        + unit_text("second"@, "seconds"@, seconds_part(t))
        + (if seconds_part(t) == 0 {
            unit_text("millisecond"@, "milliseconds"@, millis_part(t))
        } else {
            Seq::empty()
        })
}

/// A span of `t` nanoseconds told in words, without leading or trailing space.
pub open spec fn duration_text(t: int) -> Seq<char> {
    trim(unit_texts(t))
}

/// The words for `count` of a unit whose singular is `unit` and plural `units`:
/// empty for zero, `" 1 <unit>"` for one, `" <count> <units>"` otherwise.
pub fn format_unit(unit: String, units: String, count: i64) -> (r: String)
    ensures
        r@ == unit_text(unit@, units@, count as int),
{
    proof {
        reveal_strlit(" 1 ");
        reveal_strlit(" ");
    }
    if count == 0 {
        String::new()
    } else if count == 1 {
        let mut text = String::from_str(" 1 ");
        text.append(unit.as_str());
        text
    } else {
        let mut text = String::from_str(" ");
        push_decimal(&mut text, count);
        text.append(" ");
        text.append(units.as_str());
        proof {
            assert(text@ =~= unit_text(unit@, units@, count as int));
        }
        text
    }
}

/// Tells `duration` in words: its whole weeks, then the days, hours, minutes and
/// seconds beyond, each unit that is not zero as `<count> <unit>`, singular for
/// one; the milliseconds only where the seconds are zero; separated by spaces.
/// Two weeks is `"2 weeks"`; a span under a millisecond is the empty string.
pub fn format_duration(duration: Duration) -> (r: String)
    ensures
        r@ == duration_text(duration@),
{
    let weeks = duration.num_weeks();
    let whole_days = duration.num_days();
    let whole_hours = duration.num_hours();
    let whole_minutes = duration.num_minutes();
    let whole_seconds = duration.num_seconds();
    let whole_millis = duration.num_milliseconds();
    proof {
        use_type_invariant(&duration);
        duration.lemma_whole_seconds();
        let t = duration@;
        lemma_div_toward_zero_nested(t, NANOS_PER_DAY as int, 7);
        lemma_div_toward_zero_nested(t, NANOS_PER_HOUR as int, 24);
        lemma_div_toward_zero_nested(t, NANOS_PER_MINUTE as int, 60);
        lemma_div_toward_zero_nested(t, NANOS_PER_SEC as int, 60);
        lemma_div_toward_zero_nested(t, NANOS_PER_MILLI as int, 1000);
        lemma_div_toward_zero_bounds(whole_days as int, 7);
        lemma_div_toward_zero_bounds(whole_hours as int, 24);
        lemma_div_toward_zero_bounds(whole_minutes as int, 60);
        lemma_div_toward_zero_bounds(whole_seconds as int, 60);
        lemma_div_toward_zero_bounds(whole_millis as int, 1000);
    }
    let days = whole_days - weeks * 7;
    let hours = whole_hours - (weeks * 7 + days) * 24;
    let minutes = whole_minutes - (((weeks * 7 + days) * 24) + hours) * 60;
    let seconds = whole_seconds - (((((weeks * 7 + days) * 24) + hours) * 60) + minutes) * 60;
    let milliseconds = whole_millis
        - ((((((weeks * 7 + days) * 24) + hours) * 60) + minutes) * 60 + seconds) * 1000;

    let mut text = format_unit(String::from_str("week"), String::from_str("weeks"), weeks);
    let f_days = format_unit(String::from_str("day"), String::from_str("days"), days);
    let f_hours = format_unit(String::from_str("hour"), String::from_str("hours"), hours);
    let f_minutes = format_unit(String::from_str("minute"), String::from_str("minutes"), minutes);
    let f_seconds = format_unit(String::from_str("second"), String::from_str("seconds"), seconds);
    let f_milliseconds = if seconds == 0 {
        format_unit(String::from_str("millisecond"), String::from_str("milliseconds"), milliseconds)
    } else {
        String::new()
    };
    text.append(f_days.as_str());
    text.append(f_hours.as_str());
    text.append(f_minutes.as_str());
    text.append(f_seconds.as_str());
    text.append(f_milliseconds.as_str());
    proof {
        assert(text@ =~= unit_texts(duration@));
    }
    str_trim(text.as_str()).to_owned()
}


/// Tells in words the span of `seconds` seconds plus `subsec_nanos` nanoseconds,
/// as `TimeDelta::num_seconds` and `TimeDelta::subsec_nanos` report a span:
/// `None` where no `Duration` holds it (see `Duration::from_parts`).
pub fn format_elapsed(seconds: i64, subsec_nanos: i32) -> (r: Option<String>)
    ensures
        r is Some <==> (-1_000_000_000 < subsec_nanos < 1_000_000_000
            && is_span(seconds * 1_000_000_000 + subsec_nanos)),
        r matches Some(text) ==> text@ == duration_text(seconds * 1_000_000_000 + subsec_nanos),
{
    match Duration::from_parts(seconds, subsec_nanos) {
        Some(duration) => Some(format_duration(duration)),
        None => None,
    }
}

/// The words for a count say the count: none for zero; otherwise a space, the
/// count in decimal (digits after an optional minus sign), a space, and the noun,
/// which is the singular exactly when the count is one and the plural for every
/// other count.
pub proof fn lemma_unit_text_says_count(unit: Seq<char>, units: Seq<char>, count: int)
    ensures
        count == 0 ==> unit_text(unit, units, count).len() == 0,
        count != 0 ==> ({
            let t = unit_text(unit, units, count);
            let noun = if count == 1 { unit } else { units };
            let k = t.len() - noun.len() - 1;
            &&& t.len() >= noun.len() + 3
            &&& t[0] == ' '
            &&& t[k] == ' '
            &&& t.subrange(k + 1, t.len() as int) == noun
            &&& signed_numeral_value(t.subrange(1, k)) == count
            &&& forall|i: int| 1 <= i < k ==> (is_digit(#[trigger] t[i]) || (i == 1 && count < 0 && t[i] == '-'))
        }),
{
    if count != 0 {
        let t = unit_text(unit, units, count);
        let noun = if count == 1 { unit } else { units };
        let k = t.len() - noun.len() - 1;
        if count == 1 {
            assert(t.subrange(1, k) =~= seq!['1']);
            assert(seq!['1'].drop_last() =~= Seq::<char>::empty());
            assert(crate::text::numeral_value(Seq::<char>::empty()) == 0);
            assert(seq!['1'].last() == '1' && seq!['1'][0] != '-');
            assert(crate::text::numeral_value(seq!['1']) == 1);
            assert(signed_numeral_value(seq!['1']) == 1);
            assert(t.subrange(k + 1, t.len() as int) =~= noun);
        } else {
            lemma_decimal_denotes(count);
            assert(t.subrange(1, k) =~= decimal(count));
            assert(t.subrange(k + 1, t.len() as int) =~= noun);
            assert forall|i: int| 1 <= i < k implies (is_digit(#[trigger] t[i]) || (i == 1 && count < 0 && t[i] == '-')) by {
                assert(t[i] == decimal(count)[i - 1]);
            }
        }
    }
}

/// The words for a count that is not zero are longer than one character, and
/// their second character, the first of the number, is no white space.
pub proof fn lemma_unit_text_shows(unit: Seq<char>, units: Seq<char>, count: int)
    requires
        count != 0,
    ensures
        unit_text(unit, units, count).len() > 1,
        !is_white_space(unit_text(unit, units, count)[1]),
{
    lemma_decimal_lead(count);
    if count != 1 {
        assert(unit_text(unit, units, count)[1] == decimal(count)[0]);
    }
}

/// The parts of a span recompose it: whole weeks, days, hours, minutes, seconds and
/// milliseconds, each in its unit, add up to the whole milliseconds of the span.
/// Each part below a week has the sign of the span and is under one of the next unit.
pub proof fn lemma_parts_recompose(t: int)
    ensures
        weeks_part(t) * 604_800_000 + days_part(t) * 86_400_000 + hours_part(t) * 3_600_000
            + minutes_part(t) * 60_000 + seconds_part(t) * 1000 + millis_part(t)
            == div_toward_zero(t, NANOS_PER_MILLI as int),
        t >= 0 ==> 0 <= weeks_part(t) && 0 <= days_part(t) < 7 && 0 <= hours_part(t) < 24
            && 0 <= minutes_part(t) < 60 && 0 <= seconds_part(t) < 60 && 0 <= millis_part(t) < 1000,
        t <= 0 ==> weeks_part(t) <= 0 && -7 < days_part(t) <= 0 && -24 < hours_part(t) <= 0
            && -60 < minutes_part(t) <= 0 && -60 < seconds_part(t) <= 0 && -1000 < millis_part(t) <= 0,
{
    lemma_div_toward_zero_nested(t, NANOS_PER_DAY as int, 7);
    lemma_div_toward_zero_nested(t, NANOS_PER_HOUR as int, 24);
    lemma_div_toward_zero_nested(t, NANOS_PER_MINUTE as int, 60);
    lemma_div_toward_zero_nested(t, NANOS_PER_SEC as int, 60);
    lemma_div_toward_zero_nested(t, NANOS_PER_MILLI as int, 1000);
    lemma_div_toward_zero_bounds(t, NANOS_PER_WEEK as int);
    lemma_div_toward_zero_bounds(t, NANOS_PER_DAY as int);
    lemma_div_toward_zero_bounds(t, NANOS_PER_HOUR as int);
    lemma_div_toward_zero_bounds(t, NANOS_PER_MINUTE as int);
    lemma_div_toward_zero_bounds(t, NANOS_PER_SEC as int);
    lemma_div_toward_zero_bounds(t, NANOS_PER_MILLI as int);
    lemma_div_toward_zero_bounds(div_toward_zero(t, NANOS_PER_DAY as int), 7);
    lemma_div_toward_zero_bounds(div_toward_zero(t, NANOS_PER_HOUR as int), 24);
    lemma_div_toward_zero_bounds(div_toward_zero(t, NANOS_PER_MINUTE as int), 60);
    lemma_div_toward_zero_bounds(div_toward_zero(t, NANOS_PER_SEC as int), 60);
    lemma_div_toward_zero_bounds(div_toward_zero(t, NANOS_PER_MILLI as int), 1000);
}

proof fn lemma_visible_part(a: Seq<char>, b: Seq<char>, c: Seq<char>)
    requires
        b.len() > 1,
        !is_white_space(b[1]),
    ensures
        trim(a + b + c).len() > 0,
{
    assert((a + b + c)[a.len() as int + 1] == b[1]);
    lemma_trim_keeps_non_space(a + b + c, a.len() as int + 1);
}

/// A span is told as the empty string exactly when it holds no whole millisecond.
pub proof fn lemma_text_empty_iff_under_a_millisecond(t: int)
    ensures
        duration_text(t).len() == 0 <==> div_toward_zero(t, NANOS_PER_MILLI as int) == 0,
{
    lemma_parts_recompose(t);
    let w = unit_text("week"@, "weeks"@, weeks_part(t));
    let d = unit_text("day"@, "days"@, days_part(t));
    let h = unit_text("hour"@, "hours"@, hours_part(t));
    let m = unit_text("minute"@, "minutes"@, minutes_part(t));
    let s = unit_text("second"@, "seconds"@, seconds_part(t));
    let ms = if seconds_part(t) == 0 {
        unit_text("millisecond"@, "milliseconds"@, millis_part(t))
    } else {
        Seq::empty()
    };
    assert(unit_texts(t) == w + d + h + m + s + ms);
    if div_toward_zero(t, NANOS_PER_MILLI as int) == 0 {
        assert(unit_texts(t) =~= Seq::<char>::empty());
        lemma_trim_all_space(unit_texts(t));
    } else if weeks_part(t) != 0 {
        lemma_unit_text_shows("week"@, "weeks"@, weeks_part(t));
        assert(w + d + h + m + s + ms =~= Seq::<char>::empty() + w + (d + h + m + s + ms));
        lemma_visible_part(Seq::<char>::empty(), w, d + h + m + s + ms);
    } else if days_part(t) != 0 {
        lemma_unit_text_shows("day"@, "days"@, days_part(t));
        assert(w + d + h + m + s + ms =~= w + d + (h + m + s + ms));
        lemma_visible_part(w, d, h + m + s + ms);
    } else if hours_part(t) != 0 {
        lemma_unit_text_shows("hour"@, "hours"@, hours_part(t));
        assert(w + d + h + m + s + ms =~= (w + d) + h + (m + s + ms));
        lemma_visible_part(w + d, h, m + s + ms);
    } else if minutes_part(t) != 0 {
        lemma_unit_text_shows("minute"@, "minutes"@, minutes_part(t));
        assert(w + d + h + m + s + ms =~= (w + d + h) + m + (s + ms));
        lemma_visible_part(w + d + h, m, s + ms);
    } else if seconds_part(t) != 0 {
        lemma_unit_text_shows("second"@, "seconds"@, seconds_part(t));
        assert(w + d + h + m + s + ms =~= (w + d + h + m) + s + ms);
        lemma_visible_part(w + d + h + m, s, ms);
    } else {
        lemma_unit_text_shows("millisecond"@, "milliseconds"@, millis_part(t));
        assert(w + d + h + m + s + ms =~= (w + d + h + m + s) + ms + Seq::<char>::empty());
        lemma_visible_part(w + d + h + m + s, ms, Seq::<char>::empty());
    }
}

/// A span is told to the millisecond: spans with the same whole milliseconds
/// are told alike.
pub proof fn lemma_text_to_the_millisecond(t: int, u: int)
    requires
        div_toward_zero(t, NANOS_PER_MILLI as int) == div_toward_zero(u, NANOS_PER_MILLI as int),
    ensures
        duration_text(t) == duration_text(u),
{
    lemma_div_toward_zero_nested(t, NANOS_PER_MILLI as int, 1000);
    lemma_div_toward_zero_nested(u, NANOS_PER_MILLI as int, 1000);
    lemma_div_toward_zero_nested(t, NANOS_PER_MILLI as int, 60000);
    lemma_div_toward_zero_nested(u, NANOS_PER_MILLI as int, 60000);
    lemma_div_toward_zero_nested(t, NANOS_PER_MILLI as int, 3_600_000);
    lemma_div_toward_zero_nested(u, NANOS_PER_MILLI as int, 3_600_000);
    lemma_div_toward_zero_nested(t, NANOS_PER_MILLI as int, 86_400_000);
    lemma_div_toward_zero_nested(u, NANOS_PER_MILLI as int, 86_400_000);
    lemma_div_toward_zero_nested(t, NANOS_PER_MILLI as int, 604_800_000);
    lemma_div_toward_zero_nested(u, NANOS_PER_MILLI as int, 604_800_000);
    assert(unit_texts(t) == unit_texts(u));
}

/// Milliseconds are left out where the seconds beyond the minutes are not zero:
/// two spans with the same whole seconds, of which that part is not zero, are told alike.
pub proof fn lemma_millis_ignored_beside_seconds(t: int, u: int)
    requires
        div_toward_zero(t, NANOS_PER_SEC as int) == div_toward_zero(u, NANOS_PER_SEC as int),
        seconds_part(t) != 0,
    ensures
        duration_text(t) == duration_text(u),
{
    lemma_div_toward_zero_nested(t, NANOS_PER_SEC as int, 60);
    lemma_div_toward_zero_nested(u, NANOS_PER_SEC as int, 60);
    lemma_div_toward_zero_nested(t, NANOS_PER_SEC as int, 3600);
    lemma_div_toward_zero_nested(u, NANOS_PER_SEC as int, 3600);
    lemma_div_toward_zero_nested(t, NANOS_PER_SEC as int, 86400);
    lemma_div_toward_zero_nested(u, NANOS_PER_SEC as int, 86400);
    lemma_div_toward_zero_nested(t, NANOS_PER_SEC as int, 604800);
    lemma_div_toward_zero_nested(u, NANOS_PER_SEC as int, 604800);
    assert(unit_texts(t) == unit_texts(u));
}

} // verus!
