//! The proleptic Gregorian calendar: days since 1970-01-01 of a date.
use vstd::prelude::*;
use vstd::arithmetic::div_mod::{lemma_fundamental_div_mod, lemma_fundamental_div_mod_converse, lemma_hoist_over_denominator, lemma_mod_bound};

verus! {

/// Whether `y` is a leap year: divisible by 4, and not by 100 unless by 400.
pub open spec fn is_leap_year(y: int) -> bool {
    y % 4 == 0 && (y % 100 != 0 || y % 400 == 0)
}

/// Days in month `m` (1 to 12) of year `y`.
pub open spec fn days_in_month(y: int, m: int) -> int {
    if m == 2 {
        if is_leap_year(y) { 29 } else { 28 }
    } else if m == 4 || m == 6 || m == 9 || m == 11 {
        30
    } else {
        31
    }
}

/// Days in year `y`.
pub open spec fn days_in_year(y: int) -> int {
    if is_leap_year(y) { 366 } else { 365 }
}

/// Whether `y-m-d` is a date of the calendar.
pub open spec fn is_date(y: int, m: int, d: int) -> bool {
    1 <= m <= 12 && 1 <= d <= days_in_month(y, m)
}

/// The leap years before year `y`, counted from year 1 (negative below it).
pub open spec fn leap_years_before(y: int) -> int {
    (y - 1) / 4 - (y - 1) / 100 + (y - 1) / 400
}

/// Days from 1970-01-01 to the first day of year `y`.
pub open spec fn days_before_year(y: int) -> int {
    365 * (y - 1970) + leap_years_before(y) - leap_years_before(1970)
}

/// Days from the first of the year to the first of month `m` (1 to 12) of year `y`.
pub open spec fn days_before_month(y: int, m: int) -> int {
    let common: int = if m <= 1 {
        0
    } else if m == 2 {
        31
    } else if m == 3 {
        59
    } else if m == 4 {
        90
    } else if m == 5 {
        120
    } else if m == 6 {
        151
    } else if m == 7 {
        181
    } else if m == 8 {
        212
    } else if m == 9 {
        243
    } else if m == 10 {
        273
    } else if m == 11 {
        304
    } else {
        334
    };
    if m > 2 && is_leap_year(y) { common + 1 } else { common }
}

/// Days from 1970-01-01 to the date `y-m-d` (negative before it).
pub open spec fn days_from_epoch(y: int, m: int, d: int) -> int {
    days_before_year(y) + days_before_month(y, m) + d - 1
}

proof fn lemma_floor_step(y: int, c: int)
    requires
        c > 0,
    ensures
        y / c - (y - 1) / c == (if y % c == 0 { 1int } else { 0int }),
{
    let x = y - 1;
    let q = x / c;
    let r = x % c;
    lemma_fundamental_div_mod(x, c);
    lemma_mod_bound(x, c);
    assert(x == c * q + r);
    if r + 1 == c {
        assert(y == (q + 1) * c + 0) by (nonlinear_arith)
            requires y == x + 1, x == c * q + r, r + 1 == c;
        lemma_fundamental_div_mod_converse(y, c, q + 1, 0);
    } else {
        assert(y == q * c + (r + 1)) by (nonlinear_arith)
            requires y == x + 1, x == c * q + r;
        lemma_fundamental_div_mod_converse(y, c, q, r + 1);
    }
}

/// Each year has as many days as the calendar gives it: the first day of the next
/// year is `days_in_year` days after the first day of this one.
pub proof fn lemma_year_length(y: int)
    ensures
        days_before_year(y + 1) == days_before_year(y) + days_in_year(y),
{
    lemma_floor_step(y, 4);
    lemma_floor_step(y, 100);
    lemma_floor_step(y, 400);
}

/// Each month has as many days as the calendar gives it: the first of the next
/// month is `days_in_month` days after the first of this one, and the first of the
/// next year `days_in_month` days after the first of December.
pub proof fn lemma_month_length(y: int, m: int)
    requires
        1 <= m <= 12,
    ensures
        m < 12 ==> days_from_epoch(y, m + 1, 1) == days_from_epoch(y, m, 1) + days_in_month(y, m),
        m == 12 ==> days_from_epoch(y + 1, 1, 1) == days_from_epoch(y, m, 1) + days_in_month(y, m),
{
    lemma_year_length(y);
}

/// Consecutive dates are consecutive days: the day after `y-m-d` in the calendar
/// (the next day of the month, else the first of the next month, else the first of
/// the next year) is counted one more.
pub proof fn lemma_next_day(y: int, m: int, d: int)
    requires
        is_date(y, m, d),
    ensures
        d < days_in_month(y, m) ==> days_from_epoch(y, m, d + 1) == days_from_epoch(y, m, d) + 1,
        d == days_in_month(y, m) && m < 12 ==> days_from_epoch(y, m + 1, 1) == days_from_epoch(y, m, d) + 1,
        d == days_in_month(y, m) && m == 12 ==> days_from_epoch(y + 1, 1, 1) == days_from_epoch(y, m, d) + 1,
{
    lemma_month_length(y, m);
}

/// Days from 1970-01-01 to the date `y-m-d` of a year from 0 to 9999.
pub fn days_since_epoch(y: i32, m: u32, d: u32) -> (r: i64)
    requires
        0 <= y <= 9999,
        1 <= m <= 12,
        1 <= d <= 31,
    ensures
        r == days_from_epoch(y as int, m as int, d as int),
{
    let shifted: u64 = (y as u64) + 399;
    proof {
        let x = y as int - 1;
        lemma_hoist_over_denominator(x, 100, 4);
        lemma_hoist_over_denominator(x, 4, 100);
        lemma_hoist_over_denominator(x, 1, 400);
        assert(shifted as int == x + 100 * 4);
        assert(leap_years_before(1970) == 477);
    }
    let leaps: i64 = (shifted / 4) as i64 - (shifted / 100) as i64 + (shifted / 400) as i64 - 97;
    let year: u32 = y as u32;
    let leap: bool = year % 4 == 0 && (year % 100 != 0 || year % 400 == 0);
    let common: i64 = if m <= 1 {
        0
    } else if m == 2 {
        31
    } else if m == 3 {
        59
    } else if m == 4 {
        90
    } else if m == 5 {
        120
    } else if m == 6 {
        151
    } else if m == 7 {
        181
    } else if m == 8 {
        212
    } else if m == 9 {
        243
    } else if m == 10 {
        273
    } else if m == 11 {
        304
    } else {
        334
    };
    let before_month: i64 = if m > 2 && leap { common + 1 } else { common };
    365 * (y as i64 - 1970) + leaps - 477 + before_month + d as i64 - 1
}

/// The first day of the calendar's count is 1970-01-01.
pub proof fn lemma_epoch()
    ensures
        days_from_epoch(1970, 1, 1) == 0,
{
}

} // verus!
