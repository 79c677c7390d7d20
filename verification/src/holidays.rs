//! The exchange holiday calendar and civil-date trading-day checks.
//!
//! Dates are (year, month, day) triples; weekday arithmetic runs through
//! the epoch-day number.

use vstd::prelude::*;
use crate::premarket::{days_from_civil, spec_days_from_civil};

verus! {

/// The exchange holidays of calendar year 2025, as (year, month, day).
pub fn get_nse_holidays_2025() -> (r: Vec<(i64, i64, i64)>)
    ensures
        r@.len() == 20,
        forall|i: int| 0 <= i < r@.len() ==> (#[trigger] r@[i]).0 == 2025
            && 1 <= r@[i].1 <= 12 && 1 <= r@[i].2 <= 31,
{
    let mut v: Vec<(i64, i64, i64)> = Vec::new();
    v.push((2025, 1, 26));
    v.push((2025, 2, 26));
    v.push((2025, 3, 14));
    v.push((2025, 3, 31));
    v.push((2025, 4, 10));
    v.push((2025, 4, 14));
    v.push((2025, 4, 18));
    v.push((2025, 5, 1));
    v.push((2025, 5, 12));
    v.push((2025, 6, 7));
    v.push((2025, 7, 7));
    v.push((2025, 8, 15));
    v.push((2025, 8, 27));
    v.push((2025, 9, 5));
    v.push((2025, 10, 2));
    v.push((2025, 10, 12));
    v.push((2025, 10, 20));
    v.push((2025, 10, 21));
    v.push((2025, 11, 5));
    v.push((2025, 12, 25));
    v
}

/// Weekday of a civil date, Monday as zero.
pub open spec fn spec_weekday_of_date(y: int, m: int, d: int) -> int {
    (spec_days_from_civil(y, m, d) + 3) % 7
}

/// A date in the 2025 holiday list.
pub open spec fn spec_is_holiday_2025(y: int, m: int, d: int) -> bool {
    y == 2025 && {
        ||| (m == 1 && d == 26)
        ||| (m == 2 && d == 26)
        ||| (m == 3 && (d == 14 || d == 31))
        ||| (m == 4 && (d == 10 || d == 14 || d == 18))
        ||| (m == 5 && (d == 1 || d == 12))
        ||| (m == 6 && d == 7)
        ||| (m == 7 && d == 7)
        ||| (m == 8 && (d == 15 || d == 27))
        ||| (m == 9 && d == 5)
        ||| (m == 10 && (d == 2 || d == 12 || d == 20 || d == 21))
        ||| (m == 11 && d == 5)
        ||| (m == 12 && d == 25)
    }
}

fn is_holiday_2025(y: i64, m: i64, d: i64) -> (r: bool)
    ensures
        r == spec_is_holiday_2025(y as int, m as int, d as int),
{
    y == 2025 && (
        (m == 1 && d == 26)
        || (m == 2 && d == 26)
        || (m == 3 && (d == 14 || d == 31))
        || (m == 4 && (d == 10 || d == 14 || d == 18))
        || (m == 5 && (d == 1 || d == 12))
        || (m == 6 && d == 7)
        || (m == 7 && d == 7)
        || (m == 8 && (d == 15 || d == 27))
        || (m == 9 && d == 5)
        || (m == 10 && (d == 2 || d == 12 || d == 20 || d == 21))
        || (m == 11 && d == 5)
        || (m == 12 && d == 25))
}

/// A trading day: a weekday that is not an exchange holiday.
pub fn is_trading_day(y: i64, m: i64, d: i64) -> (r: bool)
    requires
        1970 <= y <= 9999,
        1 <= m <= 12,
        1 <= d <= 31,
    ensures
        r == (spec_weekday_of_date(y as int, m as int, d as int) < 5
            && !spec_is_holiday_2025(y as int, m as int, d as int)),
{
    let days = days_from_civil(y, m, d);
    proof {
        vstd::arithmetic::div_mod::lemma_mod_division_less_than_divisor(days as int + 3, 7);
    }
    let weekday = (days + 3) % 7;
    if weekday >= 5 {
        return false;
    }
    !is_holiday_2025(y, m, d)
}

/// Days in a month of the Gregorian calendar.
pub open spec fn spec_days_in_month(y: int, m: int) -> int {
    if m == 2 {
        if (y % 4 == 0 && y % 100 != 0) || y % 400 == 0 { 29 } else { 28 }
    } else if m == 4 || m == 6 || m == 9 || m == 11 {
        30
    } else {
        31
    }
}

fn days_in_month(y: i64, m: i64) -> (r: i64)
    requires
        1970 <= y <= 9999,
        1 <= m <= 12,
    ensures
        r == spec_days_in_month(y as int, m as int),
        28 <= r <= 31,
{
    if m == 2 {
        if (y % 4 == 0 && y % 100 != 0) || y % 400 == 0 { 29 } else { 28 }
    } else if m == 4 || m == 6 || m == 9 || m == 11 {
        30
    } else {
        31
    }
}

/// The calendar day after a date.
pub fn next_calendar_day(y: i64, m: i64, d: i64) -> (r: (i64, i64, i64))
    requires
        1970 <= y < 9999,
        1 <= m <= 12,
        1 <= d <= 31,
    ensures
        1970 <= r.0 <= 9999,
        1 <= r.1 <= 12,
        1 <= r.2 <= 31,
{
    if d < days_in_month(y, m) {
        (y, m, d + 1)
    } else if m < 12 {
        (y, m + 1, 1)
    } else {
        (y + 1, 1, 1)
    }
}

/// The first trading day strictly after a date; gives up unchanged after
/// a year of non-trading days (which no calendar contains).
pub fn next_trading_day(y: i64, m: i64, d: i64) -> (r: (i64, i64, i64))
    requires
        1970 <= y < 9998,
        1 <= m <= 12,
        1 <= d <= 31,
    ensures
        1970 <= r.0 <= 9999,
        1 <= r.1 <= 12,
        1 <= r.2 <= 31,
{
    let mut cur = next_calendar_day(y, m, d);
    let mut steps: usize = 0;
    while steps < 366
        invariant
            steps <= 366,
            1970 <= cur.0 <= 9999,
            1 <= cur.1 <= 12,
            1 <= cur.2 <= 31,
        decreases 366 - steps,
    {
        if is_trading_day(cur.0, cur.1, cur.2) {
            return cur;
        }
        if cur.0 >= 9999 {
            return cur;
        }
        cur = next_calendar_day(cur.0, cur.1, cur.2);
        steps = steps + 1;
    }
    cur
}

} // verus!
