//! Calendar rules: leap years, month and year lengths, date validity, and
//! the rollover model that turns any (year, month, day) into a valid date.

use crate::time::date::Date;
use crate::time::datetime::DateTime;
use crate::time::time_of_day::{valid_time, Time};
use chrono::{Datelike, Timelike};
use vstd::prelude::*;

verus! {

/// Gregorian leap rule.
pub open spec fn leap(year: int) -> bool {
    year % 400 == 0 || (year % 100 != 0 && year % 4 == 0)
}

/// Days in `month` (1 to 12) of `year`.
pub open spec fn days_in_month(year: int, month: int) -> int {
    if month == 2 {
        if leap(year) {
            29
        } else {
            28
        }
    } else if month == 4 || month == 6 || month == 9 || month == 11 {
        30
    } else {
        31
    }
}

pub open spec fn days_in_year(year: int) -> int {
    if leap(year) {
        366
    } else {
        365
    }
}

pub open spec fn valid_date(year: int, month: int, day: int) -> bool {
    1 <= month <= 12 && 1 <= day <= days_in_month(year, month)
}

/// Length of the month before `month`; the month before January counts 31 days.
pub open spec fn prev_month_len(year: int, month: int) -> int {
    if month == 1 {
        31
    } else {
        days_in_month(year, month - 1)
    }
}

/// One rollover step: months are brought into range first, then days.
pub open spec fn resolve_step(year: int, month: int, day: int) -> (int, int, int) {
    if month < 1 {
        (year - 1, month + 12, day)
    } else if month > 12 {
        (year + 1, month - 12, day)
    } else if day < 1 {
        (year, month - 1, day + prev_month_len(year, month))
    } else {
        (year, month + 1, day - days_in_month(year, month))
    }
}

/// How far a day lies outside the range that every month covers.
pub open spec fn day_excess(day: int) -> int {
    if day < 1 {
        1 - day
    } else if day > 31 {
        day
    } else {
        0
    }
}

pub open spec fn day_past_28(day: int) -> int {
    if day > 28 {
        1
    } else {
        0
    }
}

pub open spec fn month_excess(month: int) -> int {
    if month < 1 {
        1 - month
    } else if month > 12 {
        month - 12
    } else {
        0
    }
}

/// The valid date that (year, month, day) denotes under rollover.
pub open spec fn resolve(year: int, month: int, day: int) -> (int, int, int)
    decreases day_excess(day), day_past_28(day), month_excess(month),
{
    if valid_date(year, month, day) {
        (year, month, day)
    } else {
        let (y, m, d) = resolve_step(year, month, day);
        resolve(y, m, d)
    }
}

/// Every year that rollover passes through, the last included, fits in a `u32`.
pub open spec fn resolve_fits(year: int, month: int, day: int) -> bool
    decreases day_excess(day), day_past_28(day), month_excess(month),
{
    &&& 0 <= year <= u32::MAX
    &&& (valid_date(year, month, day) || {
        let (y, m, d) = resolve_step(year, month, day);
        resolve_fits(y, m, d)
    })
}

pub fn is_leap_year(year: u32) -> (r: bool)
    ensures
        r == leap(year as int),
{
    if year % 400 == 0 {
        return true;
    }
    if year % 100 == 0 {
        return false;
    }
    year % 4 == 0
}

pub fn month_len(year: u32, month: u32) -> (r: u32)
    requires
        1 <= month <= 12,
    ensures
        r == days_in_month(year as int, month as int),
{
    if month == 2 {
        if is_leap_year(year) {
            29
        } else {
            28
        }
    } else if month == 4 || month == 6 || month == 9 || month == 11 {
        30
    } else {
        31
    }
}

pub fn year_len(year: u32) -> (r: u32)
    ensures
        r == days_in_year(year as int),
{
    if is_leap_year(year) {
        366
    } else {
        365
    }
}

pub fn is_valid_date(year: u32, month: u32, day: u32) -> (r: bool)
    ensures
        r == valid_date(year as int, month as int, day as int),
{
    if month < 1 || month > 12 {
        return false;
    }
    1 <= day && day <= month_len(year, month)
}

/// Relies on chrono's `Local::now` for the local wall-clock moment, read
/// through `Datelike` and `Timelike` as (year, month, day, hour, minute);
/// chrono documents the ranges below.
#[verifier::external_body]
fn local_clock() -> (r: (i32, u32, u32, u32, u32))
    ensures
        1 <= r.1 <= 12,
        1 <= r.2 <= 31,
        r.3 <= 23,
        r.4 <= 59,
{
    let t = chrono::Local::now().naive_local();
    (t.year(), t.month(), t.day(), t.hour(), t.minute())
}

/// The moment with the given fields, if they form a valid date with a
/// year of 0 or later and a valid time.
pub fn moment_of(year: i32, month: u32, day: u32, hour: u32, minute: u32) -> (r: Option<DateTime>)
    ensures
        r is Some <==> (year >= 0 && valid_date(year as int, month as int, day as int)
            && valid_time(hour as int, minute as int)),
        r matches Some(n) ==> n@ == ((year as int, month as int, day as int), (
            hour as int,
            minute as int,
        )),
{
    if year < 0 {
        return None;
    }
    let date = match Date::from_ymd(year as u32, month, day) {
        Some(d) => d,
        None => return None,
    };
    match Time::from_hm(hour, minute) {
        Some(time) => Some(DateTime::new(date, time)),
        None => None,
    }
}

/// The current local moment, or `None` if the clock reads a year before 0.
pub fn now() -> (r: Option<DateTime>)
    ensures
        r matches Some(n) ==> valid_date(n@.0.0, n@.0.1, n@.0.2) && valid_time(n@.1.0, n@.1.1),
{
    let (year, month, day, hour, minute) = local_clock();
    moment_of(year, month, day, hour, minute)
}

/// The current local date, or `None` if the clock reads a year before 0.
pub fn today() -> (r: Option<Date>)
    ensures
        r matches Some(d) ==> valid_date(d@.0, d@.1, d@.2),
{
    match now() {
        Some(n) => Some(n.date()),
        None => None,
    }
}

} // verus!
