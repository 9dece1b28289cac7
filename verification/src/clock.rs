//! The calendar and the clock, as `chrono` provides them.
//!
//! Days are counted the way `chrono` counts them with `num_days_from_ce`:
//! day 1 is January 1st of the year 1 of the proleptic Gregorian calendar.

use chrono::{Datelike, Local, NaiveDate, NaiveTime, SubsecRound, Timelike};

use vstd::prelude::*;

verus! {

/// The year, month and day of a day number, when `chrono` can represent that day.
pub uninterp spec fn chrono_ymd(day: i32) -> Option<(i32, u32, u32)>;

/// The first year of the calendar of `chrono`.
pub open spec fn first_chrono_year() -> int {
    -262143
}

/// The last year of the calendar of `chrono`.
pub open spec fn last_chrono_year() -> int {
    262142
}

/// The day number of January 1st of the first year of the calendar of `chrono`.
pub open spec fn first_chrono_day() -> int {
    -95746129
}

/// The day number of December 31st of the last year of the calendar of `chrono`.
pub open spec fn last_chrono_day() -> int {
    95745399
}

/// The day number of December 31st, 1969: local time never reads earlier, since the
/// clock lies after the Unix epoch and a time zone is less than a day away from UTC.
pub open spec fn eve_of_epoch_day() -> int {
    719162
}

/// A leap year of the proleptic Gregorian calendar.
pub open spec fn is_leap_year(y: int) -> bool {
    y % 4 == 0 && (y % 100 != 0 || y % 400 == 0)
}

/// The number of days of a month.
pub open spec fn days_in_month(y: int, m: int) -> int {
    if m == 2 {
        if is_leap_year(y) { 29int } else { 28int }
    } else if m == 4 || m == 6 || m == 9 || m == 11 {
        30
    } else {
        31
    }
}

/// A date that exists and lies in the calendar of `chrono`.
pub open spec fn valid_ymd(y: int, m: int, d: int) -> bool {
    &&& first_chrono_year() <= y <= last_chrono_year()
    &&& 1 <= m <= 12
    &&& 1 <= d <= days_in_month(y, m)
}

/// The days of the years before `y`, counted from January 1st of the year 1.
pub open spec fn days_before_year(y: int) -> int {
    let p = y - 1;
    365 * p + p / 4 - p / 100 + p / 400
}

/// The days of the months of year `y` before month `m`.
pub open spec fn days_before_month(y: int, m: int) -> int {
    let base: int = if m == 1 {
        0
    } else if m == 2 {
        31
    } else if m == 3 {
        59
    } else if m == 4 {
        90
    } else if m == 5 {
        120
    } else if m == 6 {
        151
    } else if m == 7 {
        181
    } else if m == 8 {
        212
    } else if m == 9 {
        243
    } else if m == 10 {
        273
    } else if m == 11 {
        304
    } else {
        334
    };
    base + if m > 2 && is_leap_year(y) { 1int } else { 0int }
}

/// The day number of a date: January 1st of the year 1 is day 1.
pub open spec fn days_from_ce(y: int, m: int, d: int) -> int {
    days_before_year(y) + days_before_month(y, m) + d
}

/// The day number of a year, month and day, when that is a valid date.
pub open spec fn chrono_day_of_ymd(year: i32, month: u32, day: u32) -> Option<i32> {
    if valid_ymd(year as int, month as int, day as int) {
        Some(days_from_ce(year as int, month as int, day as int) as i32)
    } else {
        None
    }
}

/// The day number of a date of the calendar fits in an `i32`.
pub proof fn lemma_days_from_ce_fits(y: int, m: int, d: int)
    requires
        valid_ymd(y, m, d),
    ensures
        i32::MIN < days_from_ce(y, m, d) < i32::MAX,
        y >= 1969 ==> days_from_ce(y, m, d) > 0,
{
}

/// The seconds after midnight that `chrono` reads from an `HH:MM` text.
pub uninterp spec fn chrono_hour_minute(text: Seq<char>) -> Option<u32>;

/// The day number that `chrono` reads from a `YYYY-MM-DD` text.
pub uninterp spec fn chrono_year_month_day(text: Seq<char>) -> Option<i32>;

/// `NaiveDate::from_num_days_from_ce_opt` followed by `year`, `month` and `day`:
/// the calendar date of a day number, or `None` outside the range of `chrono`.
/// The calendar of `chrono` runs from January 1st, 262144 BCE (the year -262143) to
/// December 31st, 262142; each day number in between is a date of it, the one whose
/// day number it is.
#[verifier::external_body]
pub(crate) fn ymd_of_day(day: i32) -> (r: Option<(i32, u32, u32)>)
    ensures
        r == chrono_ymd(day),
        r is Some <==> first_chrono_day() <= day <= last_chrono_day(),
        r matches Some((y, m, d)) ==> valid_ymd(y as int, m as int, d as int) && days_from_ce(
            y as int,
            m as int,
            d as int,
        ) == day,
{
    match NaiveDate::from_num_days_from_ce_opt(day) {
        Some(date) => Some((date.year(), date.month(), date.day())),
        None => None,
    }
}

/// `NaiveDate::from_ymd_opt` followed by `num_days_from_ce`: the day number of a
/// calendar date, or `None` when the date does not exist or lies outside the calendar
/// of `chrono`. A day number that comes back names that same calendar date and lies
/// in the calendar.
#[verifier::external_body]
pub(crate) fn day_of_ymd(year: i32, month: u32, day: u32) -> (r: Option<i32>)
    ensures
        r == chrono_day_of_ymd(year, month, day),
        r matches Some(d) ==> chrono_ymd(d) == Some((year, month, day)) && first_chrono_day() <= d
            <= last_chrono_day(),
{
    match NaiveDate::from_ymd_opt(year, month, day) {
        Some(date) => Some(date.num_days_from_ce()),
        None => None,
    }
}

/// How many days a day lies after the Monday of its week: 0 for a Monday up to 6 for a
/// Sunday, or `None` outside the calendar of `chrono`. Day 1, January 1st of the year 1,
/// was a Monday, and the proleptic calendar repeats its weekdays every seven days.
pub(crate) fn days_from_monday(day: i32) -> (r: Option<u32>)
    ensures
        r == (if chrono_ymd(day) is Some {
            Some(((day - 1) % 7) as u32)
        } else {
            None::<u32>
        }),
        r is Some <==> first_chrono_day() <= day <= last_chrono_day(),
{
    match ymd_of_day(day) {
        None => None,
        Some(_) => {
            let x: i64 = (day as i64) - 1;
            let q: i64 = x / 7;
            let mut w: i64 = x - q * 7;
            if w < 0 {
                w = w + 7;
            }
            proof {
                assert(w == (day - 1) % 7) by (nonlinear_arith)
                    requires
                        x == day - 1,
                        -7 < x - q * 7 < 7,
                        w == (if x - q * 7 < 0 { x - q * 7 + 7 } else { x - q * 7 }),
                ;
            }
            Some(w as u32)
        },
    }
}

/// `NaiveTime::parse_from_str` with the format `%H:%M`, as seconds after midnight.
#[verifier::external_body]
pub(crate) fn parse_hour_minute(text: &str) -> (r: Option<u32>)
    ensures
        r == chrono_hour_minute(text@),
        r matches Some(s) ==> s < 86400,
{
    match NaiveTime::parse_from_str(text, "%H:%M") {
        Ok(time) => Some(time.num_seconds_from_midnight()),
        Err(_) => None,
    }
}

/// `NaiveDate::parse_from_str` with the format `%Y-%m-%d`, as a day number.
#[verifier::external_body]
pub(crate) fn parse_year_month_day(text: &str) -> (r: Option<i32>)
    ensures
        r == chrono_year_month_day(text@),
{
    match NaiveDate::parse_from_str(text, "%Y-%m-%d") {
        Ok(date) => Some(date.num_days_from_ce()),
        Err(_) => None,
    }
}

/// `Local::now`, as naive local time rounded to whole seconds: the day number and the
/// seconds after midnight. The value depends on when it is called. What is stated:
/// the seconds lie within a day, and the day is a date of the calendar of `chrono`
/// no earlier than December 31st, 1969 (`Utc::now` panics on a clock before the Unix
/// epoch, and a local offset is less than a day).
#[verifier::external_body]
pub(crate) fn local_now() -> (r: (i32, u32))
    ensures
        r.1 < 86400,
        r.0 >= eve_of_epoch_day() && r.0 <= last_chrono_day(),
        match chrono_ymd(r.0) {
            Some((y, _m, _d)) => 1969 <= y,
            None => false,
        },
{
    let now = Local::now().naive_local().round_subsecs(0);
    (now.date().num_days_from_ce(), now.time().num_seconds_from_midnight())
}

} // verus!
