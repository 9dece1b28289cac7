//! Points in time, dates, time ranges and time frames.
//!
//! A [`PaceDateTime`] counts seconds of naive local time from the midnight that
//! begins day 0 of the day numbering in [`crate::clock`]; a [`PaceDate`] is such a
//! day number.

use vstd::prelude::*;

use crate::clock::{
    chrono_day_of_ymd, chrono_year_month_day, chrono_ymd, day_of_ymd, days_from_monday, local_now,
    parse_year_month_day, ymd_of_day, chrono_hour_minute, parse_hour_minute, eve_of_epoch_day,
    last_chrono_day, lemma_days_from_ce_fits,
};
use crate::duration::PaceDuration;
use crate::error::{PaceError, PaceErrorKind, PaceOptResult, PaceResult, TimeErrorKind};
use crate::text::{decimal, decimal_text, padded, signed_decimal, signed_decimal_text, zero_padded};

verus! {

/// Seconds in one day.
pub const SECS_PER_DAY: i64 = 86400;

/// The last second of a day.
pub const LAST_SECOND_OF_DAY: u32 = 86399;

/// The day number of January 1st, 1970.
pub const UNIX_EPOCH_DAY: i32 = 719163;

/// A time of day, in seconds after midnight.
#[derive(Debug, Clone, Copy, PartialEq, Eq, PartialOrd, Ord, Hash, Structural)]
pub struct PaceTime(pub u32);

/// A calendar day, by its day number.
#[derive(Debug, Clone, Copy, PartialEq, Eq, PartialOrd, Ord, Hash, Structural)]
pub struct PaceDate(pub i32);

/// A point in naive local time, in whole seconds.
#[derive(Debug, Clone, Copy, PartialEq, Eq, PartialOrd, Ord, Hash, Structural)]
pub struct PaceDateTime(pub i64);

/// The point in time `secs` seconds after the midnight that begins `day`.
pub open spec fn at_day(day: i32, secs: int) -> i64 {
    (day * SECS_PER_DAY + secs) as i64
}

/// The day that holds a point in time.
pub open spec fn day_of(secs: i64) -> int {
    secs as int / SECS_PER_DAY as int
}

impl PaceDate {
    /// Midnight at the start of the day.
    pub open spec fn spec_start(self) -> PaceDateTime {
        PaceDateTime(at_day(self.0, 0))
    }

    /// The last second of the day.
    pub open spec fn spec_end(self) -> PaceDateTime {
        PaceDateTime(at_day(self.0, LAST_SECOND_OF_DAY as int))
    }

    /// Midnight at the start of the day.
    pub fn start_of_day(&self) -> (t: PaceDateTime)
        ensures
            t == self.spec_start(),
    {
        PaceDateTime((self.0 as i64) * SECS_PER_DAY)
    }

    /// The last second of the day (23:59:59).
    pub fn end_of_day(&self) -> (t: PaceDateTime)
        ensures
            t == self.spec_end(),
    {
        PaceDateTime((self.0 as i64) * SECS_PER_DAY + (LAST_SECOND_OF_DAY as i64))
    }

    /// The given time of this day.
    pub fn and_time(&self, time: PaceTime) -> (t: PaceDateTime)
        requires
            time.0 < SECS_PER_DAY,
        ensures
            t.0 == at_day(self.0, time.0 as int),
    {
        PaceDateTime((self.0 as i64) * SECS_PER_DAY + (time.0 as i64))
    }

    /// The first day of the day numbering that the defaults start from: January 1st, 1970.
    pub fn with_start() -> (d: Self)
        ensures
            d.0 == UNIX_EPOCH_DAY,
    {
        PaceDate(UNIX_EPOCH_DAY)
    }

    /// The date of the given year, month and day.
    pub fn try_from_ymd(year: i32, month: u32, day: u32) -> (r: Result<Self, TimeErrorKind>)
        ensures
            match chrono_day_of_ymd(year, month, day) {
                Some(d) => r == Ok::<PaceDate, TimeErrorKind>(PaceDate(d)),
                None => r == Err::<PaceDate, TimeErrorKind>(
                    TimeErrorKind::InvalidDate { year, month, day },
                ),
            },
    {
        match day_of_ymd(year, month, day) {
            Some(d) => Ok(PaceDate(d)),
            None => Err(TimeErrorKind::InvalidDate { year, month, day }),
        }
    }

    /// Parses a `YYYY-MM-DD` date.
    pub fn parse(text: &str) -> (r: Result<Self, TimeErrorKind>)
        ensures
            match chrono_year_month_day(text@) {
                Some(d) => r == Ok::<PaceDate, TimeErrorKind>(PaceDate(d)),
                None => r matches Err(TimeErrorKind::ParsingDateFailed(t)) && t@ == text@,
            },
    {
        match parse_year_month_day(text) {
            Some(d) => Ok(PaceDate(d)),
            None => Err(TimeErrorKind::ParsingDateFailed(String::from_str(text))),
        }
    }

    /// Whether the date lies after the day of `now`.
    pub fn is_future_at(&self, now: PaceDateTime) -> (b: bool)
        ensures
            b == (self.0 > day_of(now.0)),
    {
        (self.0 as i64) > now.day_number()
    }

    /// Whether the date lies after today.
    pub fn is_future(&self) -> (b: bool)
        ensures
            exists|now: PaceDateTime| now.is_clock_reading() && b == #[trigger] self.is_future_at_spec(now),
    {
        let now = PaceDateTime::now();
        let b = self.is_future_at(now);
        assert(b == self.is_future_at_spec(now));
        b
    }

    pub open spec fn is_future_at_spec(self, now: PaceDateTime) -> bool {
        self.0 > day_of(now.0)
    }

    /// Today.
    pub fn today() -> (d: Self)
        ensures
            exists|now: PaceDateTime| #[trigger] now.date_fits() && now.is_clock_reading() && d.0 == day_of(now.0),
    {
        let now = PaceDateTime::now();
        now.date()
    }
}

impl PaceTime {
    /// The hour, minute and second of the time.
    pub fn from_hms(hour: u32, minute: u32, second: u32) -> (r: Option<Self>)
        ensures
            (hour < 24 && minute < 60 && second < 60) ==> r == Some(
                PaceTime((hour * 3600 + minute * 60 + second) as u32),
            ),
            !(hour < 24 && minute < 60 && second < 60) ==> r is None,
    {
        if hour < 24 && minute < 60 && second < 60 {
            Some(PaceTime(hour * 3600 + minute * 60 + second))
        } else {
            None
        }
    }
}

impl PaceDateTime {
    /// Whether the day of this point in time has a day number.
    pub open spec fn date_fits(self) -> bool {
        i32::MIN <= day_of(self.0) <= i32::MAX
    }

    /// Whether this point in time is one that the clock can read: its day is a date of
    /// the calendar no earlier than December 31st, 1969, in the year 1969 or later.
    pub open spec fn is_clock_reading(self) -> bool {
        &&& eve_of_epoch_day() <= day_of(self.0) <= last_chrono_day()
        &&& chrono_ymd(day_of(self.0) as i32) matches Some((y, _m, _d)) && 1969 <= y
    }

    /// The day that holds this point in time.
    pub open spec fn spec_date(self) -> PaceDate {
        PaceDate(day_of(self.0) as i32)
    }

    /// The point in time `secs` seconds after the midnight that begins day number 0.
    pub fn new(secs: i64) -> (t: Self)
        ensures
            t.0 == secs,
    {
        PaceDateTime(secs)
    }

    /// The naive local date and time of this point, in seconds.
    pub fn naive_date_time(&self) -> (s: i64)
        ensures
            s == self.0,
    {
        self.0
    }

    /// The day number of this point in time, rounding down.
    pub fn day_number(&self) -> (d: i64)
        ensures
            d == day_of(self.0),
    {
        let x = self.0;
        if x >= 0 {
            x / SECS_PER_DAY
        } else {
            let y: i64 = -(x + 1);
            let q: i64 = y / SECS_PER_DAY;
            assert(q == y as int / SECS_PER_DAY as int);
            proof {
                assert(x as int / 86400 == -(y as int / 86400) - 1) by (nonlinear_arith)
                    requires
                        x < 0,
                        y == -(x + 1),
                        y >= 0,
                ;
            }
            -q - 1
        }
    }

    /// The date of this point in time.
    pub fn date(&self) -> (d: PaceDate)
        requires
            self.date_fits(),
        ensures
            d == self.spec_date(),
    {
        PaceDate(self.day_number() as i32)
    }

    /// The time of day of this point in time.
    pub fn time(&self) -> (t: PaceTime)
        ensures
            t.0 == self.0 - day_of(self.0) * SECS_PER_DAY,
            t.0 < SECS_PER_DAY,
    {
        let d = self.day_number();
        proof {
            assert(0 <= self.0 - d * 86400 < 86400) by (nonlinear_arith)
                requires
                    d == self.0 as int / 86400,
            ;
        }
        PaceTime(((self.0 as i128) - (d as i128) * (SECS_PER_DAY as i128)) as u32)
    }

    /// The current time, in whole seconds.
    pub fn now() -> (t: Self)
        ensures
            t.date_fits(),
            t.is_clock_reading(),
    {
        let (day, secs) = local_now();
        let t = PaceDateTime((day as i64) * SECS_PER_DAY + (secs as i64));
        proof {
            assert(day_of(t.0) == day as int) by (nonlinear_arith)
                requires
                    t.0 == day as int * 86400 + secs as int,
                    0 <= secs < 86400,
            ;
        }
        t
    }

    /// `self` if it does not lie after `now`, else the error that a start time lies in
    /// the future.
    pub fn validate_future_at(self, now: PaceDateTime) -> (r: PaceResult<Self>)
        ensures
            self.0 > now.0 ==> r == Err::<PaceDateTime, PaceError>(
                PaceError(PaceErrorKind::Time(TimeErrorKind::StartTimeInFuture(self))),
            ),
            self.0 <= now.0 ==> r == Ok::<PaceDateTime, PaceError>(self),
    {
        if self.0 > now.0 {
            Err(PaceError(PaceErrorKind::Time(TimeErrorKind::StartTimeInFuture(self))))
        } else {
            Ok(self)
        }
    }

    /// `self` if it does not lie in the future, else an error.
    pub fn validate_future(self) -> (r: PaceResult<Self>)
        ensures
            exists|now: PaceDateTime| now.is_clock_reading() && r == #[trigger] self.validate_future_spec(now),
    {
        let now = PaceDateTime::now();
        let r = self.validate_future_at(now);
        assert(r == self.validate_future_spec(now));
        r
    }

    pub open spec fn validate_future_spec(self, now: PaceDateTime) -> PaceResult<Self> {
        if self.0 > now.0 {
            Err(PaceError(PaceErrorKind::Time(TimeErrorKind::StartTimeInFuture(self))))
        } else {
            Ok(self)
        }
    }
}

impl Default for PaceDateTime {
    /// The current time, in whole seconds.
    fn default() -> (t: Self)
        ensures
            t.date_fits(),
            t.is_clock_reading(),
    {
        PaceDateTime::now()
    }
}

/// The duration from `begin` to `end`, in seconds.
pub open spec fn duration_between(begin: PaceDateTime, end: PaceDateTime) -> Option<PaceDuration> {
    if end.0 >= begin.0 {
        Some(PaceDuration((end.0 - begin.0) as u64))
    } else {
        None
    }
}

/// The duration from `begin` to `end`; an error when `end` lies before `begin`.
pub fn calculate_duration(begin: &PaceDateTime, end: PaceDateTime) -> (r: PaceResult<PaceDuration>)
    ensures
        match duration_between(*begin, end) {
            Some(d) => r == Ok::<PaceDuration, PaceError>(d),
            None => r == Err::<PaceDuration, PaceError>(
                PaceError(PaceErrorKind::ChronoDurationIsNegative),
            ),
        },
{
    if end.0 >= begin.0 {
        let diff: i128 = (end.0 as i128) - (begin.0 as i128);
        Ok(PaceDuration(diff as u64))
    } else {
        Err(PaceError(PaceErrorKind::ChronoDurationIsNegative))
    }
}

/// The start and end of a time range.
#[derive(Debug, Clone, Copy, PartialEq, Eq, Hash, Structural)]
pub struct TimeRangeOptions {
    pub start: PaceDateTime,
    pub end: PaceDateTime,
}

/// The time frames that reviews and reflections can cover.
#[derive(Debug, Clone, Copy, PartialEq, Eq, Hash, Structural)]
pub enum PaceTimeFrame {
    CurrentMonth,
    CurrentWeek,
    CurrentYear,
    DateRange(TimeRangeOptions),
    SpecificDate(PaceDate),
    LastMonth,
    LastWeek,
    LastYear,
    Today,
    Yesterday,
}

impl PaceTimeFrame {
    /// The default time frame is `Today`.
    pub fn default_frame() -> (f: Self)
        ensures
            f == PaceTimeFrame::Today,
    {
        PaceTimeFrame::Today
    }
}

/// The result of a time range computation.
pub type TimeRangeResult = Result<TimeRangeOptions, TimeErrorKind>;

/// The range from midnight of `day` to `end`.
pub open spec fn range_from_day_start(day: i32, end: PaceDateTime) -> TimeRangeOptions {
    TimeRangeOptions { start: PaceDate(day).spec_start(), end }
}

/// The range covering the days from `first` to `last`.
pub open spec fn range_of_days(first: i32, last: i32) -> TimeRangeOptions {
    TimeRangeOptions { start: PaceDate(first).spec_start(), end: PaceDate(last).spec_end() }
}

/// The error about a calendar date that does not exist.
pub open spec fn invalid_date(year: i32, month: u32, day: u32) -> TimeErrorKind {
    TimeErrorKind::InvalidDate { year, month, day }
}

/// The range from the first day of the month of `now` until `now`.
pub open spec fn current_month_outcome(now: PaceDateTime) -> TimeRangeResult {
    let today = now.spec_date();
    match chrono_ymd(today.0) {
        None => Err(TimeErrorKind::DateOutOfRange(today)),
        Some((y, m, _d)) => match chrono_day_of_ymd(y, m, 1) {
            None => Err(invalid_date(y, m, 1)),
            Some(first) => Ok(range_from_day_start(first, now)),
        },
    }
}

/// How many days a day lies after the Monday of its week: day 1, January 1st of the
/// year 1, was a Monday.
pub open spec fn days_after_monday(day: int) -> int {
    (day - 1) % 7
}

/// The Monday of the week that holds a day.
pub open spec fn monday_of(day: int) -> int {
    day - days_after_monday(day)
}

/// The range from the Monday of the week of `now`, at midnight, until `now`.
pub open spec fn current_week_outcome(now: PaceDateTime) -> TimeRangeResult {
    let today = now.spec_date();
    let monday = monday_of(today.0 as int);
    if chrono_ymd(today.0) is None || monday < i32::MIN || chrono_ymd(monday as i32) is None {
        Err(TimeErrorKind::DateOutOfRange(today))
    } else {
        Ok(range_from_day_start(monday as i32, now))
    }
}

/// The range from January 1st of the year of `now` until `now`.
pub open spec fn current_year_outcome(now: PaceDateTime) -> TimeRangeResult {
    let today = now.spec_date();
    match chrono_ymd(today.0) {
        None => Err(TimeErrorKind::DateOutOfRange(today)),
        Some((y, _m, _d)) => match chrono_day_of_ymd(y, 1, 1) {
            None => Err(invalid_date(y, 1, 1)),
            Some(first) => Ok(range_from_day_start(first, now)),
        },
    }
}

/// A date in the future stands for today until `now`; any other date is covered
/// from its first to its last second.
pub open spec fn specific_date_outcome(date: PaceDate, now: PaceDateTime) -> TimeRangeOptions {
    if date.is_future_at_spec(now) {
        range_from_day_start(now.spec_date().0, now)
    } else {
        range_of_days(date.0, date.0)
    }
}

/// The month before the month of `now`, from its first to its last day; in January,
/// the December of the year before.
pub open spec fn last_month_outcome(now: PaceDateTime) -> TimeRangeResult {
    let today = now.spec_date();
    match chrono_ymd(today.0) {
        None => Err(TimeErrorKind::DateOutOfRange(today)),
        Some((y, m, _d)) => if m == 1 && y == i32::MIN {
            Err(TimeErrorKind::DateOutOfRange(today))
        } else {
            let py: i32 = if m == 1 { (y - 1) as i32 } else { y };
            let pm: u32 = if m == 1 { 12 } else { (m - 1) as u32 };
            match chrono_day_of_ymd(py, pm, 1) {
                None => Err(invalid_date(py, pm, 1)),
                Some(first) => match chrono_day_of_ymd(y, m, 1) {
                    None => Err(invalid_date(y, m, 1)),
                    Some(next_first) => if next_first - 1 < i32::MIN || chrono_ymd(
                        (next_first - 1) as i32,
                    ) is None {
                        Err(TimeErrorKind::DateOutOfRange(PaceDate(next_first)))
                    } else {
                        Ok(range_of_days(first, (next_first - 1) as i32))
                    },
                },
            }
        },
    }
}

/// The week before the week of `now`, from its Monday at midnight to its Sunday at
/// the last second.
pub open spec fn last_week_outcome(now: PaceDateTime) -> TimeRangeResult {
    let today = now.spec_date();
    let monday = monday_of(today.0 as int) - 7;
    if chrono_ymd(today.0) is None || monday < i32::MIN || chrono_ymd(monday as i32) is None {
        Err(TimeErrorKind::DateOutOfRange(today))
    } else {
        Ok(range_of_days(monday as i32, (monday + 6) as i32))
    }
}

/// The year before the year of `now`, from January 1st to December 31st.
pub open spec fn last_year_outcome(now: PaceDateTime) -> TimeRangeResult {
    let today = now.spec_date();
    match chrono_ymd(today.0) {
        None => Err(TimeErrorKind::DateOutOfRange(today)),
        Some((y, _m, _d)) => if y - 1 < i32::MIN {
            Err(TimeErrorKind::DateOutOfRange(today))
        } else {
            match chrono_day_of_ymd((y - 1) as i32, 1, 1) {
                None => Err(invalid_date((y - 1) as i32, 1, 1)),
                Some(first) => match chrono_day_of_ymd((y - 1) as i32, 12, 31) {
                    None => Err(invalid_date((y - 1) as i32, 12, 31)),
                    Some(last) => Ok(range_of_days(first, last)),
                },
            }
        },
    }
}

/// Today, from midnight until `now`.
pub open spec fn today_outcome(now: PaceDateTime) -> TimeRangeOptions {
    range_from_day_start(now.spec_date().0, now)
}

/// Yesterday, from its first to its last second.
pub open spec fn yesterday_outcome(now: PaceDateTime) -> TimeRangeResult {
    let today = now.spec_date();
    let yesterday = today.0 - 1;
    if yesterday < i32::MIN || chrono_ymd(yesterday as i32) is None {
        Err(TimeErrorKind::DateOutOfRange(today))
    } else {
        Ok(range_of_days(yesterday as i32, yesterday as i32))
    }
}

/// The range that a time frame stands for, with the current time `now`.
pub open spec fn time_frame_outcome(frame: PaceTimeFrame, now: PaceDateTime) -> TimeRangeResult {
    match frame {
        PaceTimeFrame::DateRange(range) => Ok(range),
        PaceTimeFrame::CurrentMonth => current_month_outcome(now),
        PaceTimeFrame::CurrentWeek => current_week_outcome(now),
        PaceTimeFrame::CurrentYear => current_year_outcome(now),
        PaceTimeFrame::SpecificDate(date) => Ok(specific_date_outcome(date, now)),
        PaceTimeFrame::LastMonth => last_month_outcome(now),
        PaceTimeFrame::LastWeek => last_week_outcome(now),
        PaceTimeFrame::LastYear => last_year_outcome(now),
        PaceTimeFrame::Today => Ok(today_outcome(now)),
        PaceTimeFrame::Yesterday => yesterday_outcome(now),
    }
}

/// The day before `day`, when `chrono` can represent it.
fn previous_day(day: i32) -> (r: Option<i32>)
    ensures
        (day as int - 1 < i32::MIN || chrono_ymd((day - 1) as i32) is None) ==> r is None,
        !(day as int - 1 < i32::MIN || chrono_ymd((day - 1) as i32) is None) ==> r == Some(
            (day - 1) as i32,
        ),
        crate::clock::first_chrono_day() < day <= last_chrono_day() + 1 ==> r is Some,
{
    if day == i32::MIN {
        return None;
    }
    match ymd_of_day(day - 1) {
        Some(_) => Some(day - 1),
        None => None,
    }
}

impl TimeRangeOptions {
    /// Whether `time` lies in the range, both ends included.
    pub fn is_in_range(&self, time: PaceDateTime) -> (b: bool)
        ensures
            b == (self.start.0 <= time.0 && time.0 <= self.end.0),
    {
        time.0 >= self.start.0 && time.0 <= self.end.0
    }

    /// The range itself, or an error when it starts after it ends.
    pub fn validate(self) -> (r: PaceResult<Self>)
        ensures
            self.start.0 > self.end.0 ==> r == Err::<TimeRangeOptions, PaceError>(
                PaceError(
                    PaceErrorKind::Time(TimeErrorKind::InvalidTimeRange(self.start, self.end)),
                ),
            ),
            self.start.0 <= self.end.0 ==> r == Ok::<TimeRangeOptions, PaceError>(self),
    {
        if self.start.0 > self.end.0 {
            return Err(
                PaceError(
                    PaceErrorKind::Time(TimeErrorKind::InvalidTimeRange(self.start, self.end)),
                ),
            );
        }
        Ok(self)
    }

    /// The range from the first of this month until `now`.
    pub fn current_month_at(now: PaceDateTime) -> (r: TimeRangeResult)
        requires
            now.date_fits(),
        ensures
            r == current_month_outcome(now),
            now.is_clock_reading() ==> r is Ok,
    {
        let today = now.date();
        match ymd_of_day(today.0) {
            None => Err(TimeErrorKind::DateOutOfRange(today)),
            Some((y, m, _d)) => match day_of_ymd(y, m, 1) {
                None => Err(TimeErrorKind::InvalidDate { year: y, month: m, day: 1 }),
                Some(first) => Ok(
                    TimeRangeOptions { start: PaceDate(first).start_of_day(), end: now },
                ),
            },
        }
    }

    /// The range from the Monday of the week of `now`, at midnight, until `now`.
    pub fn current_week_at(now: PaceDateTime) -> (r: TimeRangeResult)
        requires
            now.date_fits(),
        ensures
            r == current_week_outcome(now),
            now.is_clock_reading() ==> r is Ok,
    {
        let today = now.date();
        match Self::monday_of_week(today, 0) {
            None => Err(TimeErrorKind::DateOutOfRange(today)),
            Some(monday) => Ok(TimeRangeOptions { start: PaceDate(monday).start_of_day(), end: now }),
        }
    }

    /// The Monday `weeks_back` weeks before the Monday of the week of `today`, when it and
    /// `today` lie in the calendar of `chrono`.
    fn monday_of_week(today: PaceDate, weeks_back: i32) -> (r: Option<i32>)
        requires
            0 <= weeks_back <= 1,
        ensures
            ({
                let monday = monday_of(today.0 as int) - 7 * weeks_back;
                if chrono_ymd(today.0) is None || monday < i32::MIN || chrono_ymd(monday as i32) is None {
                    r is None
                } else {
                    r == Some(monday as i32)
                }
            }),
            crate::clock::first_chrono_day() + 13 <= today.0 <= last_chrono_day() ==> r is Some,
    {
        let w = match days_from_monday(today.0) {
            None => {
                return None;
            },
            Some(w) => w,
        };
        let monday: i64 = (today.0 as i64) - (w as i64) - 7 * (weeks_back as i64);
        if monday < i32::MIN as i64 {
            return None;
        }
        match ymd_of_day(monday as i32) {
            None => None,
            Some(_) => Some(monday as i32),
        }
    }

    /// The range from January 1st of this year until `now`.
    pub fn current_year_at(now: PaceDateTime) -> (r: TimeRangeResult)
        requires
            now.date_fits(),
        ensures
            r == current_year_outcome(now),
            now.is_clock_reading() ==> r is Ok,
    {
        let today = now.date();
        match ymd_of_day(today.0) {
            None => Err(TimeErrorKind::DateOutOfRange(today)),
            Some((y, _m, _d)) => match day_of_ymd(y, 1, 1) {
                None => Err(TimeErrorKind::InvalidDate { year: y, month: 1, day: 1 }),
                Some(first) => Ok(
                    TimeRangeOptions { start: PaceDate(first).start_of_day(), end: now },
                ),
            },
        }
    }

    /// The range that covers `date`; a date in the future stands for today until `now`.
    pub fn specific_date_at(date: PaceDate, now: PaceDateTime) -> (r: TimeRangeOptions)
        requires
            now.date_fits(),
        ensures
            r == specific_date_outcome(date, now),
    {
        if date.is_future_at(now) {
            TimeRangeOptions { start: now.date().start_of_day(), end: now }
        } else {
            TimeRangeOptions { start: date.start_of_day(), end: date.end_of_day() }
        }
    }

    /// The month before the current one.
    pub fn last_month_at(now: PaceDateTime) -> (r: TimeRangeResult)
        requires
            now.date_fits(),
        ensures
            r == last_month_outcome(now),
            now.is_clock_reading() ==> r is Ok,
    {
        let today = now.date();
        match ymd_of_day(today.0) {
            None => Err(TimeErrorKind::DateOutOfRange(today)),
            Some((y, m, _d)) => {
                if m == 1 && y == i32::MIN {
                    return Err(TimeErrorKind::DateOutOfRange(today));
                }
                let py: i32 = if m == 1 { y - 1 } else { y };
                let before: u32 = if m == 1 { 12 } else { m - 1 };
                match day_of_ymd(py, before, 1) {
                    None => Err(TimeErrorKind::InvalidDate { year: py, month: before, day: 1 }),
                    Some(first) => match day_of_ymd(y, m, 1) {
                        None => Err(TimeErrorKind::InvalidDate { year: y, month: m, day: 1 }),
                        Some(next_first) => {
                            proof {
                                lemma_days_from_ce_fits(y as int, m as int, 1);
                            }
                            match previous_day(next_first) {
                                None => Err(TimeErrorKind::DateOutOfRange(PaceDate(next_first))),
                                Some(last) => Ok(
                                    TimeRangeOptions {
                                        start: PaceDate(first).start_of_day(),
                                        end: PaceDate(last).end_of_day(),
                                    },
                                ),
                            }
                        },
                    },
                }
            },
        }
    }

    /// The week before the current one, from Monday to Sunday.
    pub fn last_week_at(now: PaceDateTime) -> (r: TimeRangeResult)
        requires
            now.date_fits(),
        ensures
            r == last_week_outcome(now),
            now.is_clock_reading() ==> r is Ok,
    {
        let today = now.date();
        match Self::monday_of_week(today, 1) {
            None => Err(TimeErrorKind::DateOutOfRange(today)),
            Some(monday) => Ok(
                TimeRangeOptions {
                    start: PaceDate(monday).start_of_day(),
                    end: PaceDate(monday + 6).end_of_day(),
                },
            ),
        }
    }

    /// The year before the current one.
    pub fn last_year_at(now: PaceDateTime) -> (r: TimeRangeResult)
        requires
            now.date_fits(),
        ensures
            r == last_year_outcome(now),
            now.is_clock_reading() ==> r is Ok,
    {
        let today = now.date();
        match ymd_of_day(today.0) {
            None => Err(TimeErrorKind::DateOutOfRange(today)),
            Some((y, _m, _d)) => {
                if y == i32::MIN {
                    return Err(TimeErrorKind::DateOutOfRange(today));
                }
                let prev_year = y - 1;
                match day_of_ymd(prev_year, 1, 1) {
                    None => Err(TimeErrorKind::InvalidDate { year: prev_year, month: 1, day: 1 }),
                    Some(first) => match day_of_ymd(prev_year, 12, 31) {
                        None => Err(
                            TimeErrorKind::InvalidDate { year: prev_year, month: 12, day: 31 },
                        ),
                        Some(last) => Ok(
                            TimeRangeOptions {
                                start: PaceDate(first).start_of_day(),
                                end: PaceDate(last).end_of_day(),
                            },
                        ),
                    },
                }
            },
        }
    }

    /// Today, from midnight until `now`.
    pub fn today_at(now: PaceDateTime) -> (r: TimeRangeOptions)
        requires
            now.date_fits(),
        ensures
            r == today_outcome(now),
    {
        TimeRangeOptions { start: now.date().start_of_day(), end: now }
    }

    /// Yesterday, from its first to its last second.
    pub fn yesterday_at(now: PaceDateTime) -> (r: TimeRangeResult)
        requires
            now.date_fits(),
        ensures
            r == yesterday_outcome(now),
            now.is_clock_reading() ==> r is Ok,
    {
        let today = now.date();
        match previous_day(today.0) {
            None => Err(TimeErrorKind::DateOutOfRange(today)),
            Some(yesterday) => Ok(
                TimeRangeOptions {
                    start: PaceDate(yesterday).start_of_day(),
                    end: PaceDate(yesterday).end_of_day(),
                },
            ),
        }
    }

    /// The range that a time frame stands for, at the time `now`.
    pub fn from_time_frame_at(frame: PaceTimeFrame, now: PaceDateTime) -> (r: TimeRangeResult)
        requires
            now.date_fits(),
        ensures
            r == time_frame_outcome(frame, now),
            now.is_clock_reading() ==> r is Ok,
    {
        match frame {
            PaceTimeFrame::DateRange(range) => Ok(range),
            PaceTimeFrame::CurrentMonth => Self::current_month_at(now),
            PaceTimeFrame::CurrentWeek => Self::current_week_at(now),
            PaceTimeFrame::CurrentYear => Self::current_year_at(now),
            PaceTimeFrame::SpecificDate(date) => Ok(Self::specific_date_at(date, now)),
            PaceTimeFrame::LastMonth => Self::last_month_at(now),
            PaceTimeFrame::LastWeek => Self::last_week_at(now),
            PaceTimeFrame::LastYear => Self::last_year_at(now),
            PaceTimeFrame::Today => Ok(Self::today_at(now)),
            PaceTimeFrame::Yesterday => Self::yesterday_at(now),
        }
    }

    /// The range that a time frame stands for, now.
    pub fn from_time_frame(frame: PaceTimeFrame) -> (r: TimeRangeResult)
        ensures
            exists|now: PaceDateTime|
                #[trigger] now.date_fits() && now.is_clock_reading() && r == time_frame_outcome(frame, now),
            r is Ok,
    {
        let now = PaceDateTime::now();
        Self::from_time_frame_at(frame, now)
    }

    /// The range from the first day of the current month until now.
    pub fn current_month() -> (r: TimeRangeResult)
        ensures
            exists|now: PaceDateTime|
                #[trigger] now.date_fits() && now.is_clock_reading() && r == current_month_outcome(now),
            r is Ok,
    {
        let now = PaceDateTime::now();
        Self::current_month_at(now)
    }

    /// The range from the Monday of the current week until now.
    pub fn current_week() -> (r: TimeRangeResult)
        ensures
            exists|now: PaceDateTime|
                #[trigger] now.date_fits() && now.is_clock_reading() && r == current_week_outcome(now),
            r is Ok,
    {
        let now = PaceDateTime::now();
        Self::current_week_at(now)
    }

    /// The range from the first day of the current year until now.
    pub fn current_year() -> (r: TimeRangeResult)
        ensures
            exists|now: PaceDateTime|
                #[trigger] now.date_fits() && now.is_clock_reading() && r == current_year_outcome(now),
            r is Ok,
    {
        let now = PaceDateTime::now();
        Self::current_year_at(now)
    }

    /// The month before the current one.
    pub fn last_month() -> (r: TimeRangeResult)
        ensures
            exists|now: PaceDateTime|
                #[trigger] now.date_fits() && now.is_clock_reading() && r == last_month_outcome(now),
            r is Ok,
    {
        let now = PaceDateTime::now();
        Self::last_month_at(now)
    }

    /// The week before the current one.
    pub fn last_week() -> (r: TimeRangeResult)
        ensures
            exists|now: PaceDateTime|
                #[trigger] now.date_fits() && now.is_clock_reading() && r == last_week_outcome(now),
            r is Ok,
    {
        let now = PaceDateTime::now();
        Self::last_week_at(now)
    }

    /// The year before the current one.
    pub fn last_year() -> (r: TimeRangeResult)
        ensures
            exists|now: PaceDateTime|
                #[trigger] now.date_fits() && now.is_clock_reading() && r == last_year_outcome(now),
            r is Ok,
    {
        let now = PaceDateTime::now();
        Self::last_year_at(now)
    }

    /// The range from midnight until now.
    pub fn today() -> (r: TimeRangeOptions)
        ensures
            exists|now: PaceDateTime|
                #[trigger] now.date_fits() && now.is_clock_reading() && r == today_outcome(now),
    {
        let now = PaceDateTime::now();
        Self::today_at(now)
    }

    /// The day before today.
    pub fn yesterday() -> (r: TimeRangeResult)
        ensures
            exists|now: PaceDateTime|
                #[trigger] now.date_fits() && now.is_clock_reading() && r == yesterday_outcome(now),
            r is Ok,
    {
        let now = PaceDateTime::now();
        Self::yesterday_at(now)
    }

    /// The range of a specific date: the whole day, or today until now for a date in
    /// the future.
    pub fn specific_date(date: PaceDate) -> (r: TimeRangeOptions)
        ensures
            exists|now: PaceDateTime|
                #[trigger] now.date_fits() && now.is_clock_reading() && r == specific_date_outcome(date, now),
    {
        let now = PaceDateTime::now();
        Self::specific_date_at(date, now)
    }

    /// The range from midnight of the first date to midnight of the second date.
    pub fn from_dates(start: PaceDate, end: PaceDate) -> (r: Self)
        ensures
            r.start == start.spec_start(),
            r.end == end.spec_start(),
    {
        TimeRangeOptions { start: start.start_of_day(), end: end.start_of_day() }
    }
}

/// The flags that select a time frame by name.
#[derive(Debug, Clone, Copy, PartialEq, Eq, Default)]
pub struct TimeFlags {
    pub today: bool,
    pub yesterday: bool,
    pub current_week: bool,
    pub last_week: bool,
    pub current_month: bool,
    pub last_month: bool,
}

/// The flags that select a time frame by dates.
#[derive(Debug, Clone, Copy, PartialEq, Eq, Default)]
pub struct DateFlags {
    pub date: Option<PaceDate>,
    pub from: Option<PaceDate>,
    pub to: Option<PaceDate>,
}

/// The time frame that the flags select, with `today` standing for an open end.
pub open spec fn time_frame_from_flags(
    time_flags: TimeFlags,
    date_flags: DateFlags,
    today: PaceDate,
) -> PaceTimeFrame {
    if time_flags.today {
        PaceTimeFrame::Today
    } else if time_flags.yesterday {
        PaceTimeFrame::Yesterday
    } else if time_flags.current_week {
        PaceTimeFrame::CurrentWeek
    } else if time_flags.last_week {
        PaceTimeFrame::LastWeek
    } else if time_flags.current_month {
        PaceTimeFrame::CurrentMonth
    } else if time_flags.last_month {
        PaceTimeFrame::LastMonth
    } else if date_flags.date is Some {
        PaceTimeFrame::SpecificDate(date_flags.date.unwrap())
    } else if date_flags.from is Some && date_flags.to is None {
        PaceTimeFrame::DateRange(
            TimeRangeOptions {
                start: date_flags.from.unwrap().spec_start(),
                end: today.spec_start(),
            },
        )
    } else if date_flags.to is Some && date_flags.from is None {
        PaceTimeFrame::DateRange(
            TimeRangeOptions {
                start: PaceDate(UNIX_EPOCH_DAY).spec_start(),
                end: date_flags.to.unwrap().spec_start(),
            },
        )
    } else if date_flags.to is Some && date_flags.from is Some {
        PaceTimeFrame::DateRange(
            TimeRangeOptions {
                start: date_flags.from.unwrap().spec_start(),
                end: date_flags.to.unwrap().spec_start(),
            },
        )
    } else {
        PaceTimeFrame::Today
    }
}

/// The time frame that the flags select; a range without an end ends at midnight
/// of `today`, one without a start starts at January 1st, 1970.
pub fn get_time_frame_from_flags_at(
    time_flags: &TimeFlags,
    date_flags: &DateFlags,
    today: PaceDate,
) -> (r: PaceResult<PaceTimeFrame>)
    ensures
        r == Ok::<PaceTimeFrame, PaceError>(time_frame_from_flags(*time_flags, *date_flags, today)),
{
    let frame = if time_flags.today {
        PaceTimeFrame::Today
    } else if time_flags.yesterday {
        PaceTimeFrame::Yesterday
    } else if time_flags.current_week {
        PaceTimeFrame::CurrentWeek
    } else if time_flags.last_week {
        PaceTimeFrame::LastWeek
    } else if time_flags.current_month {
        PaceTimeFrame::CurrentMonth
    } else if time_flags.last_month {
        PaceTimeFrame::LastMonth
    } else if let Some(date) = date_flags.date {
        PaceTimeFrame::SpecificDate(date)
    } else {
        match (date_flags.from, date_flags.to) {
            (Some(from), None) => PaceTimeFrame::DateRange(TimeRangeOptions::from_dates(from, today)),
            (None, Some(to)) => PaceTimeFrame::DateRange(
                TimeRangeOptions::from_dates(PaceDate::with_start(), to),
            ),
            (Some(from), Some(to)) => PaceTimeFrame::DateRange(
                TimeRangeOptions::from_dates(from, to),
            ),
            (None, None) => PaceTimeFrame::Today,
        }
    };
    Ok(frame)
}

/// The time frame that the flags select, with today's date for an open end.
pub fn get_time_frame_from_flags(time_flags: &TimeFlags, date_flags: &DateFlags) -> (r: PaceResult<
    PaceTimeFrame,
>)
    ensures
        exists|now: PaceDateTime|
            #[trigger] now.is_clock_reading() && now.date_fits() && r == Ok::<PaceTimeFrame, PaceError>(
                time_frame_from_flags(*time_flags, *date_flags, now.spec_date()),
            ),
{
    let now = PaceDateTime::now();
    let today = now.date();
    let r = get_time_frame_from_flags_at(time_flags, date_flags, today);
    assert(r == Ok::<PaceTimeFrame, PaceError>(time_frame_from_flags(*time_flags, *date_flags, now.spec_date())));
    r
}

/// The given `HH:MM` time of the day of `now`, or `now` when no time is given.
pub open spec fn time_or_now_outcome(time: Option<Seq<char>>, now: PaceDateTime) -> Result<PaceDateTime, ()> {
    match time {
        None => Ok(now),
        Some(t) => match chrono_hour_minute(t) {
            None => Err(()),
            Some(secs) => Ok(PaceDateTime(at_day(now.spec_date().0, secs as int))),
        },
    }
}

/// The view of an optional string.
pub open spec fn opt_text(s: Option<String>) -> Option<Seq<char>> {
    match s {
        Some(t) => Some(t@),
        None => None,
    }
}

/// The `HH:MM` time of the day of `now` in `time`, or `now` when no time is given.
pub fn extract_time_or_now_at(time: &Option<String>, now: PaceDateTime) -> (r: PaceResult<
    PaceDateTime,
>)
    requires
        now.date_fits(),
    ensures
        match time_or_now_outcome(opt_text(*time), now) {
            Ok(t) => r == Ok::<PaceDateTime, PaceError>(t),
            Err(_) => r matches Err(PaceError(PaceErrorKind::ChronoParse(t))) && Some(t@) == opt_text(*time),
        },
{
    match time {
        Some(text) => match parse_hour_minute(text.as_str()) {
            Some(secs) => Ok(now.date().and_time(PaceTime(secs))),
            None => Err(PaceError(PaceErrorKind::ChronoParse(text.clone()))),
        },
        None => Ok(now),
    }
}

/// The `HH:MM` time of today in `time`, or the current time when no time is given.
pub fn extract_time_or_now(time: &Option<String>) -> (r: PaceResult<PaceDateTime>)
    ensures
        exists|now: PaceDateTime| #[trigger] now.date_fits() && now.is_clock_reading() && match time_or_now_outcome(opt_text(*time), now) {
            Ok(t) => r == Ok::<PaceDateTime, PaceError>(t),
            Err(_) => r matches Err(PaceError(PaceErrorKind::ChronoParse(t))) && Some(t@) == opt_text(*time),
        },
{
    let now = PaceDateTime::now();
    extract_time_or_now_at(time, now)
}

/// The `HH:MM` time of the day of `now` in `time`, if a time is given.
pub fn parse_time_from_user_input_at(time: &Option<String>, now: PaceDateTime) -> (r: PaceOptResult<
    PaceDateTime,
>)
    requires
        now.date_fits(),
    ensures
        match opt_text(*time) {
            None => r == Ok::<Option<PaceDateTime>, PaceError>(None),
            Some(t) => match chrono_hour_minute(t) {
                None => r matches Err(PaceError(PaceErrorKind::Time(TimeErrorKind::ParsingTimeFromUserInputFailed(e)))) && e@ == t,
                Some(secs) => r == Ok::<Option<PaceDateTime>, PaceError>(
                    Some(PaceDateTime(at_day(now.spec_date().0, secs as int))),
                ),
            },
        },
{
    match time {
        Some(text) => match parse_hour_minute(text.as_str()) {
            Some(secs) => Ok(Some(now.date().and_time(PaceTime(secs)))),
            None => Err(
                PaceError(
                    PaceErrorKind::Time(TimeErrorKind::ParsingTimeFromUserInputFailed(text.clone())),
                ),
            ),
        },
        None => Ok(None),
    }
}

/// The `HH:MM` time of today in `time`, if a time is given.
pub fn parse_time_from_user_input(time: &Option<String>) -> (r: PaceOptResult<PaceDateTime>)
    ensures
        exists|now: PaceDateTime| #[trigger] now.date_fits() && now.is_clock_reading() && match opt_text(*time) {
            None => r == Ok::<Option<PaceDateTime>, PaceError>(None),
            Some(t) => match chrono_hour_minute(t) {
                None => r matches Err(PaceError(PaceErrorKind::Time(TimeErrorKind::ParsingTimeFromUserInputFailed(e)))) && e@ == t,
                Some(secs) => r == Ok::<Option<PaceDateTime>, PaceError>(
                    Some(PaceDateTime(at_day(now.spec_date().0, secs as int))),
                ),
            },
        },
{
    let now = PaceDateTime::now();
    parse_time_from_user_input_at(time, now)
}

/// How long ago something happened, in the largest fitting unit.
#[derive(Debug, Clone, Copy, PartialEq, Eq, Structural)]
pub enum RelativeTime {
    /// More than five days ago: shown as a date.
    Date,
    DaysAgo(i64),
    OneDayAgo,
    HoursAgo(i64),
    AnHourAgo,
    MinutesAgo(i64),
    OneMinuteAgo,
    SecondsAgo(i64),
    JustNow,
}

/// How long before `now` the time `initial` lies.
pub open spec fn relative_time_spec(initial: PaceDateTime, now: PaceDateTime) -> RelativeTime {
    let delta = now.0 - initial.0;
    let days = delta / 86400;
    let hours = delta / 3600;
    let minutes = delta / 60;
    if delta <= 0 {
        RelativeTime::JustNow
    } else if days > 5 {
        RelativeTime::Date
    } else if days >= 2 {
        RelativeTime::DaysAgo(days as i64)
    } else if days == 1 {
        RelativeTime::OneDayAgo
    } else if hours > 1 {
        RelativeTime::HoursAgo(hours as i64)
    } else if hours == 1 {
        RelativeTime::AnHourAgo
    } else if minutes > 1 {
        RelativeTime::MinutesAgo(minutes as i64)
    } else if minutes == 1 {
        RelativeTime::OneMinuteAgo
    } else {
        RelativeTime::SecondsAgo(delta as i64)
    }
}

/// How long before `now` the time `initial` lies: days when more than a day,
/// else hours, minutes or seconds.
pub fn relative_time(initial: PaceDateTime, now: PaceDateTime) -> (r: RelativeTime)
    ensures
        r == relative_time_spec(initial, now),
{
    if now.0 <= initial.0 {
        return RelativeTime::JustNow;
    }
    let delta: i128 = (now.0 as i128) - (initial.0 as i128);
    let days: i128 = delta / 86400;
    let hours: i128 = delta / 3600;
    let minutes: i128 = delta / 60;
    if days > 5 {
        RelativeTime::Date
    } else if days >= 2 {
        RelativeTime::DaysAgo(days as i64)
    } else if days == 1 {
        RelativeTime::OneDayAgo
    } else if hours > 1 {
        RelativeTime::HoursAgo(hours as i64)
    } else if hours == 1 {
        RelativeTime::AnHourAgo
    } else if minutes > 1 {
        RelativeTime::MinutesAgo(minutes as i64)
    } else if minutes == 1 {
        RelativeTime::OneMinuteAgo
    } else {
        RelativeTime::SecondsAgo(delta as i64)
    }
}

/// A year as `chrono` writes it: four digits from 0 to 9999, else with its sign and at
/// least four digits.
pub open spec fn year_text(year: int) -> Seq<char> {
    if 0 <= year <= 9999 {
        zero_padded(year as nat, 4)
    } else if year < 0 {
        seq!['-'] + zero_padded((-year) as nat, 4)
    } else {
        seq!['+'] + zero_padded(year as nat, 4)
    }
}

/// A time of day given in seconds after midnight, as `HH:MM:SS`.
pub open spec fn clock_text(secs: nat) -> Seq<char> {
    zero_padded(secs / 3600, 2) + seq![':'] + zero_padded((secs % 3600) / 60, 2) + seq![':']
        + zero_padded(secs % 60, 2)
}

/// The seconds after midnight of a point in time.
pub open spec fn seconds_of_day(t: PaceDateTime) -> nat {
    (t.0 - day_of(t.0) * SECS_PER_DAY) as nat
}

/// A point in time as `chrono` shows a naive date and time, `YYYY-MM-DD HH:MM:SS`; a
/// point outside the calendar of `chrono` as its number of seconds.
pub open spec fn date_time_text(t: PaceDateTime) -> Seq<char> {
    let fallback = signed_decimal_text(t.0 as int) + " seconds"@;
    if t.date_fits() {
        match chrono_ymd(day_of(t.0) as i32) {
            Some((y, m, d)) => year_text(y as int) + seq!['-'] + zero_padded(m as nat, 2) + seq!['-']
                + zero_padded(d as nat, 2) + seq![' '] + clock_text(seconds_of_day(t)),
            None => fallback,
        }
    } else {
        fallback
    }
}

/// A time range as its start, a dash and its end.
pub open spec fn time_range_text(r: TimeRangeOptions) -> Seq<char> {
    date_time_text(r.start) + " - "@ + date_time_text(r.end)
}

/// A year as `chrono` writes it.
fn year_string(year: i32) -> (s: String)
    ensures
        s@ == year_text(year as int),
{
    proof {
        reveal_strlit("-");
        reveal_strlit("+");
    }
    if 0 <= year && year <= 9999 {
        padded(year as u64, 4)
    } else if year < 0 {
        let magnitude: u64 = (-(year as i64)) as u64;
        let mut s = String::from_str("-");
        let digits = padded(magnitude, 4);
        s.append(digits.as_str());
        s
    } else {
        let mut s = String::from_str("+");
        let digits = padded(year as u64, 4);
        s.append(digits.as_str());
        s
    }
}

/// A time of day given in seconds after midnight, as `HH:MM:SS`.
fn clock_string(secs: u32) -> (s: String)
    ensures
        s@ == clock_text(secs as nat),
{
    proof {
        reveal_strlit(":");
    }
    let mut s = padded((secs / 3600) as u64, 2);
    s.append(":");
    let minutes = padded(((secs % 3600) / 60) as u64, 2);
    s.append(minutes.as_str());
    s.append(":");
    let seconds = padded((secs % 60) as u64, 2);
    s.append(seconds.as_str());
    s
}

impl PaceDateTime {
    /// The point in time as `chrono` shows a naive date and time, e.g.
    /// `2024-03-22 14:05:14`; outside the calendar of `chrono`, its number of seconds.
    pub fn text(&self) -> (s: String)
        ensures
            s@ == date_time_text(*self),
    {
        proof {
            reveal_strlit("-");
            reveal_strlit(" ");
        }
        let day = self.day_number();
        if i32::MIN as i64 <= day && day <= i32::MAX as i64 {
            match ymd_of_day(day as i32) {
                Some((y, m, d)) => {
                    let mut s = year_string(y);
                    s.append("-");
                    let month = padded(m as u64, 2);
                    s.append(month.as_str());
                    s.append("-");
                    let day_of_month = padded(d as u64, 2);
                    s.append(day_of_month.as_str());
                    s.append(" ");
                    let time = self.time();
                    let clock = clock_string(time.0);
                    s.append(clock.as_str());
                    return s;
                },
                None => {},
            }
        }
        let mut s = signed_decimal(self.0);
        s.append(" seconds");
        s
    }
}

impl TimeRangeOptions {
    /// The range as its start, a dash and its end.
    pub fn text(&self) -> (s: String)
        ensures
            s@ == time_range_text(*self),
    {
        let mut s = self.start.text();
        s.append(" - ");
        let end = self.end.text();
        s.append(end.as_str());
        s
    }
}

/// The English abbreviation of a month (1 to 12), as `chrono` writes `%b`.
pub open spec fn month_abbreviation(m: nat) -> Seq<char> {
    if m == 1 {
        "Jan"@
    } else if m == 2 {
        "Feb"@
    } else if m == 3 {
        "Mar"@
    } else if m == 4 {
        "Apr"@
    } else if m == 5 {
        "May"@
    } else if m == 6 {
        "Jun"@
    } else if m == 7 {
        "Jul"@
    } else if m == 8 {
        "Aug"@
    } else if m == 9 {
        "Sep"@
    } else if m == 10 {
        "Oct"@
    } else if m == 11 {
        "Nov"@
    } else {
        "Dec"@
    }
}

/// The date of a point in time as `chrono` writes `%b %d, %Y`, e.g. `Mar 22, 2024`;
/// outside the calendar of `chrono`, as [`date_time_text`] does.
pub open spec fn calendar_date_text(t: PaceDateTime) -> Seq<char> {
    if t.date_fits() {
        match chrono_ymd(day_of(t.0) as i32) {
            Some((y, m, d)) => month_abbreviation(m as nat) + seq![' '] + zero_padded(d as nat, 2) + ", "@
                + year_text(y as int),
            None => date_time_text(t),
        }
    } else {
        date_time_text(t)
    }
}

/// How long before `now` the time `initial` lies, in words: its date when that was
/// more than five days before.
pub open spec fn relative_time_text(initial: PaceDateTime, now: PaceDateTime) -> Seq<char> {
    match relative_time_spec(initial, now) {
        RelativeTime::Date => calendar_date_text(initial),
        RelativeTime::DaysAgo(n) => decimal_text(n as nat) + " days ago"@,
        RelativeTime::OneDayAgo => "one day ago"@,
        RelativeTime::HoursAgo(n) => decimal_text(n as nat) + " hours ago"@,
        RelativeTime::AnHourAgo => "an hour ago"@,
        RelativeTime::MinutesAgo(n) => decimal_text(n as nat) + " minutes ago"@,
        RelativeTime::OneMinuteAgo => "one minute ago"@,
        RelativeTime::SecondsAgo(n) => decimal_text(n as nat) + " seconds ago"@,
        RelativeTime::JustNow => "just now"@,
    }
}

/// The English abbreviation of a month (1 to 12).
fn month_abbreviation_str(m: u32) -> (s: &'static str)
    ensures
        s@ == month_abbreviation(m as nat),
{
    if m == 1 {
        "Jan"
    } else if m == 2 {
        "Feb"
    } else if m == 3 {
        "Mar"
    } else if m == 4 {
        "Apr"
    } else if m == 5 {
        "May"
    } else if m == 6 {
        "Jun"
    } else if m == 7 {
        "Jul"
    } else if m == 8 {
        "Aug"
    } else if m == 9 {
        "Sep"
    } else if m == 10 {
        "Oct"
    } else if m == 11 {
        "Nov"
    } else {
        "Dec"
    }
}

impl PaceDateTime {
    /// The date of the point in time as `chrono` writes `%b %d, %Y`, e.g.
    /// `Mar 22, 2024`; outside the calendar of `chrono`, as [`PaceDateTime::text`].
    pub fn calendar_date(&self) -> (s: String)
        ensures
            s@ == calendar_date_text(*self),
    {
        proof {
            reveal_strlit(" ");
        }
        let day = self.day_number();
        if i32::MIN as i64 <= day && day <= i32::MAX as i64 {
            match ymd_of_day(day as i32) {
                Some((y, m, d)) => {
                    let mut s = String::from_str(month_abbreviation_str(m));
                    s.append(" ");
                    let day_of_month = padded(d as u64, 2);
                    s.append(day_of_month.as_str());
                    s.append(", ");
                    let year = year_string(y);
                    s.append(year.as_str());
                    return s;
                },
                None => {},
            }
        }
        self.text()
    }
}

/// How long before `now` the time `initial` lies, in words, e.g. `3 hours ago`; its
/// date when that was more than five days before.
pub fn duration_to_str_at(initial: PaceDateTime, now: PaceDateTime) -> (s: String)
    ensures
        s@ == relative_time_text(initial, now),
{
    match relative_time(initial, now) {
        RelativeTime::Date => initial.calendar_date(),
        RelativeTime::DaysAgo(n) => {
            let mut s = decimal(n as u64);
            s.append(" days ago");
            s
        },
        RelativeTime::OneDayAgo => String::from_str("one day ago"),
        RelativeTime::HoursAgo(n) => {
            let mut s = decimal(n as u64);
            s.append(" hours ago");
            s
        },
        RelativeTime::AnHourAgo => String::from_str("an hour ago"),
        RelativeTime::MinutesAgo(n) => {
            let mut s = decimal(n as u64);
            s.append(" minutes ago");
            s
        },
        RelativeTime::OneMinuteAgo => String::from_str("one minute ago"),
        RelativeTime::SecondsAgo(n) => {
            let mut s = decimal(n as u64);
            s.append(" seconds ago");
            s
        },
        RelativeTime::JustNow => String::from_str("just now"),
    }
}

/// How long ago the time `initial` lies, in words, as of the current time.
pub fn duration_to_str(initial: PaceDateTime) -> (s: String)
    ensures
        exists|now: PaceDateTime| now.date_fits() && now.is_clock_reading() && s@ == #[trigger] relative_time_text(initial, now),
{
    duration_to_str_at(initial, PaceDateTime::now())
}

} // verus!
