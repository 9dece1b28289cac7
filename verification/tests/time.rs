use pace_core::error::{PaceErrorKind, TimeErrorKind};
use pace_core::duration::PaceDuration;
use pace_core::time::{
    calculate_duration, duration_to_str, duration_to_str_at, extract_time_or_now_at, get_time_frame_from_flags,
    get_time_frame_from_flags_at, parse_time_from_user_input_at, relative_time, DateFlags,
    PaceDate, PaceDateTime, PaceTime, PaceTimeFrame, RelativeTime, TimeFlags, TimeRangeOptions,
};

fn date(year: i32, month: u32, day: u32) -> PaceDate {
    PaceDate::try_from_ymd(year, month, day).unwrap()
}

fn at(year: i32, month: u32, day: u32, hour: u32, minute: u32, second: u32) -> PaceDateTime {
    date(year, month, day).and_time(PaceTime::from_hms(hour, minute, second).unwrap())
}

#[test]
fn test_duration_to_str_passes() {
    let initial_time = PaceDateTime::now();
    let result = duration_to_str(initial_time);
    assert_eq!(result, "just now");
}

#[test]
fn relative_time_in_words() {
    let now = at(2024, 3, 10, 12, 0, 0);
    assert_eq!(duration_to_str_at(PaceDateTime(now.0 - 30), now), "30 seconds ago");
    assert_eq!(duration_to_str_at(PaceDateTime(now.0 - 60), now), "one minute ago");
    assert_eq!(duration_to_str_at(PaceDateTime(now.0 - 150), now), "2 minutes ago");
    assert_eq!(duration_to_str_at(PaceDateTime(now.0 - 3600), now), "an hour ago");
    assert_eq!(duration_to_str_at(PaceDateTime(now.0 - 3 * 3600), now), "3 hours ago");
    assert_eq!(duration_to_str_at(PaceDateTime(now.0 - 86400), now), "one day ago");
    assert_eq!(duration_to_str_at(PaceDateTime(now.0 - 3 * 86400), now), "3 days ago");
    assert_eq!(duration_to_str_at(at(2024, 3, 1, 9, 0, 0), now), "Mar 01, 2024");
    assert_eq!(duration_to_str_at(PaceDateTime(now.0 + 10), now), "just now");
}

#[test]
fn points_in_time_read_as_chrono_shows_them() {
    for (y, m, d, h, mi, s) in [(2024, 3, 22, 14, 5, 14), (5, 1, 2, 0, 0, 9), (-44, 3, 15, 23, 59, 59), (12345, 6, 7, 1, 2, 3)] {
        let expected = chrono::NaiveDate::from_ymd_opt(y, m, d).unwrap().and_hms_opt(h, mi, s).unwrap();
        assert_eq!(at(y, m, d, h, mi, s).text(), expected.to_string());
        assert_eq!(at(y, m, d, h, mi, s).calendar_date(), expected.format("%b %d, %Y").to_string());
    }
    assert_eq!(at(2024, 3, 22, 14, 5, 14).text(), "2024-03-22 14:05:14");
    assert_eq!(PaceDateTime(i64::MAX).text(), format!("{} seconds", i64::MAX));
    let range = TimeRangeOptions { start: at(2024, 3, 22, 0, 0, 0), end: at(2024, 3, 22, 23, 59, 59) };
    assert_eq!(range.text(), "2024-03-22 00:00:00 - 2024-03-22 23:59:59");
}

#[test]
fn relative_time_picks_the_largest_unit() {
    let now = at(2024, 3, 10, 12, 0, 0);
    assert_eq!(relative_time(PaceDateTime(now.0 - 30), now), RelativeTime::SecondsAgo(30));
    assert_eq!(relative_time(PaceDateTime(now.0 - 60), now), RelativeTime::OneMinuteAgo);
    assert_eq!(relative_time(PaceDateTime(now.0 - 150), now), RelativeTime::MinutesAgo(2));
    assert_eq!(relative_time(PaceDateTime(now.0 - 3600), now), RelativeTime::AnHourAgo);
    assert_eq!(relative_time(PaceDateTime(now.0 - 3 * 3600), now), RelativeTime::HoursAgo(3));
    assert_eq!(relative_time(PaceDateTime(now.0 - 86400), now), RelativeTime::OneDayAgo);
    assert_eq!(relative_time(PaceDateTime(now.0 - 3 * 86400), now), RelativeTime::DaysAgo(3));
    assert_eq!(relative_time(PaceDateTime(now.0 - 6 * 86400), now), RelativeTime::Date);
    assert_eq!(relative_time(PaceDateTime(now.0 + 10), now), RelativeTime::JustNow);
}

#[test]
fn test_extract_time_or_now_is_now_passes() {
    let now = PaceDateTime::now();
    let result = extract_time_or_now_at(&None, now).unwrap();
    assert_eq!(result, now);
}

#[test]
fn test_extract_time_or_now_passes() {
    let now = at(2024, 3, 10, 15, 30, 5);
    let result = extract_time_or_now_at(&Some("12:00".to_string()), now).unwrap();
    assert_eq!(result, at(2024, 3, 10, 12, 0, 0));
}

#[test]
fn extract_time_or_now_rejects_text_that_is_no_time() {
    let now = at(2024, 3, 10, 15, 30, 5);
    let result = extract_time_or_now_at(&Some("noon".to_string()), now);
    assert!(matches!(result, Err(e) if matches!(&e.0, PaceErrorKind::ChronoParse(t) if t == "noon")));
}

#[test]
fn test_pace_date_time_is_future_fails() {
    let now = PaceDateTime::now();
    let future = PaceDateTime(now.0 + 86400);
    assert!(future.validate_future_at(now).is_err());
    assert!(future.validate_future().is_err());
    assert_eq!(now.validate_future_at(now).unwrap(), now);
}

#[test]
fn test_parse_time_from_user_input_passes() {
    let now = at(2024, 3, 10, 15, 30, 5);
    let result = parse_time_from_user_input_at(&Some("12:00".to_string()), now)
        .unwrap()
        .unwrap();
    assert_eq!(result, at(2024, 3, 10, 12, 0, 0));
    assert!(parse_time_from_user_input_at(&None, now).unwrap().is_none());
    assert!(matches!(
        parse_time_from_user_input_at(&Some("25:00".to_string()), now),
        Err(e) if matches!(&e.0, PaceErrorKind::Time(TimeErrorKind::ParsingTimeFromUserInputFailed(t)) if t == "25:00")
    ));
}

#[test]
fn test_calculate_duration_passes() {
    let begin = at(2021, 1, 1, 0, 0, 0);
    let end = at(2021, 1, 1, 0, 0, 1);
    let duration = calculate_duration(&begin, end).unwrap();
    assert_eq!(duration, std::time::Duration::from_secs(1).into());
}

#[test]
fn test_calculate_duration_fails() {
    let begin = at(2021, 1, 1, 0, 0, 1);
    let end = at(2021, 1, 1, 0, 0, 0);
    let duration = calculate_duration(&begin, end);
    assert!(matches!(duration, Err(e) if matches!(e.0, PaceErrorKind::ChronoDurationIsNegative)));
}

#[test]
fn calculate_duration_counts_the_seconds_between() {
    let begin = at(2021, 1, 1, 23, 0, 0);
    let end = at(2021, 1, 2, 1, 30, 0);
    assert_eq!(calculate_duration(&begin, end).unwrap(), PaceDuration(9000));
}

#[test]
fn test_pace_date_time_is_in_range_options_passes() {
    let activity_date_time = at(2021, 2, 3, 0, 0, 0);
    let time_range = TimeRangeOptions { start: at(2021, 2, 2, 0, 0, 0), end: at(2021, 2, 4, 0, 0, 0) };
    assert!(time_range.is_in_range(activity_date_time));
    assert!(time_range.is_in_range(time_range.start));
    assert!(time_range.is_in_range(time_range.end));
    assert!(!time_range.is_in_range(PaceDateTime(time_range.end.0 + 1)));
}

#[test]
fn test_pace_date_time_is_in_range_options_fails() {
    let range = TimeRangeOptions { start: at(2021, 2, 4, 0, 0, 0), end: at(2021, 2, 2, 0, 0, 0) };
    assert!(matches!(
        range.validate(),
        Err(e) if matches!(e.0, PaceErrorKind::Time(TimeErrorKind::InvalidTimeRange(s, t)) if s == range.start && t == range.end)
    ));
    let ok = TimeRangeOptions { start: range.end, end: range.start };
    assert_eq!(ok.validate().unwrap(), ok);
}

#[test]
fn test_convert_pace_time_frame_date_range_to_time_range_options_passes() {
    let range = TimeRangeOptions { start: at(2021, 2, 2, 0, 0, 0), end: at(2021, 2, 4, 0, 0, 0) };
    let now = PaceDateTime::now();
    assert_eq!(TimeRangeOptions::from_time_frame_at(PaceTimeFrame::DateRange(range), now).unwrap(), range);
}

#[test]
fn test_convert_pace_time_frame_specific_date_to_time_range_options_passes() {
    let now = PaceDateTime::now();
    let frame = PaceTimeFrame::SpecificDate(date(2021, 2, 2));
    assert_eq!(
        TimeRangeOptions::from_time_frame_at(frame, now).unwrap(),
        TimeRangeOptions { start: at(2021, 2, 2, 0, 0, 0), end: at(2021, 2, 2, 23, 59, 59) }
    );
}

#[test]
fn specific_date_in_the_future_covers_today_until_now() {
    let now = at(2024, 3, 10, 8, 0, 0);
    assert_eq!(
        TimeRangeOptions::specific_date_at(date(2024, 3, 12), now),
        TimeRangeOptions { start: at(2024, 3, 10, 0, 0, 0), end: now }
    );
}

#[test]
fn test_convert_pace_time_frame_current_month_to_time_range_options_passes() {
    let now = at(2024, 3, 10, 8, 0, 0);
    assert_eq!(
        TimeRangeOptions::from_time_frame_at(PaceTimeFrame::CurrentMonth, now).unwrap(),
        TimeRangeOptions::current_month_at(now).unwrap()
    );
    assert_eq!(
        TimeRangeOptions::current_month_at(now).unwrap(),
        TimeRangeOptions { start: at(2024, 3, 1, 0, 0, 0), end: now }
    );
}

#[test]
fn test_convert_pace_time_frame_current_week_to_time_range_options_passes() {
    // 2024-03-13 is a Wednesday; its week begins on Monday 2024-03-11.
    let now = at(2024, 3, 13, 8, 0, 0);
    assert_eq!(
        TimeRangeOptions::from_time_frame_at(PaceTimeFrame::CurrentWeek, now).unwrap(),
        TimeRangeOptions::current_week_at(now).unwrap()
    );
    assert_eq!(
        TimeRangeOptions::current_week_at(now).unwrap(),
        TimeRangeOptions { start: at(2024, 3, 11, 0, 0, 0), end: now }
    );
}

#[test]
fn test_convert_pace_time_frame_current_year_to_time_range_options_passes() {
    let now = at(2024, 3, 13, 8, 0, 0);
    assert_eq!(
        TimeRangeOptions::from_time_frame_at(PaceTimeFrame::CurrentYear, now).unwrap(),
        TimeRangeOptions::current_year_at(now).unwrap()
    );
    assert_eq!(
        TimeRangeOptions::current_year_at(now).unwrap(),
        TimeRangeOptions { start: at(2024, 1, 1, 0, 0, 0), end: now }
    );
}

#[test]
fn test_convert_pace_time_frame_last_month_to_time_range_options_passes() {
    let now = at(2024, 3, 13, 8, 0, 0);
    assert_eq!(
        TimeRangeOptions::from_time_frame_at(PaceTimeFrame::LastMonth, now).unwrap(),
        TimeRangeOptions::last_month_at(now).unwrap()
    );
    assert_eq!(
        TimeRangeOptions::last_month_at(now).unwrap(),
        TimeRangeOptions { start: at(2024, 2, 1, 0, 0, 0), end: at(2024, 2, 29, 23, 59, 59) }
    );
}

#[test]
fn last_month_in_january_is_the_december_before() {
    let now = at(2024, 1, 13, 8, 0, 0);
    assert_eq!(
        TimeRangeOptions::last_month_at(now).unwrap(),
        TimeRangeOptions { start: at(2023, 12, 1, 0, 0, 0), end: at(2023, 12, 31, 23, 59, 59) }
    );
}

#[test]
fn last_week_in_the_first_iso_week_is_the_week_before() {
    // 2024-01-03 is a Wednesday of ISO week 1; the week before runs from Monday
    // 2023-12-25 to Sunday 2023-12-31.
    let now = at(2024, 1, 3, 8, 0, 0);
    assert_eq!(
        TimeRangeOptions::last_week_at(now).unwrap(),
        TimeRangeOptions { start: at(2023, 12, 25, 0, 0, 0), end: at(2023, 12, 31, 23, 59, 59) }
    );
    // 2021-01-05 is a Tuesday; the Monday before lies in the ISO year 2020.
    let now = at(2021, 1, 5, 8, 0, 0);
    assert_eq!(
        TimeRangeOptions::last_week_at(now).unwrap(),
        TimeRangeOptions { start: at(2020, 12, 28, 0, 0, 0), end: at(2021, 1, 3, 23, 59, 59) }
    );
}

#[test]
fn the_current_week_of_a_monday_begins_that_monday() {
    let now = at(2024, 3, 11, 8, 0, 0);
    assert_eq!(
        TimeRangeOptions::current_week_at(now).unwrap(),
        TimeRangeOptions { start: at(2024, 3, 11, 0, 0, 0), end: now }
    );
    // a Sunday belongs to the week that began six days before
    let now = at(2024, 3, 17, 8, 0, 0);
    assert_eq!(
        TimeRangeOptions::current_week_at(now).unwrap(),
        TimeRangeOptions { start: at(2024, 3, 11, 0, 0, 0), end: now }
    );
}

#[test]
fn test_convert_pace_time_frame_last_week_to_time_range_options_passes() {
    let now = at(2024, 3, 13, 8, 0, 0);
    assert_eq!(
        TimeRangeOptions::from_time_frame_at(PaceTimeFrame::LastWeek, now).unwrap(),
        TimeRangeOptions::last_week_at(now).unwrap()
    );
    assert_eq!(
        TimeRangeOptions::last_week_at(now).unwrap(),
        TimeRangeOptions { start: at(2024, 3, 4, 0, 0, 0), end: at(2024, 3, 10, 23, 59, 59) }
    );
}

#[test]
fn test_convert_pace_time_frame_last_year_to_time_range_options_passes() {
    let now = at(2024, 3, 13, 8, 0, 0);
    assert_eq!(
        TimeRangeOptions::from_time_frame_at(PaceTimeFrame::LastYear, now).unwrap(),
        TimeRangeOptions::last_year_at(now).unwrap()
    );
    assert_eq!(
        TimeRangeOptions::last_year_at(now).unwrap(),
        TimeRangeOptions { start: at(2023, 1, 1, 0, 0, 0), end: at(2023, 12, 31, 23, 59, 59) }
    );
}

#[test]
fn test_convert_pace_time_frame_today_to_time_range_options_passes() {
    let now = at(2024, 3, 13, 8, 0, 0);
    assert_eq!(
        TimeRangeOptions::from_time_frame_at(PaceTimeFrame::Today, now).unwrap(),
        TimeRangeOptions::today_at(now)
    );
    assert_eq!(
        TimeRangeOptions::today_at(now),
        TimeRangeOptions { start: at(2024, 3, 13, 0, 0, 0), end: now }
    );
}

#[test]
fn test_convert_pace_time_frame_yesterday_to_time_range_options_passes() {
    let now = at(2024, 3, 13, 8, 0, 0);
    assert_eq!(
        TimeRangeOptions::from_time_frame_at(PaceTimeFrame::Yesterday, now).unwrap(),
        TimeRangeOptions::yesterday_at(now).unwrap()
    );
    assert_eq!(
        TimeRangeOptions::yesterday_at(now).unwrap(),
        TimeRangeOptions { start: at(2024, 3, 12, 0, 0, 0), end: at(2024, 3, 12, 23, 59, 59) }
    );
}

#[test]
fn test_get_time_frame_from_flags_today_passes() {
    let time_flags = TimeFlags { today: true, ..TimeFlags::default() };
    let date_flags = DateFlags::default();
    let result = get_time_frame_from_flags(&time_flags, &date_flags).unwrap();
    assert_eq!(result, PaceTimeFrame::Today);
}

#[test]
fn time_frame_from_date_flags() {
    let today = date(2024, 3, 13);
    let specific = DateFlags { date: Some(date(2024, 3, 1)), ..DateFlags::default() };
    assert_eq!(
        get_time_frame_from_flags_at(&TimeFlags::default(), &specific, today).unwrap(),
        PaceTimeFrame::SpecificDate(date(2024, 3, 1))
    );
}

#[test]
fn dates_round_trip_through_their_day_numbers() {
    let d = date(2021, 2, 3);
    assert_eq!(d.start_of_day().date(), d);
    assert_eq!(d.end_of_day().date(), d);
    assert_eq!(d.end_of_day().0 - d.start_of_day().0, 86399);
    assert_eq!(at(2021, 2, 3, 12, 34, 56).time(), PaceTime(12 * 3600 + 34 * 60 + 56));
    assert_eq!(PaceDate::parse("2021-02-03").unwrap(), d);
    assert!(PaceDate::parse("2021-02-30").is_err());
    assert!(matches!(
        PaceDate::try_from_ymd(2021, 2, 30),
        Err(TimeErrorKind::InvalidDate { year: 2021, month: 2, day: 30 })
    ));
    assert_eq!(PaceDate::with_start(), date(1970, 1, 1));
}

#[test]
fn test_begin_date_time_new_passes() {
    let time = at(2021, 1, 1, 0, 0, 0).0;
    let result = PaceDateTime::new(time);
    assert_eq!(result, PaceDateTime(time));
}

#[test]
fn test_begin_date_time_naive_date_time_passes() {
    let time = at(2021, 1, 1, 0, 0, 0).0;
    let begin_date_time = PaceDateTime::new(time);

    let result = begin_date_time.naive_date_time();

    assert_eq!(result, time);
}

#[test]
fn test_begin_date_time_default_passes() {
    let result = PaceDateTime::default();

    assert_eq!(result, PaceDateTime::now());
}

#[test]
fn the_clock_gives_last_week_from_monday_to_sunday() {
    let r = TimeRangeOptions::last_week().expect("the clock reads a date of the calendar");
    assert_eq!(r.end.0 - r.start.0, 7 * 86400 - 1);
    assert_eq!(r.start.0.rem_euclid(86400), 0);
    let today = PaceDateTime::now().0.div_euclid(86400);
    let monday = r.start.0.div_euclid(86400);
    assert!(today - monday >= 7 && today - monday <= 14);
    assert_eq!((monday - 1).rem_euclid(7), 0);
}
