use std::time::Duration;

use pace_core::duration::PaceDuration;

#[test]
fn test_pace_duration_from_duration_passes() {
    let duration = Duration::from_secs(1);
    let result = PaceDuration::from(duration);
    assert_eq!(result, PaceDuration(1));
}

#[test]
fn test_pace_duration_default_passes() {
    let result = PaceDuration::default();

    assert_eq!(result, PaceDuration(0));
}

#[test]
fn test_pace_duration_zero_passes() {
    let result = PaceDuration::zero();

    assert_eq!(result, PaceDuration(0));
}

#[test]
fn test_pace_duration_add_assign_passes() {
    let mut duration = PaceDuration(1);
    duration += PaceDuration(1);

    assert_eq!(duration, PaceDuration(2));
}

#[test]
fn test_pace_duration_sub_passes() {
    let duration = PaceDuration(2) - PaceDuration(1);

    assert_eq!(duration, PaceDuration(1));
}

#[test]
fn test_pace_duration_sub_assign_passes() {
    let mut duration = PaceDuration(2);
    duration -= PaceDuration(1);

    assert_eq!(duration, PaceDuration(1));
}

#[test]
fn test_pace_duration_sub_assign_with_u64_passes() {
    let mut duration = PaceDuration(2);
    duration -= 1;

    assert_eq!(duration, PaceDuration(1));
}

#[test]
fn test_pace_duration_sub_assign_below_zero_passes() {
    let mut duration = PaceDuration(2);
    duration -= PaceDuration(3);

    assert_eq!(duration, PaceDuration(0));
}

#[test]
fn test_pace_duration_add_passes() {
    let duration = PaceDuration(1) + PaceDuration(1);

    assert_eq!(duration, PaceDuration(2));
}

#[test]
fn test_pace_duration_from_str_passes() {
    let duration = "1".parse::<PaceDuration>().unwrap();

    assert_eq!(duration, PaceDuration(1));
}

#[test]
fn test_pace_duration_from_str_fails() {
    let duration = "a".parse::<PaceDuration>();

    assert!(duration.is_err());
}

#[test]
fn test_template_filter_human_duration_passes() {
    let print_duration = PaceDuration(31_651_469).human_readable();

    assert_eq!(print_duration, "1year 1day 2h 4m 29s");
}

#[test]
fn duration_parse_accepts_plus_sign_and_rejects_overflow() {
    assert_eq!(PaceDuration::parse("+42").unwrap(), PaceDuration(42));
    assert_eq!(
        PaceDuration::parse("18446744073709551615").unwrap(),
        PaceDuration(u64::MAX)
    );
    assert!(PaceDuration::parse("18446744073709551616").is_err());
    assert!(PaceDuration::parse("").is_err());
    assert!(PaceDuration::parse("+").is_err());
    assert!(PaceDuration::parse("-1").is_err());
    assert!(PaceDuration::parse("1 ").is_err());
}

#[test]
fn duration_as_duration_keeps_seconds() {
    assert_eq!(PaceDuration(90).as_duration(), Duration::from_secs(90));
    assert_eq!(PaceDuration::from_seconds(7).as_secs(), 7);
    assert!(PaceDuration(0).is_zero());
    assert!(!PaceDuration(3).is_zero());
}

#[test]
fn duration_add_then_sub_gives_back_the_first() {
    let a = PaceDuration(40);
    let b = PaceDuration(2);
    assert_eq!((a + b) - b, a);
    assert_eq!(a - a, PaceDuration(0));
    assert_eq!(b - a, PaceDuration(0));
    assert_eq!(a.saturating_sub(b), PaceDuration(38));
}

#[test]
fn duration_add_assign_wraps_beyond_the_largest_value() {
    let mut d = PaceDuration(u64::MAX);
    d += 2u64;
    assert_eq!(d, PaceDuration(1));
    let mut e = PaceDuration(0);
    e -= 1u64;
    assert_eq!(e, PaceDuration(u64::MAX));
}

#[test]
fn test_pace_duration_from_chrono_duration_passes() {
    let duration = chrono::TimeDelta::try_seconds(1).expect("Invalid time delta.");
    let result = PaceDuration::try_from(duration).unwrap();
    assert_eq!(result, PaceDuration(1));
}

#[test]
fn a_negative_time_delta_is_no_duration() {
    let duration = chrono::TimeDelta::try_seconds(-5).expect("Invalid time delta.");
    match PaceDuration::from_time_delta(&duration) {
        Err(pace_core::error::TimeErrorKind::ParsingDurationFailed(text)) => {
            assert_eq!(text, duration.to_string())
        },
        other => panic!("expected an error, got {other:?}"),
    }
}
