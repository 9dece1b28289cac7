use pace_core::activity::{Activity, ActivityEndOptions, ActivityItem, ActivityKind, ActivityKindOptions};
use pace_core::duration::PaceDuration;
use pace_core::error::PaceErrorKind;
use pace_core::filter::{activity_passes, ActivityFilterKind, FilteredActivities};
use pace_core::formats::{ItemPriorityKind, ReflectionsFormatKind, ReviewFormatKind};
use pace_core::id::{ActivityGuid, Guid};
use pace_core::intermission::IntermissionAction;
use pace_core::status::ActivityStatusKind;
use pace_core::time::{PaceDateTime, TimeRangeOptions};

#[test]
fn kinds_have_names_and_symbols() {
    for kind in [
        ActivityKind::Activity,
        ActivityKind::Task,
        ActivityKind::Intermission,
        ActivityKind::PomodoroWork,
        ActivityKind::PomodoroIntermission,
    ] {
        assert_eq!(ActivityKind::parse(kind.as_str()), Some(kind));
    }
    assert_eq!(ActivityKind::PomodoroWork.as_str(), "pomodoro-work");
    assert_eq!(ActivityKind::Activity.as_symbol(), "📆");
    assert_eq!(ActivityKind::Intermission.as_symbol(), "⏸️");
    assert_eq!(ActivityKind::parse("meeting"), None);
    assert!(ActivityKind::Task.is_task());
    assert!(ActivityKind::PomodoroWork.is_pomodoro_work());
    assert!(!ActivityKind::Task.is_activity());
    assert_eq!(ActivityKind::default_kind(), ActivityKind::Activity);
}

#[test]
fn statuses_have_names() {
    for status in [
        ActivityStatusKind::Created,
        ActivityStatusKind::Scheduled,
        ActivityStatusKind::InProgress,
        ActivityStatusKind::Paused,
        ActivityStatusKind::Completed,
        ActivityStatusKind::Archived,
        ActivityStatusKind::Unarchived,
    ] {
        assert_eq!(ActivityStatusKind::parse(status.as_str()), Some(status));
    }
    assert_eq!(ActivityStatusKind::InProgress.as_str(), "in-progress");
    assert_eq!(ActivityStatusKind::parse("done"), None);
    assert!(ActivityStatusKind::Unarchived.is_unarchived());
    assert_eq!(ActivityStatusKind::default_status(), ActivityStatusKind::Created);
}

#[test]
fn archiving_needs_a_completed_activity() {
    let mut a = Activity::new("x".to_string(), PaceDateTime(0));
    a.archive();
    assert_eq!(a.status, ActivityStatusKind::Created);
    a.end_activity(ActivityEndOptions::new(PaceDateTime(10), PaceDuration(10)));
    assert_eq!(a.status, ActivityStatusKind::Completed);
    a.archive();
    assert_eq!(a.status, ActivityStatusKind::Archived);
    assert!(a.is_archived());
    assert!(a.is_resumable());
    a.unarchive();
    assert_eq!(a.status, ActivityStatusKind::Unarchived);
    a.unarchive();
    assert_eq!(a.status, ActivityStatusKind::Unarchived);
    // an activity that has ended does not run again by being made active
    a.make_active();
    assert!(!a.is_completable());
    let mut b = Activity::new("y".to_string(), PaceDateTime(0));
    b.make_active();
    assert!(b.is_completable());
    b.make_inactive();
    assert!(b.is_inactive());
}

#[test]
fn ending_with_a_calculated_duration() {
    let mut a = Activity::new("x".to_string(), PaceDateTime(100));
    assert!(matches!(
        a.end_activity_with_duration_calc(PaceDateTime(100), PaceDateTime(50)),
        Err(e) if matches!(e.0, PaceErrorKind::ChronoDurationIsNegative)
    ));
    assert!(a.activity_end_options.is_none());
    a.end_activity_with_duration_calc(PaceDateTime(100), PaceDateTime(175)).unwrap();
    assert_eq!(a.activity_end_options.unwrap().as_tuple(), (PaceDateTime(175), PaceDuration(75)));
    assert_eq!(a.duration().unwrap(), PaceDuration(75));
    assert_eq!(a.duration_or_zero(), PaceDuration(75));
    assert!(Activity::new("y".to_string(), PaceDateTime(0)).duration().is_err());
}

#[test]
fn resuming_from_an_activity_starts_afresh() {
    let mut a = Activity::new("x".to_string(), PaceDateTime(100));
    a.category = Some("Work".to_string());
    a.tags = Some(vec!["t".to_string()]);
    a.end_activity(ActivityEndOptions::new(PaceDateTime(200), PaceDuration(100)));
    let b = a.new_from_self_at(PaceDateTime(300));
    assert_eq!(b.begin, PaceDateTime(300));
    assert_eq!(b.category, a.category);
    assert_eq!(b.tags, a.tags);
    assert_eq!(b.description, a.description);
    assert!(b.activity_end_options.is_none());
    assert_eq!(b.status, ActivityStatusKind::Created);
    let c = a.new_from_self();
    assert!(c.activity_end_options.is_none());
}

#[test]
fn intermissions_know_their_parent() {
    let parent = ActivityGuid(Guid(5));
    let mut a = Activity::new("pause".to_string(), PaceDateTime(0));
    a.kind = ActivityKind::Intermission;
    a.activity_kind_options = Some(ActivityKindOptions::with_parent_id(parent));
    a.make_active();
    assert_eq!(a.parent_id(), Some(parent));
    assert!(a.is_active_intermission());
    assert!(activity_passes(ActivityFilterKind::ActiveIntermission, &a));
    assert!(activity_passes(ActivityFilterKind::Intermission, &a));
    assert!(!activity_passes(ActivityFilterKind::OnlyActivities, &a));
    let range = TimeRangeOptions { start: PaceDateTime(0), end: PaceDateTime(5) };
    assert!(activity_passes(ActivityFilterKind::TimeRange(range), &a));
}

#[test]
fn filtered_activities_keep_their_identifiers() {
    let ids = vec![ActivityGuid(Guid(1)), ActivityGuid(Guid(2))];
    let tagged = FilteredActivities::tag(ActivityFilterKind::Held, ids.clone());
    assert!(matches!(tagged, FilteredActivities::Held(_)));
    assert_eq!(tagged.into_vec(), ids);
}

#[test]
fn items_split_into_their_parts() {
    let a = Activity::new("x".to_string(), PaceDateTime(0));
    let item = ActivityItem::new(ActivityGuid(Guid(3)), a.clone());
    let (guid, activity) = item.into_parts();
    assert_eq!(guid, ActivityGuid(Guid(3)));
    assert_eq!(activity, a);
}

#[test]
fn intermission_actions_and_defaults() {
    assert_eq!(IntermissionAction::from(true), IntermissionAction::New);
    assert_eq!(IntermissionAction::from(false), IntermissionAction::Extend);
    assert!(IntermissionAction::New.is_new());
    assert!(IntermissionAction::default_action().is_extend());
    assert_eq!(ItemPriorityKind::default(), ItemPriorityKind::Medium);
    assert_eq!(ReviewFormatKind::default(), ReviewFormatKind::Console);
    assert_eq!(ReflectionsFormatKind::default(), ReflectionsFormatKind::Console);
}

#[test]
fn an_activity_reads_in_one_line() {
    let mut a = Activity::new("Write the report".to_string(), PaceDateTime(1_000_000));
    let now = PaceDateTime(1_000_000 + 2 * 3600);
    assert_eq!(a.text_at(now, "+01:00"), "📆  Activity: \"Write the report\" (Uncategorized) started 2 hours ago in UTC+01:00");
    a.category = Some("Work".to_string());
    assert_eq!(a.text_at(now, ""), "📆  Activity: \"Write the report\" (Work) started 2 hours ago in UTC");
    assert!(a.text().starts_with("📆  Activity: \"Write the report\" (Work) started "));
}
