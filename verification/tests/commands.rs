use pace_core::activity::{Activity, ActivityKind};
use pace_core::commands::{
    AdjustCommandOptions, BeginCommandOptions, DocsCommandOptions, EndCommandOptions,
    HoldCommandOptions, NowCommandOptions, ResumeCommandOptions, SettingsCommandOptions,
};
use pace_core::config::PaceConfig;
use pace_core::constants::{PACE_CONFIG_DOCS_URL, PACE_DEV_DOCS_URL, PACE_DOCS_URL};
use pace_core::error::{ActivityLogErrorKind, PaceErrorKind, TimeErrorKind};
use pace_core::id::{ActivityGuid, Guid};
use pace_core::status::ActivityStatusKind;
use pace_core::storage::{
    ActivityQuerying, ActivityReadOps, ActivityStateManagement, ActivityWriteOps, InMemoryActivityStorage,
};
use pace_core::time::{PaceDate, PaceDateTime, PaceTime};

fn at(hour: u32, minute: u32) -> PaceDateTime {
    PaceDate::try_from_ymd(2024, 3, 13).unwrap().and_time(PaceTime::from_hms(hour, minute, 0).unwrap())
}

#[test]
fn docs_open_the_user_documentation_by_default() {
    let (url, msg) = DocsCommandOptions { dev: false, config: false }.documentation();
    assert_eq!(url, PACE_DOCS_URL);
    assert_eq!(msg, format!("Opening the user documentation at {PACE_DOCS_URL}"));
    let (url, msg) = DocsCommandOptions { dev: false, config: true }.documentation();
    assert_eq!(url, PACE_CONFIG_DOCS_URL);
    assert_eq!(msg, format!("Opening the configuration documentation at {PACE_CONFIG_DOCS_URL}"));
    let (url, msg) = DocsCommandOptions { dev: true, config: false }.documentation();
    assert_eq!(url, PACE_DEV_DOCS_URL);
    assert_eq!(msg, format!("Opening the development documentation at {PACE_DEV_DOCS_URL}"));
}

fn begin(storage: &mut InMemoryActivityStorage, description: &str, at_text: Option<&str>, now: PaceDateTime, id: u128) -> pace_core::activity::ActivityItem {
    BeginCommandOptions {
        category: Some("Work".to_string()),
        at: at_text.map(|t| t.to_string()),
        description: description.to_string(),
        tags: Some(vec!["a".to_string(), "b".to_string(), "a".to_string()]),
    }
    .handle_begin_at(storage, now, ActivityGuid(Guid(id)))
    .unwrap()
}

#[test]
fn begin_starts_an_activity_and_ends_the_one_before() {
    let mut storage = InMemoryActivityStorage::new();
    let first = begin(&mut storage, "first", Some("09:00"), at(10, 0), 1);
    assert_eq!(first.activity.begin, at(9, 0));
    assert_eq!(first.activity.status, ActivityStatusKind::InProgress);
    assert_eq!(first.activity.category, Some("Work".to_string()));
    let mut tags = first.activity.tags.clone().unwrap();
    tags.sort();
    assert_eq!(tags, vec!["a".to_string(), "b".to_string()]);
    let second = begin(&mut storage, "second", None, at(11, 0), 2);
    assert_eq!(second.activity.begin, at(11, 0));
    let first_now = storage.read_activity(first.guid).unwrap().activity;
    assert_eq!(first_now.status, ActivityStatusKind::Completed);
    assert_eq!(first_now.activity_end_options.unwrap().end, at(11, 0));
    assert_eq!(first_now.activity_end_options.unwrap().duration.0, 7200);
    let now = NowCommandOptions {}.current_activities(&storage).unwrap().unwrap();
    assert_eq!(now.len(), 1);
    assert_eq!(now[0].guid, second.guid);
}

#[test]
fn begin_refuses_times_in_the_future_and_text_that_is_no_time() {
    let mut storage = InMemoryActivityStorage::new();
    let opts = BeginCommandOptions {
        category: None,
        at: Some("12:00".to_string()),
        description: "x".to_string(),
        tags: None,
    };
    let r = opts.handle_begin_at(&mut storage, at(10, 0), ActivityGuid(Guid(1)));
    assert!(matches!(r, Err(e) if matches!(e.0, PaceErrorKind::Time(TimeErrorKind::StartTimeInFuture(t)) if t == at(12, 0))));
    let opts = BeginCommandOptions { at: Some("late".to_string()), ..opts };
    assert!(matches!(opts.handle_begin_at(&mut storage, at(10, 0), ActivityGuid(Guid(1))), Err(e) if matches!(e.0, PaceErrorKind::ChronoParse(_))));
    assert_eq!(storage.get_activity_log().unwrap().len(), 0);
    assert!(NowCommandOptions {}.current_activities(&storage).unwrap().is_none());
}

#[test]
fn end_ends_everything_that_runs() {
    let mut storage = InMemoryActivityStorage::new();
    let first = begin(&mut storage, "first", Some("09:00"), at(10, 0), 1);
    let ended = EndCommandOptions { at: Some("10:30".to_string()) }.handle_end_at(&mut storage, at(11, 0)).unwrap().unwrap();
    assert_eq!(ended.len(), 1);
    assert_eq!(ended[0].guid, first.guid);
    assert_eq!(ended[0].activity.activity_end_options.unwrap().end, at(10, 30));
    assert!(EndCommandOptions { at: None }.handle_end_at(&mut storage, at(11, 0)).unwrap().is_none());
    let bad = EndCommandOptions { at: Some("x".to_string()) }.handle_end_at(&mut storage, at(11, 0));
    assert!(matches!(bad, Err(e) if matches!(e.0, PaceErrorKind::Time(TimeErrorKind::ParsingTimeFromUserInputFailed(_)))));
}

#[test]
fn hold_pauses_the_running_activity() {
    let mut storage = InMemoryActivityStorage::new();
    let first = begin(&mut storage, "first", Some("09:00"), at(10, 0), 1);
    let held = HoldCommandOptions { pause_at: Some("09:30".to_string()), reason: Some("lunch".to_string()), new_if_exists: false }
        .handle_hold_at(&mut storage, at(10, 0))
        .unwrap()
        .unwrap();
    assert_eq!(held.guid, first.guid);
    assert_eq!(held.activity.status, ActivityStatusKind::Paused);
    let pauses = storage.list_active_intermissions_for_activity_id(first.guid).unwrap().unwrap();
    let pause = storage.read_activity(pauses[0]).unwrap().activity;
    assert_eq!(pause.kind, ActivityKind::Intermission);
    assert_eq!(pause.description, "lunch");
    assert_eq!(pause.begin, at(9, 30));
    let again = HoldCommandOptions { pause_at: None, reason: None, new_if_exists: false }.handle_hold_at(&mut storage, at(10, 0));
    assert!(again.unwrap().is_none());
}

#[test]
fn adjust_changes_the_running_activity() {
    let mut storage = InMemoryActivityStorage::new();
    let first = begin(&mut storage, "first", Some("09:00"), at(10, 0), 1);
    let opts = AdjustCommandOptions {
        category: Some("Home".to_string()),
        description: None,
        start: None,
        tags: Some(vec!["c".to_string()]),
        override_tags: false,
    };
    let (before, changed) = opts.handle_adjust_at(&mut storage, at(10, 0)).unwrap();
    assert!(changed);
    assert_eq!(before.activity.category, Some("Work".to_string()));
    let now = storage.read_activity(first.guid).unwrap().activity;
    assert_eq!(now.category, Some("Home".to_string()));
    let mut tags = now.tags.clone().unwrap();
    tags.sort();
    assert_eq!(tags, vec!["a".to_string(), "b".to_string(), "c".to_string()]);
    let (_, changed) = opts.handle_adjust_at(&mut storage, at(10, 0)).unwrap();
    assert!(!changed);
    let replace = AdjustCommandOptions { category: None, description: None, start: None, tags: Some(vec!["z".to_string()]), override_tags: true };
    replace.handle_adjust_at(&mut storage, at(10, 0)).unwrap();
    assert_eq!(storage.read_activity(first.guid).unwrap().activity.tags, Some(vec!["z".to_string()]));
}

#[test]
fn adjusting_the_begin_stores_the_new_begin() {
    let mut storage = InMemoryActivityStorage::new();
    let first = begin(&mut storage, "first", Some("09:00"), at(10, 0), 1);
    let opts = AdjustCommandOptions { category: None, description: None, start: Some("08:00".to_string()), tags: None, override_tags: false };
    let (_, changed) = opts.handle_adjust_at(&mut storage, at(10, 0)).unwrap();
    assert!(changed);
    assert_eq!(storage.read_activity(first.guid).unwrap().activity.begin, at(8, 0));
}

#[test]
fn adjust_without_a_running_activity_is_an_error() {
    let mut storage = InMemoryActivityStorage::new();
    let mut a = Activity::new("done".to_string(), at(8, 0));
    a.status = ActivityStatusKind::Completed;
    storage.create_activity_with_id(ActivityGuid(Guid(5)), a).unwrap();
    let opts = AdjustCommandOptions { category: None, description: Some("x".to_string()), start: None, tags: None, override_tags: false };
    let r = opts.handle_adjust_at(&mut storage, at(10, 0));
    assert!(matches!(r, Err(e) if matches!(e.0, PaceErrorKind::ActivityLog(ActivityLogErrorKind::NoActiveActivityToAdjust))));
}

#[test]
fn resume_at_a_time_of_today() {
    let now = at(15, 30);
    let opts = ResumeCommandOptions { at: Some(PaceTime::from_hms(14, 0, 0).unwrap()), list: false };
    assert_eq!(opts.resume_options_at(now).resume_time, Some(at(14, 0)));
    let opts = ResumeCommandOptions { at: None, list: true };
    assert_eq!(opts.resume_options_at(now).resume_time, None);
}

#[test]
fn settings_are_not_offered_yet() {
    let answer = SettingsCommandOptions {}.handle_settings(&PaceConfig::default()).unwrap();
    assert_eq!(answer.msg, "Not implemented yet!");
}
