use pace_core::activity::{Activity, ActivityKind};
use pace_core::activity_log::ActivityLog;
use pace_core::error::{ActivityLogErrorKind, PaceErrorKind};
use pace_core::filter::ActivityFilterKind;
use pace_core::id::{ActivityGuid, Guid};
use pace_core::intermission::IntermissionAction;
use pace_core::options::{DeleteOptions, EndOptions, HoldOptions, ResumeOptions, UpdateOptions};
use pace_core::status::ActivityStatusKind;
use pace_core::storage::{
    ActivityQuerying, ActivityReadOps, ActivityStateManagement, ActivityWriteOps, InMemoryActivityStorage,
};
use pace_core::time::PaceDateTime;

fn activity(description: &str, begin: PaceDateTime) -> Activity {
    let mut a = Activity::new(description.to_string(), begin);
    a.kind = ActivityKind::Activity;
    a
}

#[test]
fn test_in_memory_activity_storage_passes() {
    let storage = InMemoryActivityStorage::new();

    assert_eq!(storage.get_activity_log().unwrap().len(), 0, "Activity log is not empty.");
}

#[test]
fn test_in_memory_activity_storage_from_activity_log_passes() {
    let activity_log = ActivityLog::new();
    let storage = InMemoryActivityStorage::new_with_activity_log(activity_log);

    assert_eq!(storage.get_activity_log().unwrap().len(), 0, "Activity log is not empty.");
}

#[test]
fn test_create_read_activity_passes() {
    let mut storage = InMemoryActivityStorage::new();
    let begin = PaceDateTime::now();
    let activity = activity("Test activity", begin);

    let item = storage.create_activity(activity.clone()).unwrap();

    assert_eq!(storage.get_activity_log().unwrap().len(), 1, "Activity was not created.");

    let stored_activity = storage.read_activity(item.guid).unwrap();

    assert_eq!(
        activity, stored_activity.activity,
        "Stored activity is not the same as the activity that was stored."
    );
}

#[test]
fn test_list_activities_passes() {
    let mut storage = InMemoryActivityStorage::new();
    let begin = PaceDateTime::now();
    let activity = activity("Test activity", begin);

    let _activity_item = storage.create_activity(activity.clone()).unwrap();

    let filtered_activities = storage
        .list_activities(ActivityFilterKind::Everything)
        .unwrap()
        .unwrap()
        .into_vec();

    assert_eq!(
        filtered_activities.len(),
        1,
        "Amount of activities is not the same as the amount of created activities."
    );

    let stored_activity = storage.read_activity(filtered_activities[0]).unwrap();

    assert_eq!(
        activity, stored_activity.activity,
        "Filtered activities are not the same as the activity that was stored."
    );
}

#[test]
fn test_update_activity_passes() {
    let mut storage = InMemoryActivityStorage::new();
    let begin = PaceDateTime::now();
    let og_activity = activity("Test activity", begin);

    let activity_item = storage.create_activity(og_activity.clone()).unwrap();

    let read_activity = storage.read_activity(activity_item.guid).unwrap();

    assert_eq!(og_activity, read_activity.activity, "Stored activity is not the same as the activity that was stored.");

    let new_description = "Updated description";

    let mut updated_activity = activity(new_description, PaceDateTime(begin.0 + 30));
    updated_activity.kind = ActivityKind::PomodoroWork;
    updated_activity.status = ActivityStatusKind::InProgress;

    let old_activity = storage
        .update_activity(activity_item.guid, updated_activity.clone(), UpdateOptions::default())
        .unwrap();

    assert_eq!(og_activity, old_activity.activity, "Stored activity is not the same as the activity that was stored.");

    let new_stored_activity = storage.read_activity(activity_item.guid).unwrap();

    assert_eq!(old_activity.guid, new_stored_activity.guid, "ID was updated, but shouldn't.");

    assert_eq!(new_stored_activity.activity.description, new_description, "Description was not updated.");

    assert_eq!(old_activity.activity.kind, new_stored_activity.activity.kind, "Kind was updated, but shouldn't.");

    assert_eq!(og_activity.begin, new_stored_activity.activity.begin, "Begin time was updated, but shouldn't.");

    assert!(new_stored_activity.activity.is_in_progress(), "Activity should be active now, but was not updated.");
}

#[test]
fn test_crud_activity_passes() {
    let mut storage = InMemoryActivityStorage::new();
    let begin = PaceDateTime::now();
    let mut activity = activity("Test activity", begin);

    assert_eq!(storage.get_activity_log().unwrap().len(), 0, "Activity log is not empty.");

    let activity_item = storage.begin_activity(activity.clone()).unwrap();

    assert_eq!(storage.get_activity_log().unwrap().len(), 1, "Activity was not created.");

    let stored_activity = storage.read_activity(activity_item.guid).unwrap();

    activity.make_active();

    assert_eq!(activity, stored_activity.activity, "Stored activity is not the same as the activity that was stored.");

    assert_eq!(stored_activity.activity.status, ActivityStatusKind::InProgress, "Activity is not active.");

    let new_description = "Updated description";

    let mut updated_activity = Activity::new(new_description.to_string(), PaceDateTime(begin.0 + 30));
    updated_activity.kind = ActivityKind::PomodoroWork;
    updated_activity.status = ActivityStatusKind::Created;

    let _ = storage
        .update_activity(activity_item.guid, updated_activity.clone(), UpdateOptions::default())
        .unwrap();

    let new_stored_activity = storage.read_activity(activity_item.guid).unwrap();

    assert_eq!(new_stored_activity.activity.description, new_description, "Description was not updated.");

    assert_eq!(stored_activity.activity.kind, new_stored_activity.activity.kind, "Kind was updated, but shouldn't.");

    assert_eq!(stored_activity.activity.begin, new_stored_activity.activity.begin, "Begin time was updated, but shouldn't.");

    assert!(new_stored_activity.activity.is_inactive(), "Activity should be inactive now, but was not updated.");

    let deleted_activity = storage.delete_activity(activity_item.guid, DeleteOptions::default()).unwrap();

    assert_eq!(storage.get_activity_log().unwrap().len(), 0, "Activity was not deleted.");

    assert_eq!(deleted_activity, new_stored_activity, "Deleted activity is not the same as the updated activity.");

    let read_deleted_activity_result = storage.read_activity(activity_item.guid);

    assert!(read_deleted_activity_result.is_err(), "Deleted activity was read.");
}

#[test]
fn test_end_single_activity_passes() {
    let mut storage = InMemoryActivityStorage::new();
    let now = PaceDateTime::now();
    let begin_time = PaceDateTime(now.0 - 30);
    let end_time = PaceDateTime(now.0 + 30);
    let activity = activity("Test activity", begin_time);

    let activity_item = storage.begin_activity_with_id(activity.clone(), now, ActivityGuid::new()).unwrap();

    let ended_activity = storage.end_activity(activity_item.guid, EndOptions::new(end_time)).unwrap();

    assert_ne!(activity_item, ended_activity, "Activities do match, although they should be different.");

    assert!(ended_activity.activity.activity_end_options.is_some());

    let ended_activity = storage.read_activity(activity_item.guid).unwrap();

    assert!(ended_activity.activity.is_completed(), "Activity has not ended, but should have.");

    assert_eq!(ended_activity.activity.activity_end_options.unwrap().end, end_time, "End time was not set.");
    assert_eq!(ended_activity.activity.activity_end_options.unwrap().duration.0, 60);
}

#[test]
fn test_end_last_unfinished_activity_passes() {
    let mut storage = InMemoryActivityStorage::new();
    let now = PaceDateTime::now();
    let begin_time = PaceDateTime(now.0 - 30);
    let activity = activity("Test activity", begin_time);

    let activity_item = storage.begin_activity_with_id(activity.clone(), now, ActivityGuid::new()).unwrap();

    let ended_activity = storage.end_last_unfinished_activity(EndOptions::new(now)).unwrap().unwrap();

    assert_eq!(ended_activity.guid, activity_item.guid, "Activity IDs do not match.");

    assert!(ended_activity.activity.is_completed(), "Activity has not ended, but should have.");

    assert_eq!(ended_activity.activity.activity_end_options.unwrap().end, now, "End time was not set.");
}

#[test]
fn test_begin_and_auto_end_for_multiple_activities_passes() {
    let mut storage = InMemoryActivityStorage::new();
    let now = PaceDateTime::now();
    let begin_time = PaceDateTime(now.0 - 30);
    let activity1 = activity("Test activity", begin_time);

    let activity_item = storage.begin_activity_with_id(activity1.clone(), now, ActivityGuid::new()).unwrap();

    let begin_time = PaceDateTime(now.0 - 60);
    let activity2 = activity("Test activity 2", begin_time);

    let activity_item2 = storage.begin_activity_with_id(activity2.clone(), now, ActivityGuid::new()).unwrap();

    let ended_activity = storage.read_activity(activity_item.guid).unwrap();

    assert!(ended_activity.activity.is_completed(), "Activity has not ended, but should have.");

    assert_eq!(ended_activity.activity.activity_end_options.unwrap().end, now, "End time was not set.");

    let ended_activity2 = storage.read_activity(activity_item2.guid).unwrap();

    assert!(ended_activity2.activity.is_in_progress(), "Activity has not ended, but should have.");

    assert!(ended_activity2.activity.activity_end_options.is_none(), "End time should not be set.");
}

#[test]
fn test_hold_most_recent_active_activity_passes() {
    let mut storage = InMemoryActivityStorage::new();
    let now = PaceDateTime::now();
    let begin_time = PaceDateTime(now.0 - 30);
    let activity = activity("Test activity", begin_time);

    let activity_item = storage.begin_activity_with_id(activity.clone(), now, ActivityGuid::new()).unwrap();

    let hold_time = PaceDateTime(now.0 + 30);

    let hold_opts = HoldOptions::new(IntermissionAction::Extend, hold_time, None);

    let held_activity = storage.hold_most_recent_active_activity(hold_opts).unwrap().unwrap();

    assert_eq!(held_activity.guid, activity_item.guid, "Activity IDs do not match.");

    let intermission_guids = storage
        .list_active_intermissions_for_activity_id(activity_item.guid)
        .unwrap()
        .unwrap();

    assert_eq!(intermission_guids.len(), 1, "Intermission was not created.");

    let intermission_item = storage.read_activity(intermission_guids[0]).unwrap();

    assert_eq!(intermission_item.activity.kind, ActivityKind::Intermission, "Intermission was not created.");

    assert_eq!(
        intermission_item.activity.activity_kind_options.unwrap().parent_id.unwrap(),
        activity_item.guid,
        "Parent ID is not set."
    );
}

#[test]
fn test_hold_last_unfinished_activity_with_existing_intermission_does_nothing_passes() {
    let mut storage = InMemoryActivityStorage::new();
    let now = PaceDateTime::now();
    let begin_time = PaceDateTime(now.0 - 30);
    let activity = activity("Test activity", begin_time);

    let active_activity_item = storage.begin_activity_with_id(activity.clone(), now, ActivityGuid::new()).unwrap();

    let hold_opts = HoldOptions::new(IntermissionAction::Extend, PaceDateTime(now.0 + 30), None);

    let _held_item = storage.hold_most_recent_active_activity(hold_opts).unwrap().unwrap();

    let held_activity = storage.read_activity(active_activity_item.guid).unwrap();

    assert_eq!(held_activity.activity.status, ActivityStatusKind::Paused, "Activity was not held.");

    let intermission_guids = storage
        .list_active_intermissions_for_activity_id(active_activity_item.guid)
        .unwrap();

    assert_eq!(intermission_guids.as_ref().unwrap().len(), 1, "Intermission was not created.");

    let hold_opts = HoldOptions::new(IntermissionAction::Extend, PaceDateTime(now.0 + 60), None);

    assert!(
        storage.hold_most_recent_active_activity(hold_opts).unwrap().is_none(),
        "Activity was held again."
    );

    let intermission_guids = storage
        .list_active_intermissions_for_activity_id(active_activity_item.guid)
        .unwrap()
        .unwrap();

    assert_eq!(intermission_guids.len(), 1, "Intermission was created again.");
}

#[test]
fn test_end_all_active_intermissions_passes() {
    let mut storage = InMemoryActivityStorage::new();
    let now = PaceDateTime::now();
    let begin_time = PaceDateTime(now.0 - 30);
    let end_time = PaceDateTime(now.0 + 60);
    let activity = activity("Test activity", begin_time);

    let active_activity_item = storage.begin_activity_with_id(activity.clone(), now, ActivityGuid::new()).unwrap();

    let hold_opts = HoldOptions::new(IntermissionAction::Extend, PaceDateTime(now.0 + 30), None);

    let _ = storage.hold_most_recent_active_activity(hold_opts).unwrap();

    let intermission_guids = storage
        .list_active_intermissions_for_activity_id(active_activity_item.guid)
        .unwrap();

    assert_eq!(intermission_guids.as_ref().unwrap().len(), 1, "Intermission was not created.");

    let ended_intermissions = storage.end_all_active_intermissions(EndOptions::new(end_time)).unwrap();

    assert_eq!(ended_intermissions.as_ref().unwrap().len(), 1, "Not all intermissions were ended.");

    let ended_intermission = storage.read_activity(intermission_guids.as_ref().unwrap()[0]).unwrap();

    assert!(ended_intermission.activity.activity_end_options.is_some(), "Intermission has not ended, but should have.");

    assert_eq!(ended_intermission.activity.activity_end_options.unwrap().end, end_time, "End time was not set.");
}

#[test]
fn test_important_pace_flow_for_activities_passes() {
    let mut storage = InMemoryActivityStorage::new();

    let first_og_activity = activity("Test activity", PaceDateTime::now());

    let first_begin_activity = storage.begin_activity(first_og_activity.clone()).unwrap();

    let first_stored_activity = storage.read_activity(first_begin_activity.guid).unwrap();

    assert_eq!(first_og_activity.begin, first_stored_activity.activity.begin);
    assert_eq!(first_og_activity.description, first_stored_activity.activity.description);
    assert_eq!(first_og_activity.kind, first_stored_activity.activity.kind);
    assert_ne!(first_og_activity.status, first_stored_activity.activity.status);
    assert!(first_stored_activity.activity.status.is_in_progress(), "Stored activity is not active.");
    assert!(first_og_activity.status.is_created(), "The activity given is not inactive.");

    let second_og_activity = activity("Our new activity", PaceDateTime::now());

    let second_begin_activity = storage.begin_activity(second_og_activity.clone()).unwrap();

    let second_stored_activity = storage.read_activity(second_begin_activity.guid).unwrap();

    let first_stored_activity = storage.read_activity(first_begin_activity.guid).unwrap();

    assert!(first_stored_activity.activity.status.is_completed(), "First activity is not ended.");
    assert_eq!(second_og_activity.begin, second_stored_activity.activity.begin);
    assert_eq!(second_og_activity.description, second_stored_activity.activity.description);
    assert_eq!(second_og_activity.kind, second_stored_activity.activity.kind);
    assert_ne!(second_og_activity.status, second_stored_activity.activity.status);
    assert!(second_stored_activity.activity.status.is_in_progress(), "Stored activity is not active.");
    assert!(second_og_activity.status.is_created(), "The activity given is not inactive.");

    let _ = storage.hold_most_recent_active_activity(HoldOptions::now()).unwrap().unwrap();

    let second_stored_activity = storage.read_activity(second_begin_activity.guid).unwrap();

    assert!(second_stored_activity.activity.status.is_paused(), "Second activity is not held.");

    let second_activity_intermission_id = storage
        .list_active_intermissions_for_activity_id(second_begin_activity.guid)
        .unwrap()
        .unwrap();
    let second_activity_intermission_id = second_activity_intermission_id[0];

    let second_stored_intermission = storage.read_activity(second_activity_intermission_id).unwrap();

    assert_eq!(
        second_stored_intermission.activity.activity_kind_options.unwrap().parent_id.unwrap(),
        second_begin_activity.guid,
        "Parent IDs of intermission and parent activity do not match."
    );

    let resumed_activity = storage.resume_most_recent_activity(ResumeOptions::new(None)).unwrap().unwrap();

    let resumed_stored_activity = storage.read_activity(resumed_activity.guid).unwrap();

    let second_stored_intermission = storage.read_activity(second_activity_intermission_id).unwrap();

    assert!(resumed_stored_activity.activity.status.is_in_progress(), "Resumed activity is not active.");
    assert!(second_stored_intermission.activity.status.is_completed(), "Intermission has not ended.");
    assert!(second_stored_intermission.activity.activity_end_options.is_some(), "Intermission has not ended.");
    assert_eq!(resumed_stored_activity.guid, second_stored_activity.guid);
    assert_eq!(resumed_stored_activity.activity.begin, second_stored_activity.activity.begin);
    assert_eq!(resumed_stored_activity.activity.description, second_stored_activity.activity.description);
    assert_eq!(resumed_stored_activity.activity.kind, second_stored_activity.activity.kind);
    assert!(resumed_stored_activity.activity.activity_end_options.is_none());
}

#[test]
fn creating_under_an_identifier_in_use_is_refused() {
    let mut storage = InMemoryActivityStorage::new();
    let id = ActivityGuid(Guid(7));
    let a = activity("first", PaceDateTime(100));
    storage.create_activity_with_id(id, a.clone()).unwrap();
    let result = storage.create_activity_with_id(id, activity("second", PaceDateTime(200)));
    assert!(matches!(
        result,
        Err(e) if matches!(e.0, PaceErrorKind::ActivityLog(ActivityLogErrorKind::ActivityIdAlreadyInUse(g)) if g == id)
    ));
    assert_eq!(storage.read_activity(id).unwrap().activity, a);
}

#[test]
fn reading_updating_deleting_a_missing_activity_fails() {
    let mut storage = InMemoryActivityStorage::new();
    let id = ActivityGuid(Guid(3));
    let not_found = |e: &pace_core::error::PaceError| {
        matches!(e.0, PaceErrorKind::ActivityLog(ActivityLogErrorKind::ActivityNotFound(g)) if g == id)
    };
    assert!(not_found(&storage.read_activity(id).unwrap_err()));
    assert!(not_found(&storage.update_activity(id, activity("x", PaceDateTime(1)), UpdateOptions::default()).unwrap_err()));
    assert!(not_found(&storage.delete_activity(id, DeleteOptions::default()).unwrap_err()));
    assert!(not_found(&storage.end_activity(id, EndOptions::new(PaceDateTime(5))).unwrap_err()));
}

#[test]
fn ending_before_the_begin_leaves_the_activity_as_it_is() {
    let mut storage = InMemoryActivityStorage::new();
    let id = ActivityGuid(Guid(9));
    let mut a = activity("late", PaceDateTime(1000));
    a.make_active();
    storage.create_activity_with_id(id, a.clone()).unwrap();
    let item = storage.end_activity(id, EndOptions::new(PaceDateTime(999))).unwrap();
    assert_eq!(item.activity, a);
}

#[test]
fn listing_follows_the_order_of_the_identifiers_and_the_most_recent_come_last() {
    let mut storage = InMemoryActivityStorage::new();
    for (bits, begin) in [(30u128, 3i64), (10, 1), (20, 2)] {
        storage.create_activity_with_id(ActivityGuid(Guid(bits)), activity("a", PaceDateTime(begin))).unwrap();
    }
    let ids = storage.list_activities(ActivityFilterKind::Everything).unwrap().unwrap().into_vec();
    assert_eq!(ids, vec![ActivityGuid(Guid(10)), ActivityGuid(Guid(20)), ActivityGuid(Guid(30))]);
    let most_recent = storage.list_most_recent_activities(2).unwrap().unwrap();
    assert_eq!(most_recent, vec![ActivityGuid(Guid(20)), ActivityGuid(Guid(30))]);
    assert_eq!(storage.list_most_recent_activities(5).unwrap().unwrap().len(), 3);
    assert!(storage.list_activities(ActivityFilterKind::Held).unwrap().is_none());
    assert!(InMemoryActivityStorage::new().list_most_recent_activities(2).unwrap().is_none());
}

#[test]
fn resuming_an_activity_that_is_not_held_is_refused() {
    let mut storage = InMemoryActivityStorage::new();
    let id = ActivityGuid(Guid(4));
    let mut a = activity("running", PaceDateTime(10));
    a.make_active();
    storage.create_activity_with_id(id, a).unwrap();
    let result = storage.resume_activity_at(id, ResumeOptions::new(Some(PaceDateTime(20))), PaceDateTime(30));
    let err = result.unwrap_err();
    assert!(matches!(err.0, PaceErrorKind::ActivityLog(ActivityLogErrorKind::NoHeldActivityFound(g)) if g == id));
    assert!(err.possible_new_activity_from_resume());
}

#[test]
fn holding_then_resuming_gives_the_activity_back() {
    let mut storage = InMemoryActivityStorage::new();
    let id = ActivityGuid(Guid(50));
    let pause = ActivityGuid(Guid(60));
    let mut a = activity("work", PaceDateTime(100));
    a.make_active();
    storage.create_activity_with_id(id, a.clone()).unwrap();
    let held = storage
        .hold_activity_with_id(id, HoldOptions::new(IntermissionAction::New, PaceDateTime(200), Some("tea".to_string())), pause)
        .unwrap();
    assert_eq!(held.activity.status, ActivityStatusKind::Paused);
    let intermission = storage.read_activity(pause).unwrap().activity;
    assert_eq!(intermission.description, "tea");
    assert_eq!(intermission.begin, PaceDateTime(200));
    assert!(storage.is_activity_active(id).is_ok_and(|b| !b));
    let before = storage.resume_activity_at(id, ResumeOptions::new(Some(PaceDateTime(260))), PaceDateTime(300)).unwrap();
    assert_eq!(before.activity.status, ActivityStatusKind::Paused);
    assert_eq!(storage.read_activity(id).unwrap().activity, a);
    let ended = storage.read_activity(pause).unwrap().activity;
    assert_eq!(ended.activity_end_options.unwrap().end, PaceDateTime(260));
    assert_eq!(ended.activity_end_options.unwrap().duration.0, 60);
    assert_eq!(ended.status, ActivityStatusKind::Completed);
}

#[test]
fn holding_a_held_activity_is_refused() {
    let mut storage = InMemoryActivityStorage::new();
    let id = ActivityGuid(Guid(50));
    let mut a = activity("work", PaceDateTime(100));
    a.make_active();
    storage.create_activity_with_id(id, a).unwrap();
    storage
        .hold_activity_with_id(id, HoldOptions::new(IntermissionAction::New, PaceDateTime(200), None), ActivityGuid(Guid(60)))
        .unwrap();
    // the held activity is no longer running: a second hold is refused
    let second = storage.hold_activity_with_id(id, HoldOptions::new(IntermissionAction::Extend, PaceDateTime(220), None), ActivityGuid(Guid(70)));
    assert!(matches!(second, Err(e) if matches!(e.0, PaceErrorKind::ActivityLog(ActivityLogErrorKind::NoActiveActivityFound(g)) if g == id)));
    assert!(storage.read_activity(ActivityGuid(Guid(70))).is_err());
}

#[test]
fn holding_with_a_running_intermission_and_extend_changes_nothing() {
    let mut storage = InMemoryActivityStorage::new();
    let id = ActivityGuid(Guid(50));
    let mut a = activity("work", PaceDateTime(100));
    a.make_active();
    storage.create_activity_with_id(id, a.clone()).unwrap();
    let mut pause = activity("break", PaceDateTime(150));
    pause.kind = ActivityKind::Intermission;
    pause.activity_kind_options = Some(pace_core::activity::ActivityKindOptions::with_parent_id(id));
    pause.make_active();
    storage.create_activity_with_id(ActivityGuid(Guid(60)), pause).unwrap();
    let item = storage
        .hold_activity_with_id(id, HoldOptions::new(IntermissionAction::Extend, PaceDateTime(200), None), ActivityGuid(Guid(70)))
        .unwrap();
    assert_eq!(item.activity, a);
    assert_eq!(storage.get_activity_log().unwrap().len(), 2);
    assert!(storage.read_activity(ActivityGuid(Guid(70))).is_err());
}

#[test]
fn identifier_text_reads_back_as_the_identifier() {
    for g in [Guid(0), Guid(u128::MAX), Guid(0x4d4e385051444a59454234335a413756), Guid::new()] {
        let text = g.to_text();
        assert_eq!(text.chars().count(), 26);
        assert_eq!(Guid::parse(&text), Some(g));
    }
    assert_eq!(Guid::parse("2D9RW50MA499CMAGHM6DD42DTP"), Some(Guid(0x4d4e385051444a59454234335a413756)));
    assert_eq!(Guid::parse("not an identifier"), None);
}

#[test]
fn ending_twice_at_the_same_time_is_ending_once() {
    let mut storage = InMemoryActivityStorage::new();
    let id = ActivityGuid(Guid(11));
    let mut a = activity("work", PaceDateTime(100));
    a.make_active();
    storage.create_activity_with_id(id, a).unwrap();
    let once = storage.end_activity(id, EndOptions::new(PaceDateTime(160))).unwrap();
    let twice = storage.end_activity(id, EndOptions::new(PaceDateTime(160))).unwrap();
    assert_eq!(once, twice);
}

#[test]
fn of_two_updates_the_last_one_wins() {
    let mut storage = InMemoryActivityStorage::new();
    let id = ActivityGuid(Guid(21));
    storage.create_activity_with_id(id, activity("first", PaceDateTime(10))).unwrap();
    let mut u1 = activity("second", PaceDateTime(20));
    u1.category = Some("A".to_string());
    let u2 = activity("third", PaceDateTime(30));
    storage.update_activity(id, u1, UpdateOptions::default()).unwrap();
    storage.update_activity(id, u2, UpdateOptions::default()).unwrap();
    let stored = storage.read_activity(id).unwrap().activity;
    assert_eq!(stored.description, "third");
    assert_eq!(stored.category, None);
    assert_eq!(stored.begin, PaceDateTime(10));
}

#[test]
fn the_most_recent_activity_has_the_greatest_identifier() {
    let mut storage = InMemoryActivityStorage::new();
    for bits in [10u128, 30, 20] {
        let mut a = activity("running", PaceDateTime(bits as i64));
        a.make_active();
        storage.create_activity_with_id(ActivityGuid(Guid(bits)), a).unwrap();
    }
    let latest = storage.most_recent_active_activity().unwrap().unwrap();
    assert_eq!(latest.guid, ActivityGuid(Guid(30)));
    assert!(storage.most_recent_held_activity().unwrap().is_none());
    let mut held = activity("held", PaceDateTime(5));
    held.status = ActivityStatusKind::Paused;
    storage.create_activity_with_id(ActivityGuid(Guid(5)), held.clone()).unwrap();
    storage.create_activity_with_id(ActivityGuid(Guid(7)), held).unwrap();
    assert_eq!(storage.most_recent_held_activity().unwrap().unwrap().guid, ActivityGuid(Guid(7)));
}

#[test]
fn a_running_break_is_no_activity_in_progress() {
    let mut pause = activity("pause", PaceDateTime(1));
    pause.kind = ActivityKind::Intermission;
    pause.make_active();
    assert!(!pause.is_in_progress());
    assert!(pause.is_active_intermission());
    let mut work = activity("work", PaceDateTime(1));
    work.make_active();
    assert!(work.is_in_progress());
}

#[test]
fn identifiers_read_in_crockford_base32() {
    assert_eq!(Guid(0).to_text(), "00000000000000000000000000");
    assert_eq!(Guid(31).to_text(), "0000000000000000000000000Z");
    assert_eq!(Guid(32 + 10).to_text(), "0000000000000000000000001A");
    assert_eq!(Guid(u128::MAX).to_text(), "7ZZZZZZZZZZZZZZZZZZZZZZZZZ");
}
