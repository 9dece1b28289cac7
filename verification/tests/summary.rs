use pace_core::activity::{Activity, ActivityEndOptions, ActivityItem, ActivityKind, ActivityKindOptions};
use pace_core::duration::PaceDuration;
use pace_core::id::{ActivityGuid, Guid};
use pace_core::review;
use pace_core::status::ActivityStatusKind;
use pace_core::storage::{
    ActivityQuerying, ActivityReadOps, ActivityStateManagement, ActivityWriteOps, InMemoryActivityStorage,
};
use pace_core::store::{ActivityStore, ActivityTracker};
use pace_core::summary::{
    ActivityGroup, ActivitySession, ReflectionSummary, SummaryActivityGroup, SummaryGroupByCategory,
};
use pace_core::commands::{ReflectCommandOptions, ReviewCommandOptions};
use tabled::builder::Builder;
use tabled::settings::object::Columns;
use tabled::settings::{Alignment, Modify, Padding, Panel, Settings, Style};
use pace_core::options::FilterOptions;
use pace_core::time::{DateFlags, PaceDate, PaceDateTime, PaceTimeFrame, TimeRangeOptions};

fn ended(description: &str, category: Option<&str>, begin: i64, secs: u64) -> Activity {
    let mut a = Activity::new(description.to_string(), PaceDateTime(begin));
    a.category = category.map(|c| c.to_string());
    a.activity_end_options = Some(ActivityEndOptions::new(PaceDateTime(begin + secs as i64), PaceDuration(secs)));
    a.status = ActivityStatusKind::Completed;
    a
}

fn pause_of(parent: ActivityGuid, begin: i64, secs: u64) -> Activity {
    let mut a = ended("pause", None, begin, secs);
    a.kind = ActivityKind::Intermission;
    a.activity_kind_options = Some(ActivityKindOptions::with_parent_id(parent));
    a
}

fn item(bits: u128, a: Activity) -> ActivityItem {
    ActivityItem::new(ActivityGuid(Guid(bits)), a)
}

#[test]
fn a_session_takes_its_intermissions_off() {
    let mut session = ActivitySession::new(item(1, ended("code", None, 0, 600)));
    assert_eq!(session.description, "code");
    assert_eq!(session.adjusted_duration, PaceDuration(600));
    session.add_multiple_intermissions(vec![
        item(2, pause_of(ActivityGuid(Guid(1)), 100, 60)),
        item(3, pause_of(ActivityGuid(Guid(1)), 300, 40)),
    ]);
    assert_eq!(session.adjusted_duration, PaceDuration(500));
    assert_eq!(session.intermission_duration, PaceDuration(100));
    assert_eq!(session.intermissions.len(), 2);
    session.add_intermission(item(4, pause_of(ActivityGuid(Guid(1)), 400, 900)));
    assert_eq!(session.adjusted_duration, PaceDuration(0));
    assert_eq!(session.intermission_duration, PaceDuration(1000));
}

#[test]
fn an_unfinished_activity_counts_no_time() {
    let session = ActivitySession::new(item(1, Activity::new("open".to_string(), PaceDateTime(5))));
    assert_eq!(session.adjusted_duration, PaceDuration(0));
}

#[test]
fn groups_add_up_their_sessions() {
    let mut s1 = ActivitySession::new(item(1, ended("code", None, 0, 600)));
    s1.add_intermission(item(2, pause_of(ActivityGuid(Guid(1)), 100, 60)));
    let s2 = ActivitySession::new(item(3, ended("code", None, 1000, 300)));
    let single = ActivityGroup::with_session(&s1);
    assert_eq!(single.adjusted_duration, PaceDuration(540));
    assert_eq!(single.intermission_count, 1);
    assert_eq!(single.intermission_duration, PaceDuration(60));
    assert!(single.activity_sessions.is_empty());
    let group = ActivityGroup::with_multiple_sessions("code".to_string(), vec![s1, s2]);
    assert_eq!(group.adjusted_duration, PaceDuration(840));
    assert_eq!(group.intermission_duration, PaceDuration(60));
    assert_eq!(group.intermission_count, 1);
    assert_eq!(group.activity_sessions.len(), 2);
}

#[test]
fn adding_a_session_takes_its_duration_off_the_group() {
    let s1 = ActivitySession::new(item(1, ended("code", None, 0, 600)));
    let mut group = ActivityGroup::with_session(&s1);
    let mut s2 = ActivitySession::new(item(3, ended("code", None, 1000, 200)));
    s2.add_intermission(item(4, pause_of(ActivityGuid(Guid(3)), 1100, 50)));
    group.add_session(s2);
    assert_eq!(group.adjusted_duration, PaceDuration(450));
    assert_eq!(group.intermission_duration, PaceDuration(50));
    assert_eq!(group.intermission_count, 0);
    assert_eq!(group.activity_sessions.len(), 1);
}

#[test]
fn summary_groups_keep_one_group_per_description() {
    let g1 = ActivityGroup::with_session(&ActivitySession::new(item(1, ended("code", None, 0, 600))));
    let g2 = ActivityGroup::with_session(&ActivitySession::new(item(2, ended("code", None, 700, 100))));
    let g3 = ActivityGroup::with_session(&ActivitySession::new(item(3, ended("mail", None, 900, 50))));
    let mut summary = SummaryActivityGroup::with_activity_group(g1);
    summary.add_activity_group(g2);
    summary.add_activity_group(g3);
    assert_eq!(summary.total_duration, PaceDuration(750));
    assert_eq!(summary.len(), 2);
    assert!(!summary.is_empty());
}

#[test]
fn a_reflection_adds_up_its_categories() {
    let mut groups = SummaryGroupByCategory::new();
    assert!(groups.is_empty());
    let mut s = ActivitySession::new(item(1, ended("code", None, 0, 600)));
    s.add_intermission(item(2, pause_of(ActivityGuid(Guid(1)), 10, 100)));
    groups.add("Work".to_string(), "Rust".to_string(), ActivityGroup::with_session(&s));
    groups.add(
        "Home".to_string(),
        String::new(),
        ActivityGroup::with_session(&ActivitySession::new(item(3, ended("cook", None, 0, 300)))),
    );
    groups.add(
        "Work".to_string(),
        "Rust".to_string(),
        ActivityGroup::with_session(&ActivitySession::new(item(4, ended("review", None, 0, 200)))),
    );
    assert_eq!(groups.len(), 2);
    let range = TimeRangeOptions { start: PaceDateTime(0), end: PaceDateTime(1000) };
    let reflection = ReflectionSummary::new(range, groups);
    assert_eq!(reflection.total_time_spent, PaceDuration(1000));
    assert_eq!(reflection.total_break_duration, PaceDuration(100));
    let entries = reflection.summary_groups_by_category.entries();
    // in the order of the categories
    assert_eq!(entries[0].category, "Home");
    assert_eq!(entries[0].group.total_duration, PaceDuration(300));
    assert_eq!(entries[1].category, "Work");
    assert_eq!(entries[1].subcategory, "Rust");
    assert_eq!(entries[1].group.total_duration, PaceDuration(700));
    // the groups of a category in the order of their descriptions
    let descriptions: Vec<&str> =
        entries[1].group.activity_groups_by_description.iter().map(|g| g.description.as_str()).collect();
    assert_eq!(descriptions, vec!["code", "review"]);
}

fn sample_storage() -> InMemoryActivityStorage {
    let mut storage = InMemoryActivityStorage::new();
    let code = ActivityGuid(Guid(10));
    storage.create_activity_with_id(code, ended("code", Some("Work::Rust"), 100, 3600)).unwrap();
    storage.create_activity_with_id(ActivityGuid(Guid(11)), pause_of(code, 200, 600)).unwrap();
    storage.create_activity_with_id(ActivityGuid(Guid(12)), ended("cook", None, 5000, 1200)).unwrap();
    storage.create_activity_with_id(ActivityGuid(Guid(13)), ended("later", Some("Work"), 90_000, 60)).unwrap();
    storage
}

#[test]
fn a_reflection_on_a_range_summarizes_its_activities() {
    let store = ActivityStore::with_storage(sample_storage()).unwrap();
    let range = TimeRangeOptions { start: PaceDateTime(0), end: PaceDateTime(10_000) };
    let tracker = ActivityTracker::with_activity_store(store);
    let reflection = tracker
        .generate_reflection_at(PaceTimeFrame::DateRange(range), PaceDateTime(20_000))
        .unwrap()
        .unwrap();
    assert_eq!(reflection.time_range, range);
    assert_eq!(reflection.total_time_spent, PaceDuration(3000 + 1200));
    assert_eq!(reflection.total_break_duration, PaceDuration(600));
    let entries = reflection.summary_groups_by_category.entries();
    assert_eq!(entries.len(), 2);
    assert_eq!((entries[0].category.as_str(), entries[0].subcategory.as_str()), ("Uncategorized", ""));
    assert_eq!((entries[1].category.as_str(), entries[1].subcategory.as_str()), ("Work", "Rust"));
    assert_eq!(entries[1].group.total_break_count, 1);
    let empty = TimeRangeOptions { start: PaceDateTime(50_000), end: PaceDateTime(60_000) };
    assert!(tracker
        .generate_reflection_at(PaceTimeFrame::DateRange(empty), PaceDateTime(70_000))
        .unwrap()
        .is_none());
}

#[test]
fn a_review_on_a_range_summarizes_by_whole_category() {
    let store = ActivityStore::with_storage(sample_storage()).unwrap();
    let range = TimeRangeOptions { start: PaceDateTime(0), end: PaceDateTime(100_000) };
    let tracker = ActivityTracker::with_activity_store(store);
    let review = tracker
        .generate_review_summary_at(PaceTimeFrame::DateRange(range), PaceDateTime(200_000))
        .unwrap()
        .unwrap();
    assert_eq!(review.total_time_spent, PaceDuration(3000 + 1200 + 60));
    let entries = review.summary_groups_by_category.entries();
    assert_eq!(entries.len(), 3);
    assert_eq!(entries[0].category, "Uncategorized");
    assert_eq!(entries[1].category, "Work");
    assert_eq!(entries[2].category, "Work::Rust");
    assert_eq!(entries[2].group.total_duration, PaceDuration(3000));
    assert_eq!(entries[2].group.activity_groups[0].intermissions.len(), 1);
}

#[test]
fn review_groups_take_intermissions_off() {
    let mut group = review::ActivityGroup::new(item(1, ended("code", None, 0, 600)));
    group.add_multiple_intermissions(vec![item(2, pause_of(ActivityGuid(Guid(1)), 10, 100))]);
    assert_eq!(group.adjusted_duration, PaceDuration(500));
    let other = review::ActivityGroup::new(item(3, ended("mail", None, 0, 50)));
    let mut summary = review::SummaryGroup::with_activity_group(group);
    summary.add_activity_group(other);
    assert_eq!(summary.total_duration, PaceDuration(550));
    assert_eq!(summary.len(), 2);
    let again = review::SummaryGroup::new(vec![review::ActivityGroup::new(item(4, ended("x", None, 0, 5)))]);
    assert_eq!(again.total_duration, PaceDuration(5));
    assert!(!again.is_empty());
}

#[test]
fn a_frame_outside_the_calendar_is_an_error() {
    let store = ActivityStore::with_storage(sample_storage()).unwrap();
    let tracker = ActivityTracker::with_activity_store(store);
    // a day far beyond the calendar of chrono has no month
    let far = PaceDate(i32::MAX - 10).start_of_day();
    assert!(tracker.generate_reflection_at(PaceTimeFrame::LastMonth, far).is_err());
}

#[test]
fn reflect_options_reflect_on_the_dates_of_their_flags() {
    let tracker = ActivityTracker::with_activity_store(ActivityStore::with_storage(sample_storage()).unwrap());
    let opts = ReflectCommandOptions {
        date_flags: DateFlags { date: None, from: Some(PaceDate(0)), to: Some(PaceDate(1)) },
        category: Some("Work".to_string()),
        case_sensitive: true,
        ..Default::default()
    };
    let reflection = opts.reflection_at(&tracker, PaceDateTime(200_000)).unwrap().unwrap();
    assert_eq!(reflection.time_range, TimeRangeOptions { start: PaceDateTime(0), end: PaceDateTime(86_400) });
    assert_eq!(reflection.total_time_spent, PaceDuration(3000 + 1200));
    assert_eq!(
        FilterOptions::from(&opts),
        FilterOptions { category: Some("Work".to_string()), case_sensitive: true }
    );
}

#[test]
fn review_options_review_the_dates_of_their_flags() {
    let tracker = ActivityTracker::with_activity_store(ActivityStore::with_storage(sample_storage()).unwrap());
    let opts = ReviewCommandOptions {
        date_flags: DateFlags { date: None, from: Some(PaceDate(0)), to: Some(PaceDate(1)) },
        ..Default::default()
    };
    let review = opts.review_summary_at(&tracker, PaceDateTime(200_000)).unwrap().unwrap();
    assert_eq!(review.total_time_spent, PaceDuration(3000 + 1200));
    assert_eq!(review.summary_groups_by_category.entries().len(), 2);
    assert_eq!(FilterOptions::from(&opts), FilterOptions::default());

    let late = ReviewCommandOptions {
        date_flags: DateFlags { date: Some(PaceDate(5)), from: None, to: None },
        ..Default::default()
    };
    assert!(late.review_summary_at(&tracker, PaceDateTime(900_000)).unwrap().is_none());
}

#[test]
fn a_review_reads_as_text() {
    let store = ActivityStore::with_storage(sample_storage()).unwrap();
    let range = TimeRangeOptions { start: PaceDateTime(0), end: PaceDateTime(10_000) };
    let tracker = ActivityTracker::with_activity_store(store);
    let review = tracker
        .generate_review_summary_at(PaceTimeFrame::DateRange(range), PaceDateTime(20_000))
        .unwrap()
        .unwrap();
    let h = |secs: u64| PaceDuration(secs).human_readable();
    let expected = format!(
        "Review Summary for the period: {}\n\nUncategorized\t\t\t\t\t\t{}\n\tcook\t\t\t\t{}\n\nWork::Rust\t\t\t\t\t\t{}\n\tcode\t\t\t\t{}\n\nTotal\t\t\t\t\t\t\t{}",
        range.text(),
        h(1200),
        h(1200),
        h(3000),
        h(3000),
        h(4200)
    );
    assert_eq!(review.text(), expected);
}

#[test]
fn a_reflection_reads_as_a_table() {
    let store = ActivityStore::with_storage(sample_storage()).unwrap();
    let range = TimeRangeOptions { start: PaceDateTime(0), end: PaceDateTime(10_000) };
    let tracker = ActivityTracker::with_activity_store(store);
    let reflection = tracker
        .generate_reflection_at(PaceTimeFrame::DateRange(range), PaceDateTime(20_000))
        .unwrap()
        .unwrap();
    let h = |secs: u64| PaceDuration(secs).human_readable();
    let row = |a: &str, b: &str, c: String, d: String| vec![a.to_string(), b.to_string(), c, d];
    let expected = vec![
        row("Category", "Description", "Duration (Sessions)".to_string(), "Breaks (Amount)".to_string()),
        row("Uncategorized", "", h(1200), h(0)),
        row("", "cook", format!("{} (0)", h(1200)), format!("{} (0)", h(0))),
        row("Work", "", h(3000), h(600)),
        row("Rust", "code", format!("{} (0)", h(3000)), format!("{} (1)", h(600))),
        row("Total", "", h(4200), h(600)),
    ];
    assert_eq!(reflection.rows(), expected);

    let config = Settings::default()
        .with(Panel::header(format!("Your activity insights for the period:\n\n{}", range.text())))
        .with(Padding::new(1, 1, 0, 0))
        .with(Style::modern_rounded())
        .with(Modify::new(Columns::new(2..)).with(Alignment::right()))
        .with(Modify::new(Columns::new(0..=1)).with(Alignment::center()));
    let table = Builder::from(expected).build().with(config).to_string();
    assert_eq!(reflection.table_text(), table);
    assert!(reflection.table_text().contains("Work"));
}
