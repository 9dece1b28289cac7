use std::path::PathBuf;

use pace_core::category::{PaceDescription, Tag};
use pace_core::formats::ItemPriorityKind;
use pace_core::id::{Guid, TagGuid};
use pace_core::project::{Project, ProjectGuid};
use pace_core::status::TaskStatus;
use pace_core::task::{Inbox, Task, TaskGuid};
use pace_core::time::PaceDateTime;

#[test]
fn a_new_task_is_not_finished() {
    let task = Task::new(
        PaceDateTime(1_000),
        PaceDescription::new("write the report"),
        ItemPriorityKind::High,
        TaskStatus::Pending,
        vec!["work".to_string()],
        "Report".to_string(),
    );
    assert_eq!(task.created_at, PaceDateTime(1_000));
    assert_eq!(task.description.0, "write the report");
    assert_eq!(task.finished_at, None);
    assert_eq!(task.priority, ItemPriorityKind::High);
    assert_eq!(task.status, TaskStatus::Pending);
    assert_eq!(task.tags, vec!["work".to_string()]);
    assert_eq!(task.title, "Report");

    let mut inbox = Inbox::default();
    inbox.items.push(task);
    assert_eq!(inbox.items.len(), 1);
}

#[test]
fn a_new_project_has_only_its_name_and_tasks_file() {
    let project = Project::new("pace".to_string(), PathBuf::from("tasks.pace.toml"));
    assert_eq!(project.name, "pace");
    assert_eq!(project.tasks_file, PathBuf::from("tasks.pace.toml"));
    assert!(project.description.is_none());
    assert!(project.filters.is_none());
    assert!(project.subproject_options.is_none());
}

#[test]
fn identifiers_keep_their_bits() {
    assert_eq!(TaskGuid::with_id(Guid(7)).0, Guid(7));
    assert_eq!(ProjectGuid::with_id(Guid(9)).0, Guid(9));
    let tag = Tag::new(Some(TagGuid::with_id(Guid(3))), "focus".to_string());
    assert_eq!(tag.guid, Some(TagGuid(Guid(3))));
    assert_eq!(tag.text, "focus");
    assert_ne!(TaskGuid::new(), TaskGuid::new());
}

#[test]
fn identifiers_read_in_either_case_and_only_from_base32_digits() {
    let upper = Guid::parse("01D39ZY06FGSCTVN4T2V9PKHFZ").expect("an identifier");
    assert_eq!(Guid::parse("01d39zy06fgsctvn4t2v9pkhfz"), Some(upper));
    assert_eq!(Guid::parse("01D39ZY06FGSCTVN4T2V9PKHFU"), None);
    assert_eq!(Guid::parse("01D39ZY06FGSCTVN4T2V9PKHF"), None);
    assert_eq!(Guid::parse("00000000000000000000000001"), Some(Guid(1)));
}
