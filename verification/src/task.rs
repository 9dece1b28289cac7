//! Tasks: things to do, with their priority and status, and the inbox that collects
//! them.

use std::collections::BTreeMap;

use vstd::prelude::*;

use crate::category::PaceDescription;
use crate::formats::ItemPriorityKind;
use crate::id::Guid;
use crate::status::TaskStatus;
use crate::time::PaceDateTime;

verus! {

/// The unique identifier of a task.
#[derive(Debug, Clone, Copy, PartialEq, Eq, PartialOrd, Ord, Hash, Structural)]
pub struct TaskGuid(pub Guid);

impl TaskGuid {
    /// A fresh identifier.
    pub fn new() -> (g: Self) {
        TaskGuid(Guid::new())
    }

    pub fn with_id(id: Guid) -> (g: Self)
        ensures
            g.0 == id,
    {
        TaskGuid(id)
    }
}

/// A task.
#[derive(Debug)]
pub struct Task {
    /// When the task was created.
    pub created_at: PaceDateTime,
    /// What the task is about.
    pub description: PaceDescription,
    /// When the task was finished, if it was.
    pub finished_at: Option<PaceDateTime>,
    /// How urgent the task is.
    pub priority: ItemPriorityKind,
    /// Where the task stands.
    pub status: TaskStatus,
    /// The tags of the task.
    pub tags: Vec<String>,
    /// The title of the task.
    pub title: String,
}

impl Task {
    /// A task that is not finished yet.
    pub fn new(
        created_at: PaceDateTime,
        description: PaceDescription,
        priority: ItemPriorityKind,
        status: TaskStatus,
        tags: Vec<String>,
        title: String,
    ) -> (t: Self)
        ensures
            t.created_at == created_at,
            t.description == description,
            t.finished_at is None,
            t.priority == priority,
            t.status == status,
            t.tags == tags,
            t.title == title,
    {
        Task { created_at, description, finished_at: None, priority, status, tags, title }
    }
}

/// The tasks of a task list, by their identifiers.
#[derive(Debug)]
pub struct TaskList {
    pub tasks: BTreeMap<TaskGuid, Task>,
}

/// The tasks that wait to be sorted.
#[derive(Debug, Default)]
pub struct Inbox {
    pub items: Vec<Task>,
}

} // verus!
