//! The lifecycle states of activities and tasks.

use vstd::prelude::*;

use crate::text::str_equals;

verus! {

/// The status of a task.
#[derive(Debug, Clone, Copy, PartialEq, Eq, PartialOrd, Ord, Structural)]
pub enum TaskStatus {
    Completed,
    WorkInProgress,
    Paused,
    Pending,
    Scheduled,
    Started,
    Stopped,
    Todo,
    Waiting,
}

impl TaskStatus {
    /// The default task status is `Todo`.
    pub fn default_status() -> (s: Self)
        ensures
            s == TaskStatus::Todo,
    {
        TaskStatus::Todo
    }
}

/// The lifecycle state of an activity.
#[derive(Debug, Clone, Copy, PartialEq, Eq, PartialOrd, Ord, Hash, Structural)]
pub enum ActivityStatusKind {
    /// The initial state of an activity once it's created but not yet started.
    Created,
    /// The activity is scheduled to start at a specific time.
    Scheduled,
    /// The activity is currently being tracked.
    InProgress,
    /// The activity has been temporarily halted.
    Paused,
    /// The activity has been finished.
    Completed,
    /// The activity has been archived.
    Archived,
    /// The activity has been taken out of the archive.
    Unarchived,
}

/// The kebab-case name of each status.
pub open spec fn status_name(s: ActivityStatusKind) -> Seq<char> {
    match s {
        ActivityStatusKind::Created => "created"@,
        ActivityStatusKind::Scheduled => "scheduled"@,
        ActivityStatusKind::InProgress => "in-progress"@,
        ActivityStatusKind::Paused => "paused"@,
        ActivityStatusKind::Completed => "completed"@,
        ActivityStatusKind::Archived => "archived"@,
        ActivityStatusKind::Unarchived => "unarchived"@,
    }
}

/// The status named by a kebab-case name, if any.
pub open spec fn status_from_name(s: Seq<char>) -> Option<ActivityStatusKind> {
    if s == "created"@ {
        Some(ActivityStatusKind::Created)
    } else if s == "scheduled"@ {
        Some(ActivityStatusKind::Scheduled)
    } else if s == "in-progress"@ {
        Some(ActivityStatusKind::InProgress)
    } else if s == "paused"@ {
        Some(ActivityStatusKind::Paused)
    } else if s == "completed"@ {
        Some(ActivityStatusKind::Completed)
    } else if s == "archived"@ {
        Some(ActivityStatusKind::Archived)
    } else if s == "unarchived"@ {
        Some(ActivityStatusKind::Unarchived)
    } else {
        None
    }
}

impl ActivityStatusKind {
    /// The default status is `Created`.
    pub fn default_status() -> (s: Self)
        ensures
            s == ActivityStatusKind::Created,
    {
        ActivityStatusKind::Created
    }

    pub fn is_in_progress(self) -> (b: bool)
        ensures
            b == (self == ActivityStatusKind::InProgress),
    {
        matches!(self, ActivityStatusKind::InProgress)
    }

    pub fn is_archived(self) -> (b: bool)
        ensures
            b == (self == ActivityStatusKind::Archived),
    {
        matches!(self, ActivityStatusKind::Archived)
    }

    pub fn is_completed(self) -> (b: bool)
        ensures
            b == (self == ActivityStatusKind::Completed),
    {
        matches!(self, ActivityStatusKind::Completed)
    }

    pub fn is_created(self) -> (b: bool)
        ensures
            b == (self == ActivityStatusKind::Created),
    {
        matches!(self, ActivityStatusKind::Created)
    }

    pub fn is_paused(self) -> (b: bool)
        ensures
            b == (self == ActivityStatusKind::Paused),
    {
        matches!(self, ActivityStatusKind::Paused)
    }

    pub fn is_unarchived(&self) -> (b: bool)
        ensures
            b == (*self == ActivityStatusKind::Unarchived),
    {
        matches!(*self, ActivityStatusKind::Unarchived)
    }

    /// The kebab-case name, as used in the activity log and the database.
    pub fn as_str(&self) -> (s: &'static str)
        ensures
            s@ == status_name(*self),
    {
        match self {
            ActivityStatusKind::Created => "created",
            ActivityStatusKind::Scheduled => "scheduled",
            ActivityStatusKind::InProgress => "in-progress",
            ActivityStatusKind::Paused => "paused",
            ActivityStatusKind::Completed => "completed",
            ActivityStatusKind::Archived => "archived",
            ActivityStatusKind::Unarchived => "unarchived",
        }
    }

    /// Parses a kebab-case name.
    pub fn parse(s: &str) -> (r: Option<Self>)
        ensures
            r == status_from_name(s@),
    {
        if str_equals(s, "created") {
            Some(ActivityStatusKind::Created)
        } else if str_equals(s, "scheduled") {
            Some(ActivityStatusKind::Scheduled)
        } else if str_equals(s, "in-progress") {
            Some(ActivityStatusKind::InProgress)
        } else if str_equals(s, "paused") {
            Some(ActivityStatusKind::Paused)
        } else if str_equals(s, "completed") {
            Some(ActivityStatusKind::Completed)
        } else if str_equals(s, "archived") {
            Some(ActivityStatusKind::Archived)
        } else if str_equals(s, "unarchived") {
            Some(ActivityStatusKind::Unarchived)
        } else {
            None
        }
    }
}

/// Parsing the name of a status gives that status back.
pub proof fn lemma_status_name_round_trip(s: ActivityStatusKind)
    ensures
        status_from_name(status_name(s)) == Some(s),
{
    reveal_strlit("created");
    reveal_strlit("scheduled");
    reveal_strlit("in-progress");
    reveal_strlit("paused");
    reveal_strlit("completed");
    reveal_strlit("archived");
    reveal_strlit("unarchived");
    assert("scheduled"@[0] != "completed"@[0]);
    assert("created"@.len() == 7);
    assert("scheduled"@.len() == 9);
    assert("in-progress"@.len() == 11);
    assert("paused"@.len() == 6);
    assert("completed"@.len() == 9);
    assert("archived"@.len() == 8);
    assert("unarchived"@.len() == 10);
}

} // verus!
