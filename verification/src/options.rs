//! Options for ending, holding, resuming, updating and filtering activities.

use vstd::prelude::*;

use crate::activity::opt_string_view;
use crate::intermission::IntermissionAction;
use crate::time::PaceDateTime;

verus! {

/// Options for ending activities.
#[derive(Debug, Clone, Copy, PartialEq, Eq, Hash, Structural)]
pub struct EndOptions {
    /// When the activities end.
    pub end_time: PaceDateTime,
}

/// Options for holding an activity.
#[derive(Debug, PartialEq, Eq)]
pub struct HoldOptions {
    /// What to do if the activity already has an intermission.
    pub action: IntermissionAction,
    /// When the intermission begins.
    pub begin_time: PaceDateTime,
    /// Why the activity is held.
    pub reason: Option<String>,
}

/// Options for resuming an activity.
#[derive(Debug, Clone, Copy, PartialEq, Eq, Hash, Structural)]
pub struct ResumeOptions {
    /// When the activity resumes; the current time if not given.
    pub resume_time: Option<PaceDateTime>,
}

/// Options for updating an activity.
#[derive(Debug, Clone, Copy, PartialEq, Eq, Hash, Default)]
pub struct UpdateOptions {}

/// Options for deleting an activity.
#[derive(Debug, Clone, Copy, PartialEq, Eq, Hash, Default)]
pub struct DeleteOptions {}

/// Options for grouping activities by keywords.
#[derive(Debug, PartialEq, Eq, Hash, Default)]
pub struct KeywordOptions {
    pub category: Option<String>,
}

/// Options for filtering activities in reviews and reflections.
#[derive(Debug, PartialEq, Eq, Default)]
pub struct FilterOptions {
    pub category: Option<String>,
    pub case_sensitive: bool,
}

impl EndOptions {
    pub fn new(end_time: PaceDateTime) -> (o: Self)
        ensures
            o.end_time == end_time,
    {
        EndOptions { end_time }
    }

    /// End options for the current time.
    pub fn now() -> (o: Self)
        ensures
            o.end_time.date_fits(),
            o.end_time.is_clock_reading(),
    {
        EndOptions { end_time: PaceDateTime::now() }
    }

    /// Ending an intermission where a hold begins.
    pub fn from_hold(hold_opts: &HoldOptions) -> (o: Self)
        ensures
            o.end_time == hold_opts.begin_time,
    {
        EndOptions { end_time: hold_opts.begin_time }
    }

    /// Ending an intermission where a resume happens, or at `now` when no time is given.
    pub fn from_resume_at(resume_opts: &ResumeOptions, now: PaceDateTime) -> (o: Self)
        ensures
            o.end_time == (match resume_opts.resume_time {
                Some(t) => t,
                None => now,
            }),
    {
        match resume_opts.resume_time {
            Some(t) => EndOptions { end_time: t },
            None => EndOptions { end_time: now },
        }
    }
}

impl HoldOptions {
    pub fn new(action: IntermissionAction, begin_time: PaceDateTime, reason: Option<String>) -> (o:
        Self)
        ensures
            o.action == action,
            o.begin_time == begin_time,
            opt_string_view(o.reason) == opt_string_view(reason),
    {
        HoldOptions { action, begin_time, reason }
    }

    /// Extending the current intermission from now on, without a reason.
    pub fn now() -> (o: Self)
        ensures
            o.action == IntermissionAction::Extend,
            o.begin_time.date_fits(),
            o.begin_time.is_clock_reading(),
            o.reason is None,
    {
        HoldOptions {
            action: IntermissionAction::Extend,
            begin_time: PaceDateTime::now(),
            reason: None,
        }
    }
}

impl ResumeOptions {
    pub fn new(resume_time: Option<PaceDateTime>) -> (o: Self)
        ensures
            o.resume_time == resume_time,
    {
        ResumeOptions { resume_time }
    }
}

} // verus!
