//! Filters for listing activities.

use vstd::prelude::*;

use crate::activity::{Activity, ActivityKind, ActivityView};
use crate::id::ActivityGuid;
use crate::time::TimeRangeOptions;

verus! {

/// Which activities to list.
#[derive(Debug, Clone, Copy, PartialEq, Eq, Structural)]
pub enum ActivityFilterKind {
    /// Everything: activities, intermissions, archived and ended ones.
    Everything,
    /// Only activities, no intermissions.
    OnlyActivities,
    /// Activities that are being tracked.
    Active,
    /// Intermissions that are running.
    ActiveIntermission,
    /// Archived activities.
    Archived,
    /// Activities that have ended.
    Ended,
    /// Activities that are held.
    Held,
    /// Intermissions.
    Intermission,
    /// Activities that begin in a time range.
    TimeRange(TimeRangeOptions),
}

/// Whether an activity passes a filter.
pub open spec fn filter_matches(f: ActivityFilterKind, a: ActivityView) -> bool {
    match f {
        ActivityFilterKind::Everything => true,
        ActivityFilterKind::OnlyActivities => a.kind == ActivityKind::Activity,
        ActivityFilterKind::Active => a.is_in_progress(),
        ActivityFilterKind::ActiveIntermission => a.is_active_intermission(),
        ActivityFilterKind::Archived => a.is_archived(),
        ActivityFilterKind::Ended => a.is_completed(),
        ActivityFilterKind::Held => a.is_paused(),
        ActivityFilterKind::Intermission => a.kind == ActivityKind::Intermission,
        ActivityFilterKind::TimeRange(r) => r.start.0 <= a.begin.0 && a.begin.0 <= r.end.0,
    }
}

/// The identifiers of the activities that passed a filter, tagged with that filter.
#[derive(Debug, PartialEq, Eq)]
pub enum FilteredActivities {
    Everything(Vec<ActivityGuid>),
    OnlyActivities(Vec<ActivityGuid>),
    Active(Vec<ActivityGuid>),
    ActiveIntermission(Vec<ActivityGuid>),
    Archived(Vec<ActivityGuid>),
    Ended(Vec<ActivityGuid>),
    Held(Vec<ActivityGuid>),
    Intermission(Vec<ActivityGuid>),
    TimeRange(Vec<ActivityGuid>),
}

impl FilteredActivities {
    /// The identifiers.
    pub open spec fn ids(self) -> Seq<ActivityGuid> {
        match self {
            FilteredActivities::Everything(v) => v@,
            FilteredActivities::OnlyActivities(v) => v@,
            FilteredActivities::Active(v) => v@,
            FilteredActivities::ActiveIntermission(v) => v@,
            FilteredActivities::Archived(v) => v@,
            FilteredActivities::Ended(v) => v@,
            FilteredActivities::Held(v) => v@,
            FilteredActivities::Intermission(v) => v@,
            FilteredActivities::TimeRange(v) => v@,
        }
    }

    /// Whether the tag is the one of the filter.
    pub open spec fn tagged_with(self, f: ActivityFilterKind) -> bool {
        match f {
            ActivityFilterKind::Everything => self is Everything,
            ActivityFilterKind::OnlyActivities => self is OnlyActivities,
            ActivityFilterKind::Active => self is Active,
            ActivityFilterKind::ActiveIntermission => self is ActiveIntermission,
            ActivityFilterKind::Archived => self is Archived,
            ActivityFilterKind::Ended => self is Ended,
            ActivityFilterKind::Held => self is Held,
            ActivityFilterKind::Intermission => self is Intermission,
            ActivityFilterKind::TimeRange(_) => self is TimeRange,
        }
    }

    /// The identifiers tagged with a filter.
    pub fn tag(f: ActivityFilterKind, ids: Vec<ActivityGuid>) -> (r: Self)
        ensures
            r.tagged_with(f),
            r.ids() == ids@,
    {
        match f {
            ActivityFilterKind::Everything => FilteredActivities::Everything(ids),
            ActivityFilterKind::OnlyActivities => FilteredActivities::OnlyActivities(ids),
            ActivityFilterKind::Active => FilteredActivities::Active(ids),
            ActivityFilterKind::ActiveIntermission => FilteredActivities::ActiveIntermission(ids),
            ActivityFilterKind::Archived => FilteredActivities::Archived(ids),
            ActivityFilterKind::Ended => FilteredActivities::Ended(ids),
            ActivityFilterKind::Held => FilteredActivities::Held(ids),
            ActivityFilterKind::Intermission => FilteredActivities::Intermission(ids),
            ActivityFilterKind::TimeRange(_) => FilteredActivities::TimeRange(ids),
        }
    }

    /// The identifiers, whatever the filter was.
    pub fn into_vec(self) -> (v: Vec<ActivityGuid>)
        ensures
            v@ == self.ids(),
    {
        match self {
            FilteredActivities::Everything(v) => v,
            FilteredActivities::OnlyActivities(v) => v,
            FilteredActivities::Active(v) => v,
            FilteredActivities::ActiveIntermission(v) => v,
            FilteredActivities::Archived(v) => v,
            FilteredActivities::Ended(v) => v,
            FilteredActivities::Held(v) => v,
            FilteredActivities::Intermission(v) => v,
            FilteredActivities::TimeRange(v) => v,
        }
    }
}

/// Whether an activity passes a filter.
pub fn activity_passes(f: ActivityFilterKind, a: &Activity) -> (b: bool)
    ensures
        b == filter_matches(f, a@),
{
    match f {
        ActivityFilterKind::Everything => true,
        ActivityFilterKind::OnlyActivities => a.kind.is_activity(),
        ActivityFilterKind::Active => a.is_in_progress(),
        ActivityFilterKind::ActiveIntermission => a.is_active_intermission(),
        ActivityFilterKind::Archived => a.is_archived(),
        ActivityFilterKind::Ended => a.is_completed(),
        ActivityFilterKind::Held => a.is_paused(),
        ActivityFilterKind::Intermission => a.kind.is_intermission(),
        ActivityFilterKind::TimeRange(r) => r.is_in_range(a.begin),
    }
}

} // verus!
