//! The activity entity and its lifecycle rules.

use vstd::prelude::*;

use crate::duration::PaceDuration;
use crate::error::{ActivityLogErrorKind, PaceError, PaceErrorKind, PaceResult};
use crate::id::ActivityGuid;
use crate::status::ActivityStatusKind;
use crate::text::str_equals;
use crate::time::{calculate_duration, duration_between, duration_to_str_at, relative_time_text, PaceDateTime};
use chrono::{Local, NaiveDate, NaiveDateTime, NaiveTime, TimeZone};

verus! {

/// The kind of activity a user can track.
#[derive(Debug, Clone, Copy, PartialEq, Eq, PartialOrd, Ord, Hash, Structural)]
pub enum ActivityKind {
    /// A generic activity.
    Activity,
    /// A task.
    Task,
    /// A break.
    Intermission,
    /// A pomodoro work session.
    PomodoroWork,
    /// A pomodoro break.
    PomodoroIntermission,
}

/// The kebab-case name of each kind.
pub open spec fn kind_name(k: ActivityKind) -> Seq<char> {
    match k {
        ActivityKind::Activity => "activity"@,
        ActivityKind::Task => "task"@,
        ActivityKind::Intermission => "intermission"@,
        ActivityKind::PomodoroWork => "pomodoro-work"@,
        ActivityKind::PomodoroIntermission => "pomodoro-intermission"@,
    }
}

/// The kind named by a kebab-case name, if any.
pub open spec fn kind_from_name(s: Seq<char>) -> Option<ActivityKind> {
    if s == "activity"@ {
        Some(ActivityKind::Activity)
    } else if s == "task"@ {
        Some(ActivityKind::Task)
    } else if s == "intermission"@ {
        Some(ActivityKind::Intermission)
    } else if s == "pomodoro-work"@ {
        Some(ActivityKind::PomodoroWork)
    } else if s == "pomodoro-intermission"@ {
        Some(ActivityKind::PomodoroIntermission)
    } else {
        None
    }
}

impl ActivityKind {
    /// The default kind is `Activity`.
    pub fn default_kind() -> (k: Self)
        ensures
            k == ActivityKind::Activity,
    {
        ActivityKind::Activity
    }

    pub fn is_activity(&self) -> (b: bool)
        ensures
            b == (*self == ActivityKind::Activity),
    {
        matches!(*self, ActivityKind::Activity)
    }

    pub fn is_task(&self) -> (b: bool)
        ensures
            b == (*self == ActivityKind::Task),
    {
        matches!(*self, ActivityKind::Task)
    }

    pub fn is_intermission(&self) -> (b: bool)
        ensures
            b == (*self == ActivityKind::Intermission),
    {
        matches!(*self, ActivityKind::Intermission)
    }

    pub fn is_pomodoro_work(&self) -> (b: bool)
        ensures
            b == (*self == ActivityKind::PomodoroWork),
    {
        matches!(*self, ActivityKind::PomodoroWork)
    }

    pub fn is_pomodoro_intermission(&self) -> (b: bool)
        ensures
            b == (*self == ActivityKind::PomodoroIntermission),
    {
        matches!(*self, ActivityKind::PomodoroIntermission)
    }

    /// The symbol shown for the kind.
    pub fn as_symbol(&self) -> (s: &'static str)
        ensures
            s@ == kind_symbol(*self),
    {
        match self {
            ActivityKind::Activity => "📆",
            ActivityKind::Task => "📋",
            ActivityKind::Intermission => "⏸️",
            ActivityKind::PomodoroWork => "🍅⏲️",
            ActivityKind::PomodoroIntermission => "🍅⏸️",
        }
    }

    /// The kebab-case name, as used in the activity log.
    pub fn as_str(&self) -> (s: &'static str)
        ensures
            s@ == kind_name(*self),
    {
        match self {
            ActivityKind::Activity => "activity",
            ActivityKind::Task => "task",
            ActivityKind::Intermission => "intermission",
            ActivityKind::PomodoroWork => "pomodoro-work",
            ActivityKind::PomodoroIntermission => "pomodoro-intermission",
        }
    }

    /// Parses a kebab-case name.
    pub fn parse(s: &str) -> (r: Option<Self>)
        ensures
            r == kind_from_name(s@),
    {
        if str_equals(s, "activity") {
            Some(ActivityKind::Activity)
        } else if str_equals(s, "task") {
            Some(ActivityKind::Task)
        } else if str_equals(s, "intermission") {
            Some(ActivityKind::Intermission)
        } else if str_equals(s, "pomodoro-work") {
            Some(ActivityKind::PomodoroWork)
        } else if str_equals(s, "pomodoro-intermission") {
            Some(ActivityKind::PomodoroIntermission)
        } else {
            None
        }
    }
}

/// The symbol of each kind.
pub open spec fn kind_symbol(k: ActivityKind) -> Seq<char> {
    match k {
        ActivityKind::Activity => "📆"@,
        ActivityKind::Task => "📋"@,
        ActivityKind::Intermission => "⏸️"@,
        ActivityKind::PomodoroWork => "🍅⏲️"@,
        ActivityKind::PomodoroIntermission => "🍅⏸️"@,
    }
}

/// Parsing the name of a kind gives that kind back.
pub proof fn lemma_kind_name_round_trip(k: ActivityKind)
    ensures
        kind_from_name(kind_name(k)) == Some(k),
{
    reveal_strlit("activity");
    reveal_strlit("task");
    reveal_strlit("intermission");
    reveal_strlit("pomodoro-work");
    reveal_strlit("pomodoro-intermission");
    assert("activity"@.len() == 8);
    assert("task"@.len() == 4);
    assert("intermission"@.len() == 12);
    assert("pomodoro-work"@.len() == 13);
    assert("pomodoro-intermission"@.len() == 21);
}

/// The cycle of a pomodoro activity.
#[derive(Debug, Clone, Copy, PartialEq, Eq, Structural)]
pub enum PomodoroCycle {
    /// A work session, with its number in a sequence.
    Work(usize),
    /// A break.
    Intermission,
}

/// How and when an activity ended.
#[derive(Debug, Clone, Copy, PartialEq, Eq, Structural)]
pub struct ActivityEndOptions {
    /// The end date and time of the activity.
    pub end: PaceDateTime,
    /// The duration of the activity.
    pub duration: PaceDuration,
}

impl ActivityEndOptions {
    pub fn new(end: PaceDateTime, duration: PaceDuration) -> (o: Self)
        ensures
            o.end == end,
            o.duration == duration,
    {
        ActivityEndOptions { end, duration }
    }

    pub fn as_tuple(&self) -> (t: (PaceDateTime, PaceDuration))
        ensures
            t == (self.end, self.duration),
    {
        (self.end, self.duration)
    }
}

/// Options that depend on the kind of activity.
#[derive(Debug, Clone, Copy, PartialEq, Eq, Structural)]
pub struct ActivityKindOptions {
    /// The activity that an intermission interrupts.
    pub parent_id: Option<ActivityGuid>,
}

impl ActivityKindOptions {
    pub fn with_parent_id(parent_id: ActivityGuid) -> (o: Self)
        ensures
            o.parent_id == Some(parent_id),
    {
        ActivityKindOptions { parent_id: Some(parent_id) }
    }
}

/// The mathematical content of an activity.
pub struct ActivityView {
    pub category: Option<Seq<char>>,
    pub description: Seq<char>,
    pub begin: PaceDateTime,
    pub activity_end_options: Option<ActivityEndOptions>,
    pub kind: ActivityKind,
    pub activity_kind_options: Option<ActivityKindOptions>,
    pub tags: Option<Seq<Seq<char>>>,
    pub pomodoro_cycle_options: Option<PomodoroCycle>,
    pub status: ActivityStatusKind,
}

/// The activity entity: something the user tracks, from its beginning to its end.
#[derive(Debug, PartialEq, Eq)]
pub struct Activity {
    /// The category of the activity.
    pub category: Option<String>,
    /// The description of the activity.
    pub description: String,
    /// The start date and time of the activity.
    pub begin: PaceDateTime,
    /// When and after how long the activity ended.
    pub activity_end_options: Option<ActivityEndOptions>,
    /// The kind of activity.
    pub kind: ActivityKind,
    /// Optional attributes for the activity kind.
    pub activity_kind_options: Option<ActivityKindOptions>,
    /// Tags for the activity.
    pub tags: Option<Vec<String>>,
    /// The pomodoro cycle of the activity.
    pub pomodoro_cycle_options: Option<PomodoroCycle>,
    /// The lifecycle state.
    pub status: ActivityStatusKind,
}

/// The view of an optional string.
pub open spec fn opt_string_view(s: Option<String>) -> Option<Seq<char>> {
    match s {
        Some(t) => Some(t@),
        None => None,
    }
}

/// The view of a list of strings.
pub open spec fn strings_view(v: Seq<String>) -> Seq<Seq<char>> {
    v.map_values(|s: String| s@)
}

/// The view of optional tags.
pub open spec fn opt_tags_view(t: Option<Vec<String>>) -> Option<Seq<Seq<char>>> {
    match t {
        Some(v) => Some(strings_view(v@)),
        None => None,
    }
}

impl View for Activity {
    type V = ActivityView;

    open spec fn view(&self) -> ActivityView {
        ActivityView {
            category: opt_string_view(self.category),
            description: self.description@,
            begin: self.begin,
            activity_end_options: self.activity_end_options,
            kind: self.kind,
            activity_kind_options: self.activity_kind_options,
            tags: opt_tags_view(self.tags),
            pomodoro_cycle_options: self.pomodoro_cycle_options,
            status: self.status,
        }
    }
}

/// A copy of an optional string.
pub fn copy_opt_string(s: &Option<String>) -> (r: Option<String>)
    ensures
        opt_string_view(r) == opt_string_view(*s),
{
    match s {
        Some(t) => Some(t.clone()),
        None => None,
    }
}

/// A copy of a list of strings.
pub fn copy_strings(v: &Vec<String>) -> (r: Vec<String>)
    ensures
        strings_view(r@) == strings_view(v@),
{
    let mut r: Vec<String> = Vec::new();
    let mut i: usize = 0;
    while i < v.len()
        invariant
            i <= v.len(),
            r@.len() == i,
            forall|j: int| 0 <= j < i ==> r@[j]@ == v@[j]@,
        decreases v.len() - i,
    {
        r.push(v[i].clone());
        i = i + 1;
    }
    assert(strings_view(r@) =~= strings_view(v@));
    r
}

/// A copy of optional tags.
pub fn copy_opt_tags(t: &Option<Vec<String>>) -> (r: Option<Vec<String>>)
    ensures
        opt_tags_view(r) == opt_tags_view(*t),
{
    match t {
        Some(v) => Some(copy_strings(v)),
        None => None,
    }
}

impl ActivityView {
    /// The activity is held.
    pub open spec fn is_paused(self) -> bool {
        self.status == ActivityStatusKind::Paused
    }

    /// The activity is being tracked: it has not ended, is in progress and is no
    /// break; running breaks are not active activities.
    pub open spec fn is_in_progress(self) -> bool {
        &&& self.activity_end_options is None
        &&& self.kind != ActivityKind::Intermission
        &&& self.kind != ActivityKind::PomodoroIntermission
        &&& self.status == ActivityStatusKind::InProgress
    }

    /// The activity is a break that is running.
    pub open spec fn is_active_intermission(self) -> bool {
        &&& self.activity_end_options is None
        &&& (self.kind == ActivityKind::Intermission || self.kind
            == ActivityKind::PomodoroIntermission)
        &&& self.status == ActivityStatusKind::InProgress
    }

    pub open spec fn is_archived(self) -> bool {
        self.status == ActivityStatusKind::Archived
    }

    pub open spec fn is_inactive(self) -> bool {
        self.status == ActivityStatusKind::Created
    }

    /// The activity has ended and is not archived.
    pub open spec fn is_completed(self) -> bool {
        &&& self.activity_end_options is Some
        &&& (self.kind != ActivityKind::Intermission || self.kind
            != ActivityKind::PomodoroIntermission)
        &&& !self.is_archived()
        &&& self.status == ActivityStatusKind::Completed
    }

    pub open spec fn is_resumable(self) -> bool {
        self.is_inactive() || self.is_archived() || self.is_paused() || self.is_completed()
    }

    pub open spec fn is_completable(self) -> bool {
        self.is_in_progress() || self.is_paused()
    }

    /// The activity that an intermission interrupts.
    pub open spec fn parent_id(self) -> Option<ActivityGuid> {
        match self.activity_kind_options {
            Some(opts) => opts.parent_id,
            None => None,
        }
    }

    /// The activity after it ended with the given options.
    pub open spec fn ended(self, end_opts: ActivityEndOptions) -> ActivityView {
        ActivityView {
            activity_end_options: Some(end_opts),
            status: ActivityStatusKind::Completed,
            ..self
        }
    }

    /// The activity with another status.
    pub open spec fn with_status(self, status: ActivityStatusKind) -> ActivityView {
        ActivityView { status, ..self }
    }

    /// The activity after `updated` was merged into it: every field is replaced but
    /// its kind and its begin.
    pub open spec fn merged(self, updated: ActivityView) -> ActivityView {
        ActivityView { kind: self.kind, begin: self.begin, ..updated }
    }

    /// The activity ended at `end`, with the duration since its begin; unchanged if
    /// `end` lies before the begin.
    pub open spec fn ended_at(self, end: PaceDateTime) -> ActivityView {
        match duration_between(self.begin, end) {
            Some(d) => self.ended(ActivityEndOptions { end, duration: d }),
            None => self,
        }
    }

    /// The duration recorded when the activity ended.
    pub open spec fn recorded_duration(self) -> Option<PaceDuration> {
        match self.activity_end_options {
            Some(opts) => Some(opts.duration),
            None => None,
        }
    }

    /// The recorded duration, or zero.
    pub open spec fn duration_or_zero(self) -> PaceDuration {
        match self.activity_end_options {
            Some(opts) => opts.duration,
            None => PaceDuration(0),
        }
    }
}

impl Clone for Activity {
    fn clone(&self) -> (r: Self)
        ensures
            r@ == self@,
    {
        Activity {
            category: copy_opt_string(&self.category),
            description: self.description.clone(),
            begin: self.begin,
            activity_end_options: self.activity_end_options,
            kind: self.kind,
            activity_kind_options: self.activity_kind_options,
            tags: copy_opt_tags(&self.tags),
            pomodoro_cycle_options: self.pomodoro_cycle_options,
            status: self.status,
        }
    }
}

impl Activity {
    /// A new activity that has not started: no category, kind or tags, not ended.
    pub fn new(description: String, begin: PaceDateTime) -> (a: Self)
        ensures
            a@ == (ActivityView {
                category: None,
                description: description@,
                begin,
                activity_end_options: None,
                kind: ActivityKind::Activity,
                activity_kind_options: None,
                tags: None,
                pomodoro_cycle_options: None,
                status: ActivityStatusKind::Created,
            }),
    {
        Activity {
            category: None,
            description,
            begin,
            activity_end_options: None,
            kind: ActivityKind::Activity,
            activity_kind_options: None,
            tags: None,
            pomodoro_cycle_options: None,
            status: ActivityStatusKind::Created,
        }
    }

    /// A new activity to resume this one from `begin` on: the same description,
    /// category, kind, kind options, pomodoro cycle and tags, not ended and not started.
    pub fn new_from_self_at(&self, begin: PaceDateTime) -> (a: Self)
        ensures
            a@ == self@.resumed_at(begin),
    {
        Activity {
            category: copy_opt_string(&self.category),
            description: self.description.clone(),
            begin,
            activity_end_options: None,
            kind: self.kind,
            activity_kind_options: self.activity_kind_options,
            tags: copy_opt_tags(&self.tags),
            pomodoro_cycle_options: self.pomodoro_cycle_options,
            status: ActivityStatusKind::Created,
        }
    }

    /// A new activity to resume this one from now on.
    pub fn new_from_self(&self) -> (a: Self)
        ensures
            a@ == self@.resumed_at(a@.begin),
            a@.begin.is_clock_reading(),
    {
        let now = PaceDateTime::now();
        self.new_from_self_at(now)
    }

    pub fn is_paused(&self) -> (b: bool)
        ensures
            b == self@.is_paused(),
    {
        self.status.is_paused()
    }

    pub fn is_in_progress(&self) -> (b: bool)
        ensures
            b == self@.is_in_progress(),
    {
        self.activity_end_options.is_none() && !self.kind.is_intermission()
            && !self.kind.is_pomodoro_intermission() && self.status.is_in_progress()
    }

    /// Make the activity active.
    pub fn make_active(&mut self)
        ensures
            final(self)@ == old(self)@.with_status(ActivityStatusKind::InProgress),
    {
        self.status = ActivityStatusKind::InProgress;
    }

    /// Make the activity inactive.
    pub fn make_inactive(&mut self)
        ensures
            final(self)@ == old(self)@.with_status(ActivityStatusKind::Created),
    {
        self.status = ActivityStatusKind::Created;
    }

    /// Archive the activity, if it is not in progress and has been completed.
    pub fn archive(&mut self)
        ensures
            (!old(self)@.is_in_progress() && old(self)@.is_completed()) ==> final(self)@ == old(
                self,
            )@.with_status(ActivityStatusKind::Archived),
            !(!old(self)@.is_in_progress() && old(self)@.is_completed()) ==> final(self)@ == old(
                self,
            )@,
    {
        if !self.is_in_progress() && self.is_completed() {
            self.status = ActivityStatusKind::Archived;
        }
    }

    /// Take the activity out of the archive, if it is archived.
    pub fn unarchive(&mut self)
        ensures
            old(self)@.is_archived() ==> final(self)@ == old(self)@.with_status(
                ActivityStatusKind::Unarchived,
            ),
            !old(self)@.is_archived() ==> final(self)@ == old(self)@,
    {
        if self.is_archived() {
            self.status = ActivityStatusKind::Unarchived;
        }
    }

    pub fn is_completable(&self) -> (b: bool)
        ensures
            b == self@.is_completable(),
    {
        self.is_in_progress() || self.is_paused()
    }

    pub fn is_active_intermission(&self) -> (b: bool)
        ensures
            b == self@.is_active_intermission(),
    {
        self.activity_end_options.is_none() && (self.kind.is_intermission()
            || self.kind.is_pomodoro_intermission()) && self.status.is_in_progress()
    }

    pub fn is_archived(&self) -> (b: bool)
        ensures
            b == self@.is_archived(),
    {
        self.status.is_archived()
    }

    pub fn is_inactive(&self) -> (b: bool)
        ensures
            b == self@.is_inactive(),
    {
        self.status.is_created()
    }

    pub fn is_completed(&self) -> (b: bool)
        ensures
            b == self@.is_completed(),
    {
        self.activity_end_options.is_some() && (!self.kind.is_intermission()
            || !self.kind.is_pomodoro_intermission()) && !self.is_archived()
            && self.status.is_completed()
    }

    pub fn is_resumable(&self) -> (b: bool)
        ensures
            b == self@.is_resumable(),
    {
        self.is_inactive() || self.is_archived() || self.is_paused() || self.is_completed()
    }

    /// End the activity with the given end options.
    pub fn end_activity(&mut self, end_opts: ActivityEndOptions)
        ensures
            final(self)@ == old(self)@.ended(end_opts),
    {
        self.activity_end_options = Some(end_opts);
        self.status = ActivityStatusKind::Completed;
    }

    /// End the activity at `end`, with the duration from `begin` to `end`; an error,
    /// and no change, when `end` lies before `begin`.
    pub fn end_activity_with_duration_calc(
        &mut self,
        begin: PaceDateTime,
        end: PaceDateTime,
    ) -> (r: PaceResult<()>)
        ensures
            match duration_between(begin, end) {
                Some(d) => r is Ok && final(self)@ == old(self)@.ended(
                    ActivityEndOptions { end, duration: d },
                ),
                None => r == Err::<(), PaceError>(PaceError(PaceErrorKind::ChronoDurationIsNegative))
                    && final(self)@ == old(self)@,
            },
    {
        let duration = calculate_duration(&begin, end)?;
        self.end_activity(ActivityEndOptions::new(end, duration));
        Ok(())
    }

    /// The activity that an intermission interrupts.
    pub fn parent_id(&self) -> (p: Option<ActivityGuid>)
        ensures
            p == self@.parent_id(),
    {
        match self.activity_kind_options {
            Some(opts) => opts.parent_id,
            None => None,
        }
    }

    /// The duration recorded when the activity ended; an error if it has not ended.
    pub fn duration(&self) -> (r: PaceResult<PaceDuration>)
        ensures
            match self@.recorded_duration() {
                Some(d) => r == Ok::<PaceDuration, PaceError>(d),
                None => r == Err::<PaceDuration, PaceError>(
                    PaceError(PaceErrorKind::ActivityLog(ActivityLogErrorKind::NoEndOptionsFound)),
                ),
            },
    {
        match self.activity_end_options {
            Some(opts) => Ok(opts.duration),
            None => Err(
                PaceError(PaceErrorKind::ActivityLog(ActivityLogErrorKind::NoEndOptionsFound)),
            ),
        }
    }

    /// The recorded duration, or zero if the activity has not ended.
    pub fn duration_or_zero(&self) -> (d: PaceDuration)
        ensures
            d == self@.duration_or_zero(),
    {
        match self.activity_end_options {
            Some(opts) => opts.duration,
            None => PaceDuration(0),
        }
    }

    /// Merge `updated` into the activity: every field is replaced but the kind and the begin.
    pub fn merge(&mut self, updated: Activity)
        ensures
            final(self)@ == old(self)@.merged(updated@),
    {
        self.category = updated.category;
        self.description = updated.description;
        self.activity_end_options = updated.activity_end_options;
        self.activity_kind_options = updated.activity_kind_options;
        self.tags = updated.tags;
        self.pomodoro_cycle_options = updated.pomodoro_cycle_options;
        self.status = updated.status;
    }
}

impl ActivityView {
    /// A new, not started and not ended activity like this one, beginning at `begin`.
    pub open spec fn resumed_at(self, begin: PaceDateTime) -> ActivityView {
        ActivityView {
            begin,
            activity_end_options: None,
            status: ActivityStatusKind::Created,
            ..self
        }
    }
}

/// An activity together with its identifier.
#[derive(Debug, PartialEq, Eq)]
pub struct ActivityItem {
    pub guid: ActivityGuid,
    pub activity: Activity,
}

impl Clone for ActivityItem {
    fn clone(&self) -> (r: Self)
        ensures
            r.guid == self.guid,
            r.activity@ == self.activity@,
    {
        ActivityItem { guid: self.guid, activity: self.activity.clone() }
    }
}

impl ActivityItem {
    pub fn new(guid: ActivityGuid, activity: Activity) -> (i: Self)
        ensures
            i.guid == guid,
            i.activity == activity,
    {
        ActivityItem { guid, activity }
    }

    pub fn into_parts(self) -> (p: (ActivityGuid, Activity))
        ensures
            p.0 == self.guid,
            p.1 == self.activity,
    {
        (self.guid, self.activity)
    }

    /// An item for an activity under a newly generated identifier.
    pub fn from_activity(activity: Activity) -> (i: Self)
        ensures
            i.activity == activity,
    {
        ActivityItem { guid: ActivityGuid::new(), activity }
    }
}

/// The offset from UTC of the machine's time zone at a naive local date and time, as
/// `chrono` writes it, e.g. `+01:00`: `NaiveDate::from_num_days_from_ce_opt` and
/// `NaiveTime::from_num_seconds_from_midnight_opt` give the local time, and
/// `Local.from_local_datetime(..).earliest()` its offset; `None` when there is no such
/// local time. The offset depends on the time zone of the machine: nothing is stated
/// of it.
#[verifier::external_body]
fn local_offset_text(day: i32, secs: u32) -> Option<String> {
    let date = NaiveDate::from_num_days_from_ce_opt(day)?;
    let time = NaiveTime::from_num_seconds_from_midnight_opt(secs, 0)?;
    let local = Local.from_local_datetime(&NaiveDateTime::new(date, time)).earliest()?;
    Some(local.offset().to_string())
}

/// An activity in one line: its symbol, description and category, how long ago it
/// began as of `now`, and the offset from UTC of the time zone it began in.
pub open spec fn activity_text(a: ActivityView, now: PaceDateTime, offset: Seq<char>) -> Seq<char> {
    kind_symbol(a.kind) + "  Activity: \""@ + a.description + "\" ("@ + match a.category {
        Some(c) => c,
        None => "Uncategorized"@,
    } + ") started "@ + relative_time_text(a.begin, now) + " in UTC"@ + offset
}

impl Activity {
    /// The activity in one line, as of `now`, with the given offset from UTC of the
    /// time zone it began in.
    pub fn text_at(&self, now: PaceDateTime, offset: &str) -> (s: String)
        ensures
            s@ == activity_text(self@, now, offset@),
    {
        let mut s = String::from_str(self.kind.as_symbol());
        s.append("  Activity: \"");
        s.append(self.description.as_str());
        s.append("\" (");
        match &self.category {
            Some(c) => s.append(c.as_str()),
            None => s.append("Uncategorized"),
        }
        s.append(") started ");
        let started = duration_to_str_at(self.begin, now);
        s.append(started.as_str());
        s.append(" in UTC");
        s.append(offset);
        s
    }

    /// The activity in one line, as of the current time, with the offset from UTC of
    /// the machine's time zone when it began.
    pub fn text(&self) -> (s: String)
        ensures
            exists|now: PaceDateTime, offset: Seq<char>|
                now.date_fits() && now.is_clock_reading() && s@ == #[trigger] activity_text(self@, now, offset),
    {
        let now = PaceDateTime::now();
        let day = self.begin.day_number();
        let offset = if i32::MIN as i64 <= day && day <= i32::MAX as i64 {
            match local_offset_text(day as i32, self.begin.time().0) {
                Some(o) => o,
                None => String::new(),
            }
        } else {
            String::new()
        };
        self.text_at(now, offset.as_str())
    }
}

} // verus!
