//! What the commands of the application decide and change: which documentation to
//! open, which activities run, and how activities begin, end, are held and adjusted.
//! Reading and writing the activity log and showing the results is left to the caller.

use std::path::PathBuf;

use vstd::prelude::*;

use crate::activity::{opt_string_view, strings_view, Activity, ActivityItem, ActivityKind, ActivityView};
use crate::activity_log::{keys_where, LogEntry};
use crate::category::PaceTagCollection;
use crate::constants::{PACE_CONFIG_DOCS_URL, PACE_DEV_DOCS_URL, PACE_DOCS_URL};
use crate::error::{ActivityLogErrorKind, PaceError, PaceErrorKind, PaceOptResult, PaceResult};
use crate::filter::ActivityFilterKind;
use crate::id::ActivityGuid;
use crate::status::ActivityStatusKind;
use crate::storage::{
    last_where, is_running_activity, ActivityQuerying, ActivityReadOps, ActivityStateManagement,
    ActivityWriteOps,
    InMemoryActivityStorage,
};
use crate::text::str_equals;
use crate::config::PaceConfig;
use crate::error::UserMessage;
use crate::formats::{ReflectionsFormatKind, ReviewFormatKind};
use crate::options::{FilterOptions, ResumeOptions};
use crate::review::ReviewSummary;
use crate::store::{reflection_outcome, review_outcome, ActivityTracker};
use crate::summary::ReflectionSummary;
use crate::time::{
    at_day, get_time_frame_from_flags_at, time_frame_from_flags, time_frame_outcome, DateFlags, PaceDateTime, PaceTime,
    TimeFlags, SECS_PER_DAY,
};

verus! {

/// Flags for insights that take long to compute.
#[derive(Debug, Clone, Copy, PartialEq, Eq, Default)]
pub struct ExpensiveFlags {
    /// Include detailed time logs.
    pub detailed: bool,
    /// Compare with a previous period.
    pub comparative: bool,
    /// Give recommendations.
    pub recommendations: bool,
}

/// Options of the `docs` command: at most one of the flags is set.
#[derive(Debug, Clone, Copy, PartialEq, Eq, Default)]
pub struct DocsCommandOptions {
    /// Open the documentation for developers.
    pub dev: bool,
    /// Open the documentation of the configuration.
    pub config: bool,
}

/// The address of the documentation to open for the given flags.
pub open spec fn docs_url_for(dev: bool, config: bool) -> Seq<char> {
    if !dev && !config {
        PACE_DOCS_URL@
    } else if config {
        PACE_CONFIG_DOCS_URL@
    } else {
        PACE_DEV_DOCS_URL@
    }
}

/// The text that announces the documentation for the given flags.
pub open spec fn docs_message_for(dev: bool, config: bool) -> Seq<char> {
    if !dev && !config {
        "Opening the user documentation at "@ + PACE_DOCS_URL@
    } else if config {
        "Opening the configuration documentation at "@ + PACE_CONFIG_DOCS_URL@
    } else {
        "Opening the development documentation at "@ + PACE_DEV_DOCS_URL@
    }
}

impl DocsCommandOptions {
    /// The documentation to open, and the message that announces it: the user
    /// documentation when no flag is set, else that of the configuration or for
    /// developers.
    pub fn documentation(&self) -> (r: (&'static str, String))
        ensures
            r.0@ == docs_url_for(self.dev, self.config),
            r.1@ == docs_message_for(self.dev, self.config),
    {
        if !self.dev && !self.config {
            let mut msg = String::from_str("Opening the user documentation at ");
            msg.append(PACE_DOCS_URL);
            (PACE_DOCS_URL, msg)
        } else if self.config {
            let mut msg = String::from_str("Opening the configuration documentation at ");
            msg.append(PACE_CONFIG_DOCS_URL);
            (PACE_CONFIG_DOCS_URL, msg)
        } else {
            let mut msg = String::from_str("Opening the development documentation at ");
            msg.append(PACE_DEV_DOCS_URL);
            (PACE_DEV_DOCS_URL, msg)
        }
    }
}

/// Options of the `now` command.
#[derive(Debug, Clone, Copy, PartialEq, Eq, Default)]
pub struct NowCommandOptions {}

impl NowCommandOptions {
    /// The activities that are being tracked, in the order of their identifiers;
    /// `None` when there is none.
    pub fn current_activities(&self, storage: &InMemoryActivityStorage) -> (r: PaceOptResult<
        Vec<ActivityItem>,
    >)
        requires
            storage.wf(),
        ensures
            ({
                let ks = keys_where(storage.entries(), ActivityFilterKind::Active);
                &&& (ks.len() == 0 ==> r matches Ok(None))
                &&& (ks.len() > 0 ==> (r matches Ok(Some(items)) && items@.len() == ks.len()
                    && forall|j: int|
                    0 <= j < items@.len() ==> (#[trigger] items@[j]).guid.bits() == ks[j]
                        && items@[j].activity@ == storage@[ks[j]]))
            }),
    {
        let ghost ks = keys_where(storage.entries(), ActivityFilterKind::Active);
        proof {
            storage.lemma_wf();
            crate::activity_log::lemma_keys_where(storage.entries(), ActivityFilterKind::Active);
        }
        let ids = match storage.list_current_activities()? {
            None => {
                return Ok(None);
            },
            Some(ids) => ids,
        };
        let mut items: Vec<ActivityItem> = Vec::new();
        let mut i: usize = 0;
        while i < ids.len()
            invariant
                storage.wf(),
                i <= ids@.len(),
                crate::activity_log::guid_bits(ids@) == ks,
                forall|k: u128| #[trigger] ks.contains(k) ==> storage@.contains_key(k),
                items@.len() == i,
                forall|j: int|
                    0 <= j < i ==> (#[trigger] items@[j]).guid.bits() == ks[j] && items@[j].activity@
                        == storage@[ks[j]],
            decreases ids@.len() - i,
        {
            proof {
                assert(ks[i as int] == ids@[i as int].bits());
                assert(ks.contains(ks[i as int]));
            }
            let item = match storage.read_activity(ids[i]) {
                Ok(item) => item,
                Err(_) => {
                    proof {
                        assert(false);
                    }
                    return Ok(None);
                },
            };
            items.push(item);
            i = i + 1;
        }
        Ok(Some(items))
    }
}

/// The tags of an activity as a set, if it has tags.
pub open spec fn tag_set_of(tags: Option<Seq<Seq<char>>>) -> Option<Set<Seq<char>>> {
    match tags {
        Some(t) => Some(t.to_set()),
        None => None,
    }
}

/// Tags without repetitions, as a set.
pub open spec fn tags_as_set(tags: Option<Seq<Seq<char>>>, set: Option<Set<Seq<char>>>) -> bool {
    match (tags, set) {
        (None, None) => true,
        (Some(t), Some(u)) => t.no_duplicates() && t.to_set() == u,
        _ => false,
    }
}

/// The tags given, each once.
fn dedup_tags(tags: &Option<Vec<String>>) -> (r: Option<Vec<String>>)
    ensures
        tags_as_set(crate::activity::opt_tags_view(r), tag_set_of(crate::activity::opt_tags_view(*tags))),
{
    match tags {
        None => None,
        Some(t) => Some(PaceTagCollection::from_texts(t).into_texts()),
    }
}

/// The activity that the `begin` command starts at `begin`, before it is stored.
pub open spec fn begun_activity(a: ActivityView, category: Option<Seq<char>>, description: Seq<char>, begin: PaceDateTime, tags: Option<Seq<Seq<char>>>) -> bool {
    &&& a.category == category
    &&& a.description == description
    &&& a.begin == begin
    &&& a.activity_end_options is None
    &&& a.kind == ActivityKind::Activity
    &&& a.activity_kind_options is None
    &&& tags_as_set(a.tags, tag_set_of(tags))
    &&& a.pomodoro_cycle_options is None
    &&& a.status == ActivityStatusKind::Created
}

/// What beginning an activity at `now` under `new_id` does: an error when the time
/// cannot be read or lies after `now`, changing nothing; else whatever runs ends at
/// `now` and the activity is stored in progress, with its tags each once.
pub open spec fn begin_outcome(
    opts: &BeginCommandOptions,
    before: Map<u128, ActivityView>,
    after: Map<u128, ActivityView>,
    r: PaceResult<ActivityItem>,
    now: PaceDateTime,
    new_id: ActivityGuid,
) -> bool {
    match crate::time::time_or_now_outcome(crate::time::opt_text(opts.at), now) {
        Err(_) => after == before && (r matches Err(PaceError(PaceErrorKind::ChronoParse(t))) && Some(t@) == crate::time::opt_text(opts.at)),
        Ok(t) => if t.0 > now.0 {
            after == before && r == Err::<ActivityItem, PaceError>(PaceError(PaceErrorKind::Time(crate::error::TimeErrorKind::StartTimeInFuture(t))))
        } else {
            exists|a: ActivityView| #[trigger] begun_activity(a, opt_string_view(opts.category), opts.description@, t, crate::activity::opt_tags_view(opts.tags)) && {
                let m1 = crate::storage::all_ended_at(before, now);
                let started = a.with_status(ActivityStatusKind::InProgress);
                if m1.contains_key(new_id.bits()) {
                    after == m1 && r == Err::<ActivityItem, PaceError>(crate::storage::log_error(ActivityLogErrorKind::ActivityIdAlreadyInUse(new_id)))
                } else {
                    after == m1.insert(new_id.bits(), started) && (r matches Ok(item) && crate::storage::item_is(item, (new_id, started)))
                }
            }
        },
    }
}

/// Options of the `begin` command.
#[derive(Debug)]
pub struct BeginCommandOptions {
    /// The category of the activity.
    pub category: Option<String>,
    /// The `HH:MM` time of today when the activity began; now when not given.
    pub at: Option<String>,
    /// The description of the activity.
    pub description: String,
    /// The tags of the activity.
    pub tags: Option<Vec<String>>,
}

impl BeginCommandOptions {
    /// Begins the activity at `now`, under the identifier `new_id`: an error when the
    /// time cannot be read or lies after `now`; else whatever runs ends at `now` and the
    /// activity is stored, in progress, with its tags each once.
    pub fn handle_begin_at(&self, storage: &mut InMemoryActivityStorage, now: PaceDateTime, new_id: ActivityGuid) -> (r: PaceResult<ActivityItem>)
        requires
            old(storage).wf(),
            now.date_fits(),
        ensures
            final(storage).wf(),
            begin_outcome(self, old(storage)@, final(storage)@, r, now, new_id),
    {
        let date_time = crate::time::extract_time_or_now_at(&self.at, now)?;
        let date_time = date_time.validate_future_at(now)?;
        let tags = dedup_tags(&self.tags);
        let activity = Activity {
            category: crate::activity::copy_opt_string(&self.category),
            description: self.description.clone(),
            begin: date_time,
            activity_end_options: None,
            kind: ActivityKind::Activity,
            activity_kind_options: None,
            tags,
            pomodoro_cycle_options: None,
            status: ActivityStatusKind::Created,
        };
        let ghost a = activity@;
        let r = storage.begin_activity_with_id(activity, now, new_id);
        proof {
            assert(begun_activity(a, opt_string_view(self.category), self.description@, date_time, crate::activity::opt_tags_view(self.tags)));
        }
        r
    }

    /// Begins the activity now, under a new identifier.
    pub fn handle_begin(&self, storage: &mut InMemoryActivityStorage) -> (r: PaceResult<ActivityItem>)
        requires
            old(storage).wf(),
        ensures
            final(storage).wf(),
            exists|now: PaceDateTime, new_id: ActivityGuid| now.is_clock_reading() && #[trigger] begin_outcome(self, old(storage)@, final(storage)@, r, now, new_id),
    {
        let now = PaceDateTime::now();
        let new_id = ActivityGuid::new();
        self.handle_begin_at(storage, now, new_id)
    }
}

/// What ending at the given time of the day of `now`, or at `now`, does: an error when
/// the time cannot be read, changing nothing; else every activity that is being tracked
/// ends then, and the ended activities come back in the order of their identifiers.
pub open spec fn end_outcome(
    opts: &EndCommandOptions,
    entries: Seq<LogEntry>,
    before: Map<u128, ActivityView>,
    after: Map<u128, ActivityView>,
    r: PaceOptResult<Vec<ActivityItem>>,
    now: PaceDateTime,
) -> bool {
    match crate::time::opt_text(opts.at) {
        Some(t) if crate::clock::chrono_hour_minute(t) is None => after == before
            && (r matches Err(PaceError(PaceErrorKind::Time(crate::error::TimeErrorKind::ParsingTimeFromUserInputFailed(e)))) && e@ == t),
        _ => {
            let end = match crate::time::time_or_now_outcome(crate::time::opt_text(opts.at), now) {
                Ok(t) => t,
                Err(_) => now,
            };
            let ks = keys_where(entries, ActivityFilterKind::Active);
            &&& after == crate::storage::ended_where(before, ActivityFilterKind::Active, end)
            &&& (ks.len() == 0 ==> r matches Ok(None))
            &&& (ks.len() > 0 ==> (r matches Ok(Some(items)) && items@.len() == ks.len()
                && forall|j: int| 0 <= j < items@.len() ==> (#[trigger] items@[j]).guid.bits() == ks[j]
                    && items@[j].activity@ == after[ks[j]]))
        },
    }
}

/// Options of the `end` command.
#[derive(Debug)]
pub struct EndCommandOptions {
    /// The `HH:MM` time of today when the activities end; now when not given.
    pub at: Option<String>,
}

impl EndCommandOptions {
    /// Ends every activity that is being tracked at the given time of the day of `now`,
    /// or at `now`; an error, changing nothing, when the time cannot be read.
    pub fn handle_end_at(&self, storage: &mut InMemoryActivityStorage, now: PaceDateTime) -> (r: PaceOptResult<Vec<ActivityItem>>)
        requires
            old(storage).wf(),
            now.date_fits(),
        ensures
            final(storage).wf(),
            end_outcome(self, old(storage).entries(), old(storage)@, final(storage)@, r, now),
    {
        let end_time = match crate::time::parse_time_from_user_input_at(&self.at, now)? {
            Some(t) => t,
            None => now,
        };
        storage.end_all_unfinished_activities(crate::options::EndOptions::new(end_time))
    }

    /// Ends every activity that is being tracked, at the given time of today or now.
    pub fn handle_end(&self, storage: &mut InMemoryActivityStorage) -> (r: PaceOptResult<Vec<ActivityItem>>)
        requires
            old(storage).wf(),
        ensures
            final(storage).wf(),
            exists|now: PaceDateTime| #[trigger] now.date_fits() && now.is_clock_reading() && end_outcome(self, old(storage).entries(), old(storage)@, final(storage)@, r, now),
    {
        let now = PaceDateTime::now();
        self.handle_end_at(storage, now)
    }
}

/// What to do with a running intermission: begin a new one, or extend it.
pub open spec fn action_for(new_if_exists: bool) -> crate::intermission::IntermissionAction {
    if new_if_exists {
        crate::intermission::IntermissionAction::New
    } else {
        crate::intermission::IntermissionAction::Extend
    }
}

/// What holding at the given time of the day of `now`, or at `now`, does: an error when
/// the time cannot be read or lies after `now`, changing nothing; `None` when nothing
/// is being tracked; else the most recent activity that is being tracked is held.
pub open spec fn hold_command_outcome(
    opts: &HoldCommandOptions,
    entries: Seq<LogEntry>,
    before: Map<u128, ActivityView>,
    after: Map<u128, ActivityView>,
    r: PaceOptResult<ActivityItem>,
    now: PaceDateTime,
) -> bool {
    match crate::time::time_or_now_outcome(crate::time::opt_text(opts.pause_at), now) {
        Err(_) => after == before && (r matches Err(PaceError(PaceErrorKind::ChronoParse(t))) && Some(t@) == crate::time::opt_text(opts.pause_at)),
        Ok(t) => if t.0 > now.0 {
            after == before && r == Err::<Option<ActivityItem>, PaceError>(PaceError(PaceErrorKind::Time(crate::error::TimeErrorKind::StartTimeInFuture(t))))
        } else {
            &&& (last_where(entries, |a: ActivityView| is_running_activity(a)) is None
                ==> after == before && r matches Ok(None))
            &&& (last_where(entries, |a: ActivityView| is_running_activity(a)) matches Some(i)
                ==> exists|new_id: ActivityGuid| {
                    let (m, res) = #[trigger] crate::storage::hold_outcome(
                        before,
                        ActivityGuid(crate::id::Guid(entries[i].0)),
                        action_for(opts.new_if_exists),
                        t,
                        opt_string_view(opts.reason),
                        new_id,
                    );
                    &&& after == m
                    &&& match res {
                        Ok(e) => r matches Ok(Some(item)) && crate::storage::item_is(item, e),
                        Err(e) => r == Err::<Option<ActivityItem>, PaceError>(e),
                    }
                })
        },
    }
}

/// Options of the `hold` command.
#[derive(Debug)]
pub struct HoldCommandOptions {
    /// The `HH:MM` time of today when the activity is held; now when not given.
    pub pause_at: Option<String>,
    /// Why the activity is held.
    pub reason: Option<String>,
    /// Begin a new intermission even if one runs already.
    pub new_if_exists: bool,
}

impl HoldCommandOptions {
    /// Holds the activity being tracked that is the most recent, from the given time of the
    /// day of `now` or from `now`: an error when the time cannot be read or lies after
    /// `now`; `None` when no activity is being tracked.
    pub fn handle_hold_at(&self, storage: &mut InMemoryActivityStorage, now: PaceDateTime) -> (r: PaceOptResult<ActivityItem>)
        requires
            old(storage).wf(),
            now.date_fits(),
        ensures
            final(storage).wf(),
            hold_command_outcome(self, old(storage).entries(), old(storage)@, final(storage)@, r, now),
    {
        let date_time = crate::time::extract_time_or_now_at(&self.pause_at, now)?;
        let date_time = date_time.validate_future_at(now)?;
        let action = crate::intermission::IntermissionAction::from_new(self.new_if_exists);
        let hold_opts = crate::options::HoldOptions::new(action, date_time, crate::activity::copy_opt_string(&self.reason));
        let ghost reason = opt_string_view(hold_opts.reason);
        assert(reason == opt_string_view(self.reason));
        let r = storage.hold_most_recent_active_activity(hold_opts);
        proof {
            assert(action == action_for(self.new_if_exists));
        }
        r
    }

    /// Holds the activity being tracked that is the most recent, from the given time of today
    /// or from now.
    pub fn handle_hold(&self, storage: &mut InMemoryActivityStorage) -> (r: PaceOptResult<ActivityItem>)
        requires
            old(storage).wf(),
        ensures
            final(storage).wf(),
            exists|now: PaceDateTime| #[trigger] now.date_fits() && now.is_clock_reading() && hold_command_outcome(self, old(storage).entries(), old(storage)@, final(storage)@, r, now),
    {
        let now = PaceDateTime::now();
        self.handle_hold_at(storage, now)
    }
}

/// Whether two optional texts are equal.
fn opt_str_eq(a: &Option<String>, b: &Option<String>) -> (r: bool)
    ensures
        r == (opt_string_view(*a) == opt_string_view(*b)),
{
    match (a, b) {
        (None, None) => true,
        (Some(x), Some(y)) => str_equals(x.as_str(), y.as_str()),
        _ => false,
    }
}

/// Whether every text of `v` is in the collection.
fn all_in(v: &Vec<String>, c: &PaceTagCollection) -> (r: bool)
    requires
        c.wf(),
    ensures
        r == strings_view(v@).to_set().subset_of(c@),
{
    let mut i: usize = 0;
    while i < v.len()
        invariant
            c.wf(),
            i <= v@.len(),
            forall|j: int| 0 <= j < i ==> c@.contains(#[trigger] v@[j]@),
        decreases v@.len() - i,
    {
        if !c.contains(v[i].as_str()) {
            proof {
                assert(strings_view(v@)[i as int] == v@[i as int]@);
                assert(strings_view(v@).to_set().contains(v@[i as int]@));
            }
            return false;
        }
        i = i + 1;
    }
    proof {
        assert forall|x: Seq<char>| strings_view(v@).to_set().contains(x) implies c@.contains(x) by {
            let j = choose|j: int| 0 <= j < strings_view(v@).len() && #[trigger] strings_view(v@)[j] == x;
            assert(strings_view(v@)[j] == v@[j]@);
        }
    }
    true
}

/// Whether two optional lists of tags hold the same tags.
fn tag_sets_eq(a: &Option<Vec<String>>, b: &Option<Vec<String>>) -> (r: bool)
    ensures
        r == (tag_set_of(crate::activity::opt_tags_view(*a)) == tag_set_of(crate::activity::opt_tags_view(*b))),
{
    match (a, b) {
        (None, None) => true,
        (Some(x), Some(y)) => {
            let cx = PaceTagCollection::from_texts(x);
            let cy = PaceTagCollection::from_texts(y);
            let r = all_in(x, &cy) && all_in(y, &cx);
            proof {
                if r {
                    assert(strings_view(x@).to_set() =~= strings_view(y@).to_set());
                }
            }
            r
        },
        _ => false,
    }
}

/// The tags of `existing` together with those of `added`, each once.
fn union_tags(existing: &Vec<String>, added: &Vec<String>) -> (r: Vec<String>)
    ensures
        strings_view(r@).no_duplicates(),
        strings_view(r@).to_set() == strings_view(existing@).to_set() + strings_view(added@).to_set(),
{
    let mut c = PaceTagCollection::from_texts(existing);
    let mut i: usize = 0;
    while i < added.len()
        invariant
            c.wf(),
            i <= added@.len(),
            c@ == strings_view(existing@).to_set() + strings_view(added@).take(i as int).to_set(),
        decreases added@.len() - i,
    {
        let ghost before = c@;
        let _ = c.insert(crate::category::PaceTag::new(added[i].as_str()));
        proof {
            let t = strings_view(added@);
            assert(t.take(i + 1) =~= t.take(i as int).push(t[i as int]));
            assert(t.take(i + 1).to_set() =~= t.take(i as int).to_set().insert(t[i as int])) by {
                let a1 = t.take(i as int);
                let a2 = t.take(i + 1);
                assert forall|x: Seq<char>| a2.to_set().contains(x) implies a1.to_set().insert(t[i as int]).contains(x) by {
                    let j = choose|j: int| 0 <= j < a2.len() && #[trigger] a2[j] == x;
                    if j < i {
                        assert(a1[j] == x);
                    }
                }
                assert forall|x: Seq<char>| a1.to_set().insert(t[i as int]).contains(x) implies a2.to_set().contains(x) by {
                    if x == t[i as int] {
                        assert(a2[i as int] == x);
                    } else {
                        let j = choose|j: int| 0 <= j < a1.len() && #[trigger] a1[j] == x;
                        assert(a2[j] == x);
                    }
                }
            }
            assert(c@ =~= strings_view(existing@).to_set() + t.take(i + 1).to_set());
        }
        i = i + 1;
    }
    proof {
        assert(strings_view(added@).take(added@.len() as int) =~= strings_view(added@));
    }
    c.into_texts()
}

/// `adj` is the activity `a` with the given adjustments: a new category, description,
/// begin, and tags that replace the tags of `a` or are added to them.
pub open spec fn adjusted_as(
    a: ActivityView,
    category: Option<Seq<char>>,
    description: Option<Seq<char>>,
    begin: Option<PaceDateTime>,
    tags: Option<Seq<Seq<char>>>,
    override_tags: bool,
    adj: ActivityView,
) -> bool {
    &&& adj.category == (match category {
        Some(c) => Some(c),
        None => a.category,
    })
    &&& adj.description == (match description {
        Some(d) => d,
        None => a.description,
    })
    &&& adj.begin == (match begin {
        Some(b) => b,
        None => a.begin,
    })
    &&& match tags {
        None => adj.tags == a.tags,
        Some(t) => tags_as_set(
            adj.tags,
            Some(
                if override_tags || a.tags is None {
                    t.to_set()
                } else {
                    a.tags.unwrap().to_set() + t.to_set()
                },
            ),
        ),
    }
    &&& adj.activity_end_options == a.activity_end_options
    &&& adj.kind == a.kind
    &&& adj.activity_kind_options == a.activity_kind_options
    &&& adj.pomodoro_cycle_options == a.pomodoro_cycle_options
    &&& adj.status == a.status
}

/// The time, if one was given.
pub open spec fn given_time(given: bool, t: PaceDateTime) -> Option<PaceDateTime> {
    if given {
        Some(t)
    } else {
        None
    }
}

/// Whether an adjustment changed the activity: its category, description, begin or
/// set of tags.
pub open spec fn adjustment_changes(a: ActivityView, adj: ActivityView) -> bool {
    a.category != adj.category || a.description != adj.description || a.begin != adj.begin
        || tag_set_of(a.tags) != tag_set_of(adj.tags)
}

/// What adjusting at `now` does: an error when the time cannot be read or lies after
/// `now`, or when nothing is being tracked, changing nothing; else the most recent activity
/// that is being tracked is stored with the adjustments, and the result tells whether
/// they changed it.
pub open spec fn adjust_outcome(
    opts: &AdjustCommandOptions,
    entries: Seq<LogEntry>,
    before: Map<u128, ActivityView>,
    after: Map<u128, ActivityView>,
    r: PaceResult<(ActivityItem, bool)>,
    now: PaceDateTime,
) -> bool {
    match crate::time::time_or_now_outcome(crate::time::opt_text(opts.start), now) {
        Err(_) => after == before && (r matches Err(PaceError(PaceErrorKind::ChronoParse(t))) && Some(t@) == crate::time::opt_text(opts.start)),
        Ok(t) => if t.0 > now.0 {
            after == before && r == Err::<(ActivityItem, bool), PaceError>(PaceError(PaceErrorKind::Time(crate::error::TimeErrorKind::StartTimeInFuture(t))))
        } else {
            match last_where(entries, |a: ActivityView| is_running_activity(a)) {
                None => after == before && r == Err::<(ActivityItem, bool), PaceError>(crate::storage::log_error(ActivityLogErrorKind::NoActiveActivityToAdjust)),
                Some(i) => {
                    let k = entries[i].0;
                    let a = entries[i].1;
                    exists|adj: ActivityView| #[trigger] adjusted_as(
                        a,
                        opt_string_view(opts.category),
                        opt_string_view(opts.description),
                        given_time(opts.start is Some, t),
                        crate::activity::opt_tags_view(opts.tags),
                        opts.override_tags,
                        adj,
                    ) && after == before.insert(k, adj) && (r matches Ok((item, changed))
                        && item.guid.bits() == k && item.activity@ == a && changed == adjustment_changes(a, adj))
                },
            }
        },
    }
}

/// Options of the `adjust` command.
#[derive(Debug)]
pub struct AdjustCommandOptions {
    /// The new category.
    pub category: Option<String>,
    /// The new description.
    pub description: Option<String>,
    /// The new `HH:MM` begin of today.
    pub start: Option<String>,
    /// Tags to add, or to replace the tags with.
    pub tags: Option<Vec<String>>,
    /// Replace the tags rather than add to them.
    pub override_tags: bool,
}

impl AdjustCommandOptions {
    /// Adjusts the activity being tracked that is the most recent, and stores it with
    /// its adjusted category, description, begin and tags. Returns the activity as it
    /// was and whether the adjustment changed it; an error when the time cannot be read
    /// or lies after `now`, or when no activity is being tracked.
    pub fn handle_adjust_at(&self, storage: &mut InMemoryActivityStorage, now: PaceDateTime) -> (r: PaceResult<(ActivityItem, bool)>)
        requires
            old(storage).wf(),
            now.date_fits(),
        ensures
            final(storage).wf(),
            adjust_outcome(self, old(storage).entries(), old(storage)@, final(storage)@, r, now),
    {
        let date_time = crate::time::extract_time_or_now_at(&self.start, now)?;
        let date_time = date_time.validate_future_at(now)?;
        let item = match storage.most_recent_active_activity()? {
            Some(item) => item,
            None => {
                return Err(PaceError(PaceErrorKind::ActivityLog(ActivityLogErrorKind::NoActiveActivityToAdjust)));
            },
        };
        proof {
            storage.lemma_wf();
            let s = storage.entries();
            let i = last_where(s, |a: ActivityView| is_running_activity(a)).unwrap();
            crate::activity_log::lemma_index_of(s, i);
        }
        let mut activity = item.activity.clone();
        if let Some(category) = &self.category {
            activity.category = Some(category.clone());
        }
        if let Some(description) = &self.description {
            activity.description = description.clone();
        }
        if self.start.is_some() {
            activity.begin = date_time;
        }
        if let Some(tags) = &self.tags {
            if self.override_tags {
                activity.tags = Some(PaceTagCollection::from_texts(tags).into_texts());
            } else {
                let merged = match &activity.tags {
                    None => PaceTagCollection::from_texts(tags).into_texts(),
                    Some(existing) => union_tags(existing, tags),
                };
                activity.tags = Some(merged);
            }
        }
        let ghost adj = activity@;
        let changed = !(opt_str_eq(&item.activity.category, &activity.category)
            && str_equals(item.activity.description.as_str(), activity.description.as_str())
            && item.activity.begin.0 == activity.begin.0
            && tag_sets_eq(&item.activity.tags, &activity.tags));
        let _ = storage.replace_activity(item.guid, activity)?;
        proof {
            assert(adjusted_as(
                item.activity@,
                opt_string_view(self.category),
                opt_string_view(self.description),
                given_time(self.start is Some, date_time),
                crate::activity::opt_tags_view(self.tags),
                self.override_tags,
                adj,
            ));
        }
        Ok((item, changed))
    }

    /// Adjusts the activity being tracked that is the most recent, as of now.
    pub fn handle_adjust(&self, storage: &mut InMemoryActivityStorage) -> (r: PaceResult<(ActivityItem, bool)>)
        requires
            old(storage).wf(),
        ensures
            final(storage).wf(),
            exists|now: PaceDateTime| #[trigger] now.date_fits() && now.is_clock_reading() && adjust_outcome(self, old(storage).entries(), old(storage)@, final(storage)@, r, now),
    {
        let now = PaceDateTime::now();
        self.handle_adjust_at(storage, now)
    }
}

/// Options of the `resume` command.
#[derive(Debug, Clone, Copy, PartialEq, Eq, Default)]
pub struct ResumeCommandOptions {
    /// The time of today when the activity resumes; the moment of resuming when not
    /// given.
    pub at: Option<PaceTime>,
    /// List the held activities to pick one from.
    pub list: bool,
}

impl ResumeCommandOptions {
    /// The options for resuming: at the given time of the day of `now`, or, without a
    /// time, at the moment of resuming.
    pub fn resume_options_at(&self, now: PaceDateTime) -> (o: ResumeOptions)
        requires
            now.date_fits(),
            self.at matches Some(t) ==> t.0 < SECS_PER_DAY,
        ensures
            o.resume_time == (match self.at {
                Some(t) => Some(PaceDateTime(at_day(now.spec_date().0, t.0 as int))),
                None => None,
            }),
    {
        match self.at {
            Some(t) => ResumeOptions { resume_time: Some(now.date().and_time(t)) },
            None => ResumeOptions { resume_time: None },
        }
    }
}

/// Options of the `settings` command.
#[derive(Debug, Clone, Copy, PartialEq, Eq, Default)]
pub struct SettingsCommandOptions {}

impl SettingsCommandOptions {
    /// Changing the settings from the command line is not offered yet: the answer says
    /// so.
    pub fn handle_settings(&self, _config: &PaceConfig) -> (r: PaceResult<UserMessage>)
        ensures
            r matches Ok(m) && m.msg@ == "Not implemented yet!"@,
    {
        proof {
            reveal_strlit("Not implemented yet!");
        }
        Ok(UserMessage::new(String::from_str("Not implemented yet!")))
    }
}

/// Options of the `review` command.
#[derive(Debug, Default)]
pub struct ReviewCommandOptions {
    /// Only activities of this kind.
    pub activity_kind: Option<ActivityKind>,
    /// Only activities of this category.
    pub category: Option<String>,
    /// Whether the category is compared case sensitively.
    pub case_sensitive: bool,
    /// How to show the review.
    pub output_format: Option<ReviewFormatKind>,
    /// Where to write the review.
    pub export_file: Option<PathBuf>,
    /// Flags for time periods.
    pub time_flags: TimeFlags,
    /// Flags for dates.
    pub date_flags: DateFlags,
    /// Flags for insights that take long.
    pub expensive_flags: ExpensiveFlags,
}

/// A copy of an optional text.
fn cloned_text(text: &Option<String>) -> (r: Option<String>)
    ensures
        r == *text,
{
    match text {
        Some(t) => Some(t.clone()),
        None => None,
    }
}

impl ReviewCommandOptions {
    /// The review of the time frame that the flags select, as of `now`.
    pub fn review_summary_at(&self, tracker: &ActivityTracker, now: PaceDateTime) -> (r: PaceOptResult<ReviewSummary>)
        requires
            tracker.store.wf(),
            now.date_fits(),
        ensures
            review_outcome(
                tracker.store,
                time_frame_from_flags(self.time_flags, self.date_flags, now.spec_date()),
                now,
                r,
            ),
            now.is_clock_reading() ==> time_frame_outcome(
                time_frame_from_flags(self.time_flags, self.date_flags, now.spec_date()),
                now,
            ) is Ok,
    {
        let time_frame = get_time_frame_from_flags_at(&self.time_flags, &self.date_flags, now.date())?;
        tracker.generate_review_summary_at(time_frame, now)
    }

    /// The review of the time frame that the flags select, as of the current time.
    pub fn review_summary(&self, tracker: &ActivityTracker) -> (r: PaceOptResult<ReviewSummary>)
        requires
            tracker.store.wf(),
        ensures
            exists|now: PaceDateTime|
                now.date_fits() && now.is_clock_reading() && time_frame_outcome(
                    time_frame_from_flags(self.time_flags, self.date_flags, now.spec_date()),
                    now,
                ) is Ok && #[trigger] review_outcome(
                    tracker.store,
                    time_frame_from_flags(self.time_flags, self.date_flags, now.spec_date()),
                    now,
                    r,
                ),
    {
        self.review_summary_at(tracker, PaceDateTime::now())
    }
}

impl From<&ReviewCommandOptions> for FilterOptions {
    fn from(opts: &ReviewCommandOptions) -> Self {
        FilterOptions { category: cloned_text(&opts.category), case_sensitive: opts.case_sensitive }
    }
}

impl vstd::std_specs::convert::FromSpecImpl<&ReviewCommandOptions> for FilterOptions {
    open spec fn obeys_from_spec() -> bool {
        true
    }

    open spec fn from_spec(v: &ReviewCommandOptions) -> Self {
        FilterOptions { category: v.category, case_sensitive: v.case_sensitive }
    }
}

/// Options of the `reflect` command.
#[derive(Debug, Default)]
pub struct ReflectCommandOptions {
    /// Only activities of this kind.
    pub activity_kind: Option<ActivityKind>,
    /// Only activities of this category.
    pub category: Option<String>,
    /// Whether the category is compared case sensitively.
    pub case_sensitive: bool,
    /// How to show the reflection.
    pub output_format: Option<ReflectionsFormatKind>,
    /// A template file of the user for the template format; the built-in one when
    /// not given.
    pub template_file: Option<PathBuf>,
    /// Where to write the reflection.
    pub export_file: Option<PathBuf>,
    /// Flags for time periods.
    pub time_flags: TimeFlags,
    /// Flags for dates.
    pub date_flags: DateFlags,
    /// Flags for insights that take long.
    pub expensive_flags: ExpensiveFlags,
}

impl ReflectCommandOptions {
    /// The reflection on the time frame that the flags select, as of `now`.
    pub fn reflection_at(&self, tracker: &ActivityTracker, now: PaceDateTime) -> (r: PaceOptResult<ReflectionSummary>)
        requires
            tracker.store.wf(),
            now.date_fits(),
        ensures
            reflection_outcome(
                tracker.store,
                time_frame_from_flags(self.time_flags, self.date_flags, now.spec_date()),
                now,
                r,
            ),
            now.is_clock_reading() ==> time_frame_outcome(
                time_frame_from_flags(self.time_flags, self.date_flags, now.spec_date()),
                now,
            ) is Ok,
    {
        let time_frame = get_time_frame_from_flags_at(&self.time_flags, &self.date_flags, now.date())?;
        tracker.generate_reflection_at(time_frame, now)
    }

    /// The reflection on the time frame that the flags select, as of the current time.
    pub fn reflection(&self, tracker: &ActivityTracker) -> (r: PaceOptResult<ReflectionSummary>)
        requires
            tracker.store.wf(),
        ensures
            exists|now: PaceDateTime|
                now.date_fits() && now.is_clock_reading() && time_frame_outcome(
                    time_frame_from_flags(self.time_flags, self.date_flags, now.spec_date()),
                    now,
                ) is Ok && #[trigger] reflection_outcome(
                    tracker.store,
                    time_frame_from_flags(self.time_flags, self.date_flags, now.spec_date()),
                    now,
                    r,
                ),
    {
        self.reflection_at(tracker, PaceDateTime::now())
    }
}

impl From<&ReflectCommandOptions> for FilterOptions {
    fn from(opts: &ReflectCommandOptions) -> Self {
        FilterOptions { category: cloned_text(&opts.category), case_sensitive: opts.case_sensitive }
    }
}

impl vstd::std_specs::convert::FromSpecImpl<&ReflectCommandOptions> for FilterOptions {
    open spec fn obeys_from_spec() -> bool {
        true
    }

    open spec fn from_spec(v: &ReflectCommandOptions) -> Self {
        FilterOptions { category: v.category, case_sensitive: v.case_sensitive }
    }
}

} // verus!
