//! Keeping activities in memory, and the rules for beginning, ending, holding and
//! resuming them.

use vstd::prelude::*;

use crate::activity::{Activity, ActivityItem, ActivityView};
use crate::activity::{ActivityKind, ActivityKindOptions, opt_string_view};
use crate::activity_log::{
    guid_bits, has_intermission_of, intermission_keys_for, keys_where, lemma_index_of,
    lemma_intermission_keys_for, lemma_keys_where, map_of, strictly_increasing, ActivityLog,
    LogEntry,
};
use crate::intermission::IntermissionAction;
use crate::options::{HoldOptions, ResumeOptions};
use crate::status::ActivityStatusKind;
use crate::error::{ActivityLogErrorKind, PaceError, PaceErrorKind, PaceOptResult, PaceResult};
use crate::filter::{filter_matches, ActivityFilterKind, FilteredActivities};
use crate::id::ActivityGuid;
use crate::options::{DeleteOptions, EndOptions, UpdateOptions};
use crate::time::{calculate_duration, PaceDateTime};

verus! {

/// The error of the activity log with the given kind.
pub open spec fn log_error(kind: ActivityLogErrorKind) -> PaceError {
    PaceError(PaceErrorKind::ActivityLog(kind))
}

/// The activities after those that pass a filter ended at `end`.
pub open spec fn ended_where(
    m: Map<u128, ActivityView>,
    f: ActivityFilterKind,
    end: PaceDateTime,
) -> Map<u128, ActivityView> {
    Map::new(
        |k: u128| m.contains_key(k),
        |k: u128|
            if filter_matches(f, m[k]) {
                m[k].ended_at(end)
            } else {
                m[k]
            },
    )
}

/// An activity that is being tracked and is no intermission.
pub open spec fn is_running_activity(a: ActivityView) -> bool {
    a.is_in_progress() && !a.is_active_intermission()
}

/// An activity that is held.
pub open spec fn is_held_activity(a: ActivityView) -> bool {
    a.is_paused()
}

/// `i` is the last position of the log whose activity satisfies `p`: in the order of
/// the identifiers, which grow with the time of creation, the most recent one.
pub open spec fn is_last_where(s: Seq<LogEntry>, p: spec_fn(ActivityView) -> bool, i: int) -> bool {
    &&& 0 <= i < s.len()
    &&& p(s[i].1)
    &&& forall|j: int| i < j < s.len() ==> !p(#[trigger] s[j].1)
}

/// The last position of the log whose activity satisfies `p`, if there is one.
pub open spec fn last_where(s: Seq<LogEntry>, p: spec_fn(ActivityView) -> bool) -> Option<int> {
    if exists|i: int| is_last_where(s, p, i) {
        Some(choose|i: int| is_last_where(s, p, i))
    } else {
        None
    }
}

/// The last position is unique, and there is none exactly when no activity satisfies `p`.
pub proof fn lemma_last_where(s: Seq<LogEntry>, p: spec_fn(ActivityView) -> bool)
    ensures
        forall|i: int| is_last_where(s, p, i) ==> last_where(s, p) == Some(i),
        last_where(s, p) is None <==> forall|j: int| 0 <= j < s.len() ==> !p(#[trigger] s[j].1),
        last_where(s, p) matches Some(i) ==> is_last_where(s, p, i),
{
    assert forall|i: int| is_last_where(s, p, i) implies last_where(s, p) == Some(i) by {
        let c = choose|i: int| is_last_where(s, p, i);
        assert(is_last_where(s, p, c));
        if c < i {
            assert(!p(s[i].1));
        } else if i < c {
            assert(!p(s[c].1));
        }
    }
    if exists|j: int| 0 <= j < s.len() && p(s[j].1) {
        let j = choose|j: int| 0 <= j < s.len() && p(s[j].1);
        lemma_last_exists(s, p, j);
    }
}

/// If some activity satisfies `p`, a last one does.
proof fn lemma_last_exists(s: Seq<LogEntry>, p: spec_fn(ActivityView) -> bool, j: int)
    requires
        0 <= j < s.len(),
        p(s[j].1),
    ensures
        exists|i: int| is_last_where(s, p, i),
    decreases s.len() - j,
{
    if exists|k: int| j < k < s.len() && p(s[k].1) {
        let k = choose|k: int| j < k < s.len() && p(s[k].1);
        lemma_last_exists(s, p, k);
    } else {
        assert(is_last_where(s, p, j));
    }
}

/// Storage that can be written to a lasting medium.
pub trait SyncStorage {
    /// Writes the storage to its medium.
    fn sync(&self) -> PaceResult<()>;
}

/// What every storage of activities offers: reading, writing, querying and managing
/// the state of activities, and writing them to a lasting medium.
pub trait ActivityStorage: ActivityReadOps + ActivityWriteOps + ActivityStateManagement + SyncStorage + ActivityQuerying {
    /// Prepares the storage; called once when the application starts.
    fn setup_storage(&self) -> PaceResult<()>;
}

/// Reading activities from a storage.
pub trait ActivityReadOps {
    /// The storage is well formed.
    spec fn wf(&self) -> bool;

    /// The activity with the given identifier.
    fn read_activity(&self, activity_id: ActivityGuid) -> (r: PaceResult<ActivityItem>)
        requires
            self.wf(),
    ;

    /// The identifiers of the activities that pass a filter; `None` when no activity
    /// does.
    fn list_activities(&self, filter: ActivityFilterKind) -> (r: PaceOptResult<FilteredActivities>)
        requires
            self.wf(),
    ;
}

/// Creating, updating and deleting activities in a storage.
pub trait ActivityWriteOps: ActivityReadOps {
    /// Stores an activity under a new identifier.
    fn create_activity(&mut self, activity: Activity) -> (r: PaceResult<ActivityItem>)
        requires
            old(self).wf(),
        ensures
            final(self).wf(),
    ;

    /// Updates an activity and returns it as it was before.
    fn update_activity(
        &mut self,
        activity_id: ActivityGuid,
        updated_activity: Activity,
        update_opts: UpdateOptions,
    ) -> (r: PaceResult<ActivityItem>)
        requires
            old(self).wf(),
        ensures
            final(self).wf(),
    ;

    /// Removes an activity and returns it.
    fn delete_activity(&mut self, activity_id: ActivityGuid, delete_opts: DeleteOptions) -> (r: PaceResult<ActivityItem>)
        requires
            old(self).wf(),
        ensures
            final(self).wf(),
    ;
}

/// Finding activities in a storage by what they are and how they stand.
pub trait ActivityQuerying: ActivityReadOps {
    /// The activities that are being tracked; `None` when there are none.
    fn list_current_activities(&self) -> (r: PaceOptResult<Vec<ActivityGuid>>)
        requires
            self.wf(),
    ;

    /// All activities by their identifiers; `None` when there are none.
    fn list_activities_by_id(&self) -> (r: PaceOptResult<ActivityLog>)
        requires
            self.wf(),
    ;

    /// The intermissions that are running; `None` when there are none.
    fn list_active_intermissions(&self) -> (r: PaceOptResult<Vec<ActivityGuid>>)
        requires
            self.wf(),
    ;

    /// The most recent activities, at most `count` of them; `None` when there are none.
    fn list_most_recent_activities(&self, count: usize) -> (r: PaceOptResult<Vec<ActivityGuid>>)
        requires
            self.wf(),
    ;

    /// Whether an activity is being tracked.
    fn is_activity_active(&self, activity_id: ActivityGuid) -> (r: PaceResult<bool>)
        requires
            self.wf(),
    ;

    /// The intermissions of an activity that are running; `None` when there are none.
    fn list_active_intermissions_for_activity_id(&self, activity_id: ActivityGuid) -> (r: PaceOptResult<Vec<ActivityGuid>>)
        requires
            self.wf(),
    ;

    /// The activity being tracked that is the most recent; `None` when there is none.
    fn most_recent_active_activity(&self) -> (r: PaceOptResult<ActivityItem>)
        requires
            self.wf(),
    ;

    /// The held activity that is the most recent; `None` when there is none.
    fn most_recent_held_activity(&self) -> (r: PaceOptResult<ActivityItem>)
        requires
            self.wf(),
    ;
}

/// Beginning, ending, holding and resuming activities in a storage.
pub trait ActivityStateManagement: ActivityReadOps + ActivityWriteOps + ActivityQuerying {
    /// Begins an activity, ending those that were being tracked.
    fn begin_activity(&mut self, activity: Activity) -> (r: PaceResult<ActivityItem>)
        requires
            old(self).wf(),
        ensures
            final(self).wf(),
    ;

    /// Ends an activity.
    fn end_activity(&mut self, activity_id: ActivityGuid, end_opts: EndOptions) -> (r: PaceResult<ActivityItem>)
        requires
            old(self).wf(),
        ensures
            final(self).wf(),
    ;

    /// Ends the activity being tracked that is the most recent; `None` when there is none.
    fn end_last_unfinished_activity(&mut self, end_opts: EndOptions) -> (r: PaceOptResult<ActivityItem>)
        requires
            old(self).wf(),
        ensures
            final(self).wf(),
    ;

    /// Ends every activity that has not ended; `None` when there is none.
    fn end_all_unfinished_activities(&mut self, end_opts: EndOptions) -> (r: PaceOptResult<Vec<ActivityItem>>)
        requires
            old(self).wf(),
        ensures
            final(self).wf(),
    ;

    /// Holds the activity being tracked that is the most recent; `None` when there is none.
    fn hold_most_recent_active_activity(&mut self, hold_opts: HoldOptions) -> (r: PaceOptResult<ActivityItem>)
        requires
            old(self).wf(),
        ensures
            final(self).wf(),
    ;

    /// Ends every running intermission; `None` when there is none.
    fn end_all_active_intermissions(&mut self, end_opts: EndOptions) -> (r: PaceOptResult<Vec<ActivityGuid>>)
        requires
            old(self).wf(),
        ensures
            final(self).wf(),
    ;

    /// Resumes a held activity.
    fn resume_activity(&mut self, activity_id: ActivityGuid, resume_opts: ResumeOptions) -> (r: PaceResult<ActivityItem>)
        requires
            old(self).wf(),
        ensures
            final(self).wf(),
    ;

    /// Holds an activity that is being tracked.
    fn hold_activity(&mut self, activity_id: ActivityGuid, hold_opts: HoldOptions) -> (r: PaceResult<ActivityItem>)
        requires
            old(self).wf(),
        ensures
            final(self).wf(),
    ;

    /// Resumes the held activity that is the most recent; `None` when there is none.
    fn resume_most_recent_activity(&mut self, resume_opts: ResumeOptions) -> (r: PaceOptResult<ActivityItem>)
        requires
            old(self).wf(),
        ensures
            final(self).wf(),
    ;
}

/// Activities kept in memory.
#[derive(Debug)]
pub struct InMemoryActivityStorage {
    log: ActivityLog,
}

impl InMemoryActivityStorage {
    /// The activities by their identifiers.
    pub closed spec fn view(&self) -> Map<u128, ActivityView> {
        self.log@
    }

    /// The entries, in the order of their identifiers.
    pub closed spec fn entries(&self) -> Seq<LogEntry> {
        self.log.entries()
    }

    /// A well formed storage holds its entries in strictly increasing order of their
    /// identifiers, and its activities are those of its entries.
    pub proof fn lemma_wf(&self)
        requires
            self.wf(),
        ensures
            strictly_increasing(self.entries()),
            self@ == map_of(self.entries()),
    {
    }

    /// Empty storage.
    pub fn new() -> (s: Self)
        ensures
            s.wf(),
            s@ == Map::<u128, ActivityView>::empty(),
    {
        InMemoryActivityStorage { log: ActivityLog::new() }
    }

    /// Storage that holds the activities of a log.
    pub fn new_with_activity_log(activity_log: ActivityLog) -> (s: Self)
        requires
            activity_log.wf(),
        ensures
            s.wf(),
            s@ == activity_log@,
            s.entries() == activity_log.entries(),
    {
        InMemoryActivityStorage { log: activity_log }
    }

    /// A copy of the activity log.
    pub fn get_activity_log(&self) -> (r: PaceResult<ActivityLog>)
        requires
            self.wf(),
        ensures
            r matches Ok(log) && log.wf() && log@ == self@ && log.entries() == self.entries(),
    {
        Ok(self.log.copy())
    }

    /// Stores an activity under the given identifier; an error when the identifier is
    /// already in use.
    pub fn create_activity_with_id(&mut self, id: ActivityGuid, activity: Activity) -> (r: PaceResult<ActivityItem>)
        requires
            old(self).wf(),
        ensures
            final(self).wf(),
            old(self)@.contains_key(id.bits()) ==> r == Err::<ActivityItem, PaceError>(
                log_error(ActivityLogErrorKind::ActivityIdAlreadyInUse(id)),
            ) && final(self)@ == old(self)@,
            !old(self)@.contains_key(id.bits()) ==> (r matches Ok(item) && item.guid == id
                && item.activity@ == activity@) && final(self)@ == old(self)@.insert(id.bits(), activity@),
    {
        if self.log.contains_key(id) {
            return Err(PaceError(PaceErrorKind::ActivityLog(ActivityLogErrorKind::ActivityIdAlreadyInUse(id))));
        }
        let stored = activity.clone();
        self.log.insert(id, stored);
        Ok(ActivityItem { guid: id, activity })
    }

    /// Stores `activity` in place of the activity with the given identifier, all of its
    /// fields, and returns the activity as it was before; an error when there is no
    /// such activity.
    pub fn replace_activity(&mut self, activity_id: ActivityGuid, activity: Activity) -> (r:
        PaceResult<ActivityItem>)
        requires
            old(self).wf(),
        ensures
            final(self).wf(),
            old(self)@.contains_key(activity_id.bits()) ==> (r matches Ok(item) && item.guid
                == activity_id && item.activity@ == old(self)@[activity_id.bits()]) && final(self)@
                == old(self)@.insert(activity_id.bits(), activity@),
            !old(self)@.contains_key(activity_id.bits()) ==> r == Err::<ActivityItem, PaceError>(
                log_error(ActivityLogErrorKind::ActivityNotFound(activity_id)),
            ) && final(self)@ == old(self)@,
    {
        match self.log.get(activity_id) {
            None => Err(PaceError(PaceErrorKind::ActivityLog(ActivityLogErrorKind::ActivityNotFound(activity_id)))),
            Some(stored) => {
                let previous = stored.clone();
                self.log.insert(activity_id, activity);
                Ok(ActivityItem { guid: activity_id, activity: previous })
            },
        }
    }

    /// Ends every activity that passes a filter, in the order of their identifiers, and
    /// returns them as they are afterwards.
    fn end_all_where(&mut self, filter: ActivityFilterKind, end_opts: EndOptions) -> (r: Vec<ActivityItem>)
        requires
            old(self).wf(),
        ensures
            final(self).wf(),
            final(self)@ == ended_where(old(self)@, filter, end_opts.end_time),
            r@.len() == keys_where(old(self).entries(), filter).len(),
            forall|j: int|
                0 <= j < r@.len() ==> (#[trigger] r@[j]).guid.bits() == keys_where(
                    old(self).entries(),
                    filter,
                )[j] && r@[j].activity@ == final(self)@[r@[j].guid.bits()],
    {
        let ids = self.log.keys_matching(filter);
        let ghost m0 = self@;
        let ghost ks = keys_where(self.entries(), filter);
        proof {
            lemma_keys_where(self.entries(), filter);
        }
        let mut ended: Vec<ActivityItem> = Vec::new();
        let mut i: usize = 0;
        while i < ids.len()
            invariant
                self.wf(),
                i <= ids@.len(),
                guid_bits(ids@) == ks,
                forall|a: int, b: int| 0 <= a < b < ks.len() ==> ks[a] < ks[b],
                forall|k: u128|
                    #[trigger] ks.contains(k) <==> (m0.contains_key(k) && filter_matches(
                        filter,
                        m0[k],
                    )),
                self@.dom() == m0.dom(),
                forall|k: u128|
                    #[trigger] self@.contains_key(k) ==> self@[k] == (if ks.take(i as int).contains(
                        k,
                    ) {
                        m0[k].ended_at(end_opts.end_time)
                    } else {
                        m0[k]
                    }),
                ended@.len() == i,
                forall|j: int|
                    0 <= j < i ==> (#[trigger] ended@[j]).guid.bits() == ks[j] && ended@[j].activity@
                        == self@[ks[j]],
            decreases ids@.len() - i,
        {
            let id = ids[i];
            let ghost before = self@;
            proof {
                assert(ks[i as int] == id.bits());
                assert(ks.contains(id.bits()));
                assert(!ks.take(i as int).contains(id.bits())) by {
                    if ks.take(i as int).contains(id.bits()) {
                        let j = choose|j: int| 0 <= j < i && #[trigger] ks.take(i as int)[j] == id.bits();
                        assert(ks[j] < ks[i as int]);
                    }
                }
            }
            let item = self.end_activity(id, end_opts);
            let item = match item {
                Ok(it) => it,
                Err(e) => {
                    proof {
                        assert(false);
                    }
                    return ended;
                },
            };
            proof {
                assert forall|k: u128| #[trigger] self@.contains_key(k) implies self@[k] == (if ks.take(
                    i + 1,
                ).contains(k) {
                    m0[k].ended_at(end_opts.end_time)
                } else {
                    m0[k]
                }) by {
                    if k == id.bits() {
                        assert(ks.take(i + 1)[i as int] == k);
                    } else {
                        assert(ks.take(i + 1).contains(k) == ks.take(i as int).contains(k)) by {
                            if ks.take(i + 1).contains(k) {
                                let j = choose|j: int| 0 <= j < i + 1 && #[trigger] ks.take(i + 1)[j] == k;
                                assert(ks.take(i as int)[j] == k);
                            }
                            if ks.take(i as int).contains(k) {
                                let j = choose|j: int| 0 <= j < i && #[trigger] ks.take(i as int)[j] == k;
                                assert(ks.take(i + 1)[j] == k);
                            }
                        }
                    }
                }
                assert forall|j: int| 0 <= j < i implies ended@[j].activity@ == self@[ks[j]] by {
                    assert(ks[j] != id.bits());
                }
            }
            ended.push(item);
            i = i + 1;
        }
        proof {
            assert(ks.take(i as int) =~= ks);
            assert(self@ =~= ended_where(m0, filter, end_opts.end_time));
        }
        ended
    }

    /// The last activity, in the order of the identifiers, that satisfies `p`: the most
    /// recent one.
    fn last_activity_where(&self, running: bool) -> (r: Option<ActivityItem>)
        requires
            self.wf(),
        ensures
            ({
                let p = if running {
                    |a: ActivityView| is_running_activity(a)
                } else {
                    |a: ActivityView| is_held_activity(a)
                };
                match last_where(self.entries(), p) {
                    Some(i) => r matches Some(item) && item.guid.bits() == self.entries()[i].0
                        && item.activity@ == self.entries()[i].1,
                    None => r is None,
                }
            }),
    {
        let ghost p = if running {
            |a: ActivityView| is_running_activity(a)
        } else {
            |a: ActivityView| is_held_activity(a)
        };
        let ghost s = self.entries();
        proof {
            lemma_last_where(s, p);
        }
        let ids = self.log.identifiers();
        let n = ids.len();
        let mut i: usize = n;
        while i > 0
            invariant
                self.wf(),
                ids@ == self.log.keys(),
                s == self.entries(),
                n == s.len(),
                i <= n,
                forall|j: int| i <= j < n ==> !p(#[trigger] s[j].1),
                p == (if running {
                    |a: ActivityView| is_running_activity(a)
                } else {
                    |a: ActivityView| is_held_activity(a)
                }),
            decreases i,
        {
            i = i - 1;
            let (guid, activity) = self.log.entry_at(&ids, i);
            let hit = if running {
                activity.is_in_progress() && !activity.is_active_intermission()
            } else {
                activity.is_paused()
            };
            if hit {
                proof {
                    assert(is_last_where(s, p, i as int));
                    lemma_last_where(s, p);
                }
                return Some(ActivityItem { guid, activity: activity.clone() });
            }
        }
        None
    }

}

/// The intermission that holding the activity `parent` (with identifier `parent_id`)
/// begins: it belongs to the same category, is described by the reason for the hold or
/// else like its parent, and runs from the begin of the hold.
pub open spec fn intermission_for(
    parent: ActivityView,
    parent_id: ActivityGuid,
    begin: PaceDateTime,
    reason: Option<Seq<char>>,
) -> ActivityView {
    ActivityView {
        category: parent.category,
        description: match reason {
            Some(r) => r,
            None => parent.description,
        },
        begin,
        activity_end_options: None,
        kind: ActivityKind::Intermission,
        activity_kind_options: Some(ActivityKindOptions { parent_id: Some(parent_id) }),
        tags: None,
        pomodoro_cycle_options: None,
        status: ActivityStatusKind::InProgress,
    }
}

/// The outcome of holding an activity: the activities afterwards and the result.
pub open spec fn hold_outcome(
    m: Map<u128, ActivityView>,
    activity_id: ActivityGuid,
    action: IntermissionAction,
    begin: PaceDateTime,
    reason: Option<Seq<char>>,
    new_id: ActivityGuid,
) -> (Map<u128, ActivityView>, Result<(ActivityGuid, ActivityView), PaceError>) {
    let k = activity_id.bits();
    if !m.contains_key(k) {
        (m, Err(log_error(ActivityLogErrorKind::ActivityNotFound(activity_id))))
    } else if !m[k].is_in_progress() {
        (m, Err(log_error(ActivityLogErrorKind::NoActiveActivityFound(activity_id))))
    } else if has_intermission_of(m, activity_id) && action == IntermissionAction::Extend {
        (m, Ok((activity_id, m[k])))
    } else {
        let m1 = ended_where(m, ActivityFilterKind::ActiveIntermission, begin);
        if m1.contains_key(new_id.bits()) {
            (m1, Err(log_error(ActivityLogErrorKind::ActivityIdAlreadyInUse(new_id))))
        } else {
            let held = m[k].with_status(ActivityStatusKind::Paused);
            (
                m1.insert(new_id.bits(), intermission_for(m[k], activity_id, begin, reason)).insert(
                    k,
                    held,
                ),
                Ok((activity_id, held)),
            )
        }
    }
}

/// The outcome of resuming an activity at `end`: the activities afterwards and the result.
pub open spec fn resume_outcome(
    m: Map<u128, ActivityView>,
    activity_id: ActivityGuid,
    end: PaceDateTime,
) -> (Map<u128, ActivityView>, Result<(ActivityGuid, ActivityView), PaceError>) {
    let k = activity_id.bits();
    if !m.contains_key(k) {
        (m, Err(log_error(ActivityLogErrorKind::ActivityNotFound(activity_id))))
    } else if !m[k].is_paused() {
        (m, Err(log_error(ActivityLogErrorKind::NoHeldActivityFound(activity_id))))
    } else {
        let m1 = ended_where(m, ActivityFilterKind::ActiveIntermission, end);
        (m1.insert(k, m[k].with_status(ActivityStatusKind::InProgress)), Ok((activity_id, m[k])))
    }
}

/// The activities after ending everything that runs at `now`.
pub open spec fn all_ended_at(m: Map<u128, ActivityView>, now: PaceDateTime) -> Map<
    u128,
    ActivityView,
> {
    ended_where(
        ended_where(m, ActivityFilterKind::Active, now),
        ActivityFilterKind::ActiveIntermission,
        now,
    )
}

/// Whether an item is the given identifier with the given activity.
pub open spec fn item_is(item: ActivityItem, expected: (ActivityGuid, ActivityView)) -> bool {
    item.guid == expected.0 && item.activity@ == expected.1
}

/// Whether a result of the storage is the expected one.
pub open spec fn result_is(
    r: PaceResult<ActivityItem>,
    expected: Result<(ActivityGuid, ActivityView), PaceError>,
) -> bool {
    match expected {
        Ok(e) => r matches Ok(item) && item_is(item, e),
        Err(e) => r == Err::<ActivityItem, PaceError>(e),
    }
}

impl InMemoryActivityStorage {
    /// Whether some running intermission of `activity_id` exists.
    fn has_intermission_for(&self, activity_id: ActivityGuid) -> (b: bool)
        requires
            self.wf(),
        ensures
            b == has_intermission_of(self@, activity_id),
    {
        proof {
            lemma_intermission_keys_for(self.entries(), activity_id);
        }
        let ids = self.log.intermissions_of(activity_id);
        ids.len() > 0
    }

    /// Holds a running activity from the begin time of `hold_opts` on, under the
    /// identifier `new_id` for its intermission: running intermissions end, a new
    /// intermission begins and the activity is paused. When the activity already has a
    /// running intermission and the intermission is to be extended, nothing changes.
    pub fn hold_activity_with_id(
        &mut self,
        activity_id: ActivityGuid,
        hold_opts: HoldOptions,
        new_id: ActivityGuid,
    ) -> (r: PaceResult<ActivityItem>)
        requires
            old(self).wf(),
        ensures
            final(self).wf(),
            ({
                let (m, res) = hold_outcome(
                    old(self)@,
                    activity_id,
                    hold_opts.action,
                    hold_opts.begin_time,
                    opt_string_view(hold_opts.reason),
                    new_id,
                );
                final(self)@ == m && result_is(r, res)
            }),
    {
        let ghost m = self@;
        let active_activity = self.read_activity(activity_id)?;
        if !active_activity.activity.is_in_progress() {
            return Err(PaceError(PaceErrorKind::ActivityLog(ActivityLogErrorKind::NoActiveActivityFound(activity_id))));
        } else if active_activity.activity.is_completed() {
            return Err(PaceError(PaceErrorKind::ActivityLog(ActivityLogErrorKind::ActivityAlreadyEnded(activity_id))));
        } else if active_activity.activity.is_archived() {
            return Err(PaceError(PaceErrorKind::ActivityLog(ActivityLogErrorKind::ActivityAlreadyArchived(activity_id))));
        }
        if self.has_intermission_for(activity_id) && hold_opts.action.is_extend() {
            return Ok(active_activity);
        }
        let _ = self.end_all_active_intermissions(EndOptions::from_hold(&hold_opts))?;
        let ghost m1 = self@;
        let parent = &active_activity.activity;
        let description = match hold_opts.reason {
            Some(reason) => reason,
            None => parent.description.clone(),
        };
        let intermission = Activity {
            category: crate::activity::copy_opt_string(&parent.category),
            description,
            begin: hold_opts.begin_time,
            activity_end_options: None,
            kind: ActivityKind::Intermission,
            activity_kind_options: Some(ActivityKindOptions::with_parent_id(activity_id)),
            tags: None,
            pomodoro_cycle_options: None,
            status: ActivityStatusKind::InProgress,
        };
        let _created = self.create_activity_with_id(new_id, intermission)?;
        let ghost m2 = self@;
        let mut held = active_activity.activity.clone();
        held.status = ActivityStatusKind::Paused;
        let held_copy = held.clone();
        let _ = self.update_activity(activity_id, held, UpdateOptions {})?;
        proof {
            let k = activity_id.bits();
            assert(m1.contains_key(k));
            assert(m1[k].kind == m[k].kind && m1[k].begin == m[k].begin);
            assert(m2[k] == m1[k]);
            assert(m2[k].merged(held_copy@) == m[k].with_status(ActivityStatusKind::Paused));
        }
        Ok(ActivityItem { guid: activity_id, activity: held_copy })
    }

    /// Resumes a held activity at the resume time of `resume_opts`, or at `now` when
    /// none is given: running intermissions end and the activity is in progress again.
    /// Returns the activity as it was before.
    pub fn resume_activity_at(
        &mut self,
        activity_id: ActivityGuid,
        resume_opts: ResumeOptions,
        now: PaceDateTime,
    ) -> (r: PaceResult<ActivityItem>)
        requires
            old(self).wf(),
        ensures
            final(self).wf(),
            ({
                let end = match resume_opts.resume_time {
                    Some(t) => t,
                    None => now,
                };
                let (m, res) = resume_outcome(old(self)@, activity_id, end);
                final(self)@ == m && result_is(r, res)
            }),
    {
        let ghost m = self@;
        let resumable_activity = self.read_activity(activity_id)?;
        if !resumable_activity.activity.is_paused() {
            return Err(PaceError(PaceErrorKind::ActivityLog(ActivityLogErrorKind::NoHeldActivityFound(activity_id))));
        } else if resumable_activity.activity.is_in_progress() {
            return Err(PaceError(PaceErrorKind::ActivityLog(ActivityLogErrorKind::ActiveActivityFound(activity_id))));
        } else if resumable_activity.activity.is_completed() {
            return Err(PaceError(PaceErrorKind::ActivityLog(ActivityLogErrorKind::ActivityAlreadyEnded(activity_id))));
        } else if resumable_activity.activity.is_archived() {
            return Err(PaceError(PaceErrorKind::ActivityLog(ActivityLogErrorKind::ActivityAlreadyArchived(activity_id))));
        }
        let _ = self.end_all_active_intermissions(EndOptions::from_resume_at(&resume_opts, now))?;
        let ghost m1 = self@;
        let mut resumed = resumable_activity.activity.clone();
        resumed.status = ActivityStatusKind::InProgress;
        let _ = self.update_activity(activity_id, resumed, UpdateOptions {})?;
        proof {
            let k = activity_id.bits();
            assert(m1[k] == m[k]);
        }
        Ok(resumable_activity)
    }

    /// Begins an activity at `now` under the identifier `new_id`: everything that runs
    /// ends at `now`, and the activity is stored in progress.
    pub fn begin_activity_with_id(
        &mut self,
        activity: Activity,
        now: PaceDateTime,
        new_id: ActivityGuid,
    ) -> (r: PaceResult<ActivityItem>)
        requires
            old(self).wf(),
        ensures
            final(self).wf(),
            ({
                let m1 = all_ended_at(old(self)@, now);
                let started = activity@.with_status(ActivityStatusKind::InProgress);
                if m1.contains_key(new_id.bits()) {
                    final(self)@ == m1 && r == Err::<ActivityItem, PaceError>(
                        log_error(ActivityLogErrorKind::ActivityIdAlreadyInUse(new_id)),
                    )
                } else {
                    final(self)@ == m1.insert(new_id.bits(), started) && (r matches Ok(item)
                        && item_is(item, (new_id, started)))
                }
            }),
    {
        let _ = self.end_all_unfinished_activities(EndOptions::new(now))?;
        let _ = self.end_all_active_intermissions(EndOptions::new(now))?;
        let mut activity = activity;
        activity.make_active();
        self.create_activity_with_id(new_id, activity)
    }

}

impl ActivityReadOps for InMemoryActivityStorage {
    /// The storage is well formed.
    closed spec fn wf(&self) -> bool {
        self.log.wf()
    }

    /// The activity with the given identifier.
    fn read_activity(&self, activity_id: ActivityGuid) -> (r: PaceResult<ActivityItem>)
        ensures
            self@.contains_key(activity_id.bits()) ==> (r matches Ok(item) && item.guid
                == activity_id && item.activity@ == self@[activity_id.bits()]),
            !self@.contains_key(activity_id.bits()) ==> r == Err::<ActivityItem, PaceError>(
                log_error(ActivityLogErrorKind::ActivityNotFound(activity_id)),
            ),
    {
        match self.log.get(activity_id) {
            Some(activity) => Ok(ActivityItem { guid: activity_id, activity: activity.clone() }),
            None => Err(PaceError(PaceErrorKind::ActivityLog(ActivityLogErrorKind::ActivityNotFound(activity_id)))),
        }
    }

    /// The identifiers, in increasing order, of the activities that pass a filter;
    /// `None` when no activity does.
    fn list_activities(&self, filter: ActivityFilterKind) -> (r: PaceOptResult<FilteredActivities>)
        ensures
            keys_where(self.entries(), filter).len() == 0 ==> r matches Ok(None),
            keys_where(self.entries(), filter).len() > 0 ==> (r matches Ok(Some(fa))
                && fa.tagged_with(filter) && guid_bits(fa.ids()) == keys_where(self.entries(), filter)),
    {
        let filtered = self.log.keys_matching(filter);
        if filtered.len() == 0 {
            return Ok(None);
        }
        Ok(Some(FilteredActivities::tag(filter, filtered)))
    }
}

impl ActivityWriteOps for InMemoryActivityStorage {
    /// Stores an activity under a new identifier; an error when that identifier
    /// happens to be in use already.
    fn create_activity(&mut self, activity: Activity) -> (r: PaceResult<ActivityItem>)
        ensures
            final(self).wf(),
            r matches Ok(item) ==> !old(self)@.contains_key(item.guid.bits()) && item.activity@
                == activity@ && final(self)@ == old(self)@.insert(item.guid.bits(), activity@),
            r matches Err(e) ==> final(self)@ == old(self)@ && exists|id: ActivityGuid|
                old(self)@.contains_key(#[trigger] id.bits()) && e == log_error(
                    ActivityLogErrorKind::ActivityIdAlreadyInUse(id),
                ),
    {
        let id = ActivityGuid::new();
        self.create_activity_with_id(id, activity)
    }

    /// Replaces every field of an activity but its kind and its begin with those of
    /// `updated_activity`, and returns the activity as it was before.
    fn update_activity(
        &mut self,
        activity_id: ActivityGuid,
        updated_activity: Activity,
        update_opts: UpdateOptions,
    ) -> (r: PaceResult<ActivityItem>)
        ensures
            final(self).wf(),
            old(self)@.contains_key(activity_id.bits()) ==> (r matches Ok(item) && item.guid
                == activity_id && item.activity@ == old(self)@[activity_id.bits()]) && final(self)@
                == old(self)@.insert(
                activity_id.bits(),
                old(self)@[activity_id.bits()].merged(updated_activity@),
            ),
            !old(self)@.contains_key(activity_id.bits()) ==> r == Err::<ActivityItem, PaceError>(
                log_error(ActivityLogErrorKind::ActivityNotFound(activity_id)),
            ) && final(self)@ == old(self)@,
    {
        let _ = update_opts;
        match self.log.get(activity_id) {
            None => Err(PaceError(PaceErrorKind::ActivityLog(ActivityLogErrorKind::ActivityNotFound(activity_id)))),
            Some(stored) => {
                let previous = stored.clone();
                let mut merged = previous.clone();
                merged.merge(updated_activity);
                self.log.insert(activity_id, merged);
                Ok(ActivityItem { guid: activity_id, activity: previous })
            },
        }
    }

    /// Removes an activity and returns it.
    fn delete_activity(&mut self, activity_id: ActivityGuid, delete_opts: DeleteOptions) -> (r:
        PaceResult<ActivityItem>)
        ensures
            final(self).wf(),
            old(self)@.contains_key(activity_id.bits()) ==> (r matches Ok(item) && item.guid
                == activity_id && item.activity@ == old(self)@[activity_id.bits()]) && final(self)@
                == old(self)@.remove(activity_id.bits()),
            !old(self)@.contains_key(activity_id.bits()) ==> r == Err::<ActivityItem, PaceError>(
                log_error(ActivityLogErrorKind::ActivityNotFound(activity_id)),
            ) && final(self)@ == old(self)@,
    {
        let _ = delete_opts;
        match self.log.remove(activity_id) {
            None => Err(PaceError(PaceErrorKind::ActivityLog(ActivityLogErrorKind::ActivityNotFound(activity_id)))),
            Some(activity) => Ok(ActivityItem { guid: activity_id, activity }),
        }
    }
}

impl ActivityQuerying for InMemoryActivityStorage {
    /// The activities being tracked, in the order of their identifiers; `None` when
    /// there is none.
    fn list_current_activities(&self) -> (r: PaceOptResult<Vec<ActivityGuid>>)
        ensures
            keys_where(self.entries(), ActivityFilterKind::Active).len() == 0 ==> r matches Ok(None),
            keys_where(self.entries(), ActivityFilterKind::Active).len() > 0 ==> (r matches Ok(Some(ids))
                && guid_bits(ids@) == keys_where(self.entries(), ActivityFilterKind::Active)),
    {
        match self.list_activities(ActivityFilterKind::Active)? {
            None => Ok(None),
            Some(fa) => Ok(Some(fa.into_vec())),
        }
    }

    /// A copy of all activities; `None` when there is none.
    fn list_activities_by_id(&self) -> (r: PaceOptResult<ActivityLog>)
        ensures
            self.entries().len() == 0 ==> r matches Ok(None),
            self.entries().len() > 0 ==> (r matches Ok(Some(log)) && log.wf() && log@ == self@
                && log.entries() == self.entries()),
    {
        let log = self.log.copy();
        if log.is_empty() {
            return Ok(None);
        }
        Ok(Some(log))
    }

    /// The running intermissions, in the order of their identifiers; `None` when there is none.
    fn list_active_intermissions(&self) -> (r: PaceOptResult<Vec<ActivityGuid>>)
        ensures
            keys_where(self.entries(), ActivityFilterKind::ActiveIntermission).len() == 0 ==> r matches Ok(None),
            keys_where(self.entries(), ActivityFilterKind::ActiveIntermission).len() > 0 ==> (r matches Ok(Some(ids))
                && guid_bits(ids@) == keys_where(self.entries(), ActivityFilterKind::ActiveIntermission)),
    {
        match self.list_activities(ActivityFilterKind::ActiveIntermission)? {
            None => Ok(None),
            Some(fa) => Ok(Some(fa.into_vec())),
        }
    }

    /// The `count` greatest identifiers, those of the most recent activities, in
    /// increasing order; all of them when there are fewer; `None` when the storage is
    /// empty.
    fn list_most_recent_activities(&self, count: usize) -> (r: PaceOptResult<Vec<ActivityGuid>>)
        ensures
            keys_where(self.entries(), ActivityFilterKind::Everything).len() == 0 ==> r matches Ok(None),
            keys_where(self.entries(), ActivityFilterKind::Everything).len() > 0 ==> (r matches Ok(Some(ids))
                && guid_bits(ids@) == keys_where(self.entries(), ActivityFilterKind::Everything).skip(
                if count < keys_where(self.entries(), ActivityFilterKind::Everything).len() {
                    keys_where(self.entries(), ActivityFilterKind::Everything).len() - count
                } else {
                    0
                },
            )),
    {
        let filtered = match self.list_activities(ActivityFilterKind::Everything)? {
            None => {
                return Ok(None);
            },
            Some(fa) => fa.into_vec(),
        };
        // the identifiers come in increasing order already
        if filtered.len() > count {
            let start: usize = filtered.len() - count;
            let mut taken: Vec<ActivityGuid> = Vec::new();
            let mut i: usize = start;
            while i < filtered.len()
                invariant
                    start <= i <= filtered@.len(),
                    start == filtered@.len() - count,
                    taken@ == filtered@.subrange(start as int, i as int),
                decreases filtered@.len() - i,
            {
                taken.push(filtered[i]);
                proof {
                    assert(filtered@.subrange(start as int, i + 1) =~= filtered@.subrange(start as int, i as int).push(filtered@[i as int]));
                }
                i = i + 1;
            }
            proof {
                assert(guid_bits(taken@) =~= guid_bits(filtered@).skip(start as int));
            }
            Ok(Some(taken))
        } else {
            proof {
                assert(guid_bits(filtered@).skip(0) =~= guid_bits(filtered@));
            }
            Ok(Some(filtered))
        }
    }

    /// Whether the activity is being tracked.
    fn is_activity_active(&self, activity_id: ActivityGuid) -> (r: PaceResult<bool>)
        ensures
            self@.contains_key(activity_id.bits()) ==> r == Ok::<bool, PaceError>(self@[activity_id.bits()].is_in_progress()),
            !self@.contains_key(activity_id.bits()) ==> r == Err::<bool, PaceError>(
                log_error(ActivityLogErrorKind::ActivityNotFound(activity_id)),
            ),
    {
        let activity = self.read_activity(activity_id)?;
        Ok(activity.activity.is_in_progress())
    }

    /// The running intermissions of the activity `activity_id`, in the order of their
    /// identifiers; `None` when no intermission runs at all.
    fn list_active_intermissions_for_activity_id(&self, activity_id: ActivityGuid) -> (r:
        PaceOptResult<Vec<ActivityGuid>>)
        ensures
            keys_where(self.entries(), ActivityFilterKind::ActiveIntermission).len() == 0 ==> r matches Ok(None),
            keys_where(self.entries(), ActivityFilterKind::ActiveIntermission).len() > 0 ==> (r matches Ok(Some(ids))
                && guid_bits(ids@) == intermission_keys_for(self.entries(), activity_id)),
    {
        proof {
            lemma_keys_where(self.entries(), ActivityFilterKind::ActiveIntermission);
            lemma_intermission_keys_for(self.entries(), activity_id);
        }
        match self.list_active_intermissions()? {
            None => Ok(None),
            Some(_) => Ok(Some(self.log.intermissions_of(activity_id))),
        }
    }

    /// The activity being tracked that is the most recent, the last in the order of the identifiers,
    /// intermissions left out.
    fn most_recent_active_activity(&self) -> (r: PaceOptResult<ActivityItem>)
        ensures
            match last_where(self.entries(), |a: ActivityView| is_running_activity(a)) {
                Some(i) => r matches Ok(Some(item)) && item.guid.bits() == self.entries()[i].0
                    && item.activity@ == self.entries()[i].1,
                None => r matches Ok(None),
            },
    {
        Ok(self.last_activity_where(true))
    }

    /// The held activity that is the most recent, the last in the order of the identifiers.
    fn most_recent_held_activity(&self) -> (r: PaceOptResult<ActivityItem>)
        ensures
            match last_where(self.entries(), |a: ActivityView| is_held_activity(a)) {
                Some(i) => r matches Ok(Some(item)) && item.guid.bits() == self.entries()[i].0
                    && item.activity@ == self.entries()[i].1,
                None => r matches Ok(None),
            },
    {
        Ok(self.last_activity_where(false))
    }
}

impl ActivityStateManagement for InMemoryActivityStorage {
    /// Begins an activity now, under a new identifier.
    fn begin_activity(&mut self, activity: Activity) -> (r: PaceResult<ActivityItem>)
        ensures
            final(self).wf(),
            exists|now: PaceDateTime, new_id: ActivityGuid|
                {
                    let m1 = #[trigger] all_ended_at(old(self)@, now);
                    let started = activity@.with_status(ActivityStatusKind::InProgress);
                    &&& now.is_clock_reading()
                    &&& !m1.contains_key(#[trigger] new_id.bits()) ==> final(self)@ == m1.insert(
                        new_id.bits(),
                        started,
                    ) && (r matches Ok(item) && item_is(item, (new_id, started)))
                    &&& m1.contains_key(new_id.bits()) ==> final(self)@ == m1 && r
                        == Err::<ActivityItem, PaceError>(
                        log_error(ActivityLogErrorKind::ActivityIdAlreadyInUse(new_id)),
                    )
                },
    {
        let ghost a = activity@;
        let now = PaceDateTime::now();
        let new_id = ActivityGuid::new();
        let r = self.begin_activity_with_id(activity, now, new_id);
        proof {
            let _ = all_ended_at(old(self)@, now);
            let _ = new_id.bits();
        }
        r
    }

    /// Ends an activity at the end time of `end_opts`, with the duration since its
    /// begin; an activity that would end before it began stays as it is. Returns the
    /// activity as it is afterwards.
    fn end_activity(&mut self, activity_id: ActivityGuid, end_opts: EndOptions) -> (r:
        PaceResult<ActivityItem>)
        ensures
            final(self).wf(),
            old(self)@.contains_key(activity_id.bits()) ==> final(self)@ == old(self)@.insert(
                activity_id.bits(),
                old(self)@[activity_id.bits()].ended_at(end_opts.end_time),
            ) && (r matches Ok(item) && item.guid == activity_id
                && item.activity@ == final(self)@[activity_id.bits()]),
            !old(self)@.contains_key(activity_id.bits()) ==> r == Err::<ActivityItem, PaceError>(
                log_error(ActivityLogErrorKind::ActivityNotFound(activity_id)),
            ) && final(self)@ == old(self)@,
    {
        match self.log.get(activity_id) {
            None => Err(PaceError(PaceErrorKind::ActivityLog(ActivityLogErrorKind::ActivityNotFound(activity_id)))),
            Some(stored) => {
                let mut activity = stored.clone();
                match calculate_duration(&activity.begin, end_opts.end_time) {
                    Ok(duration) => {
                        activity.end_activity(
                            crate::activity::ActivityEndOptions::new(end_opts.end_time, duration),
                        );
                        self.log.insert(activity_id, activity);
                    },
                    Err(_) => {
                        // An activity cannot end before it began: it stays as it is.
                        proof {
                            assert(self@ =~= old(self)@.insert(
                                activity_id.bits(),
                                old(self)@[activity_id.bits()].ended_at(end_opts.end_time),
                            ));
                        }
                    },
                }
                self.read_activity(activity_id)
            },
        }
    }

    /// Ends the activity being tracked that is the most recent in the order of the
    /// identifiers; `None` when no activity is being tracked.
    fn end_last_unfinished_activity(&mut self, end_opts: EndOptions) -> (r: PaceOptResult<
        ActivityItem,
    >)
        ensures
            final(self).wf(),
            match last_where(old(self).entries(), |a: ActivityView| is_running_activity(a)) {
                Some(i) => {
                    let k = old(self).entries()[i].0;
                    &&& final(self)@ == old(self)@.insert(k, old(self)@[k].ended_at(end_opts.end_time))
                    &&& r matches Ok(Some(item)) && item.guid.bits() == k && item.activity@
                        == final(self)@[k]
                },
                None => final(self)@ == old(self)@ && r matches Ok(None),
            },
    {
        let most_recent = match self.most_recent_active_activity()? {
            None => {
                return Ok(None);
            },
            Some(item) => item,
        };
        proof {
            let s = self.entries();
            let i = last_where(s, |a: ActivityView| is_running_activity(a)).unwrap();
            lemma_index_of(s, i);
        }
        let activity = self.end_activity(most_recent.guid, end_opts)?;
        Ok(Some(activity))
    }

    /// Ends every activity that is being tracked, intermissions included; `None` when
    /// there is none.
    fn end_all_unfinished_activities(&mut self, end_opts: EndOptions) -> (r: PaceOptResult<Vec<ActivityItem>>)
        ensures
            final(self).wf(),
            final(self)@ == ended_where(old(self)@, ActivityFilterKind::Active, end_opts.end_time),
            keys_where(old(self).entries(), ActivityFilterKind::Active).len() == 0 ==> r matches Ok(None),
            keys_where(old(self).entries(), ActivityFilterKind::Active).len() > 0 ==> (r matches Ok(Some(items))
                && items@.len() == keys_where(old(self).entries(), ActivityFilterKind::Active).len()
                && forall|j: int|
                0 <= j < items@.len() ==> (#[trigger] items@[j]).guid.bits() == keys_where(
                    old(self).entries(),
                    ActivityFilterKind::Active,
                )[j] && items@[j].activity@ == final(self)@[items@[j].guid.bits()]),
    {
        let ended = self.end_all_where(ActivityFilterKind::Active, end_opts);
        if ended.len() == 0 {
            return Ok(None);
        }
        Ok(Some(ended))
    }

    /// Holds the activity being tracked that is the most recent in the order of the
    /// identifiers; `None` when no activity is being tracked.
    fn hold_most_recent_active_activity(&mut self, hold_opts: HoldOptions) -> (r: PaceOptResult<
        ActivityItem,
    >)
        ensures
            final(self).wf(),
            last_where(old(self).entries(), |a: ActivityView| is_running_activity(a)) is None
                ==> final(self)@ == old(self)@ && r matches Ok(None),
            last_where(old(self).entries(), |a: ActivityView| is_running_activity(a)) matches Some(i)
                ==> exists|new_id: ActivityGuid|
                {
                    let (m, res) = #[trigger] hold_outcome(
                        old(self)@,
                        ActivityGuid(crate::id::Guid(old(self).entries()[i].0)),
                        hold_opts.action,
                        hold_opts.begin_time,
                        opt_string_view(hold_opts.reason),
                        new_id,
                    );
                    &&& final(self)@ == m
                    &&& match res {
                        Ok(e) => r matches Ok(Some(item)) && item_is(item, e),
                        Err(e) => r == Err::<Option<ActivityItem>, PaceError>(e),
                    }
                },
    {
        let active = match self.most_recent_active_activity()? {
            None => {
                return Ok(None);
            },
            Some(item) => item,
        };
        let held = self.hold_activity(active.guid, hold_opts)?;
        Ok(Some(held))
    }

    /// Ends every running intermission; `None` when there is none.
    fn end_all_active_intermissions(&mut self, end_opts: EndOptions) -> (r: PaceOptResult<
        Vec<ActivityGuid>,
    >)
        ensures
            final(self).wf(),
            final(self)@ == ended_where(
                old(self)@,
                ActivityFilterKind::ActiveIntermission,
                end_opts.end_time,
            ),
            keys_where(old(self).entries(), ActivityFilterKind::ActiveIntermission).len() == 0
                ==> r matches Ok(None),
            keys_where(old(self).entries(), ActivityFilterKind::ActiveIntermission).len() > 0
                ==> (r matches Ok(Some(ids)) && guid_bits(ids@) == keys_where(
                old(self).entries(),
                ActivityFilterKind::ActiveIntermission,
            )),
    {
        let ended = self.end_all_where(ActivityFilterKind::ActiveIntermission, end_opts);
        if ended.len() == 0 {
            return Ok(None);
        }
        let mut ids: Vec<ActivityGuid> = Vec::new();
        let mut i: usize = 0;
        while i < ended.len()
            invariant
                i <= ended@.len(),
                ids@.len() == i,
                forall|j: int| 0 <= j < i ==> #[trigger] ids@[j] == ended@[j].guid,
            decreases ended@.len() - i,
        {
            ids.push(ended[i].guid);
            i = i + 1;
        }
        proof {
            let ks = keys_where(old(self).entries(), ActivityFilterKind::ActiveIntermission);
            assert(guid_bits(ids@) =~= ks);
        }
        Ok(Some(ids))
    }

    /// Resumes a held activity at the resume time of `resume_opts` or now.
    fn resume_activity(&mut self, activity_id: ActivityGuid, resume_opts: ResumeOptions) -> (r:
        PaceResult<ActivityItem>)
        ensures
            final(self).wf(),
            exists|end: PaceDateTime|
                {
                    let (m, res) = #[trigger] resume_outcome(old(self)@, activity_id, end);
                    &&& resume_opts.resume_time matches Some(t) ==> end == t
                    &&& resume_opts.resume_time is None ==> end.is_clock_reading()
                    &&& final(self)@ == m
                    &&& result_is(r, res)
                },
    {
        let now = PaceDateTime::now();
        let r = self.resume_activity_at(activity_id, resume_opts, now);
        proof {
            let end = match resume_opts.resume_time {
                Some(t) => t,
                None => now,
            };
            let _ = resume_outcome(old(self)@, activity_id, end);
        }
        r
    }

    /// Holds a running activity, with a new identifier for its intermission.
    fn hold_activity(&mut self, activity_id: ActivityGuid, hold_opts: HoldOptions) -> (r:
        PaceResult<ActivityItem>)
        ensures
            final(self).wf(),
            exists|new_id: ActivityGuid|
                {
                    let (m, res) = #[trigger] hold_outcome(
                        old(self)@,
                        activity_id,
                        hold_opts.action,
                        hold_opts.begin_time,
                        opt_string_view(hold_opts.reason),
                        new_id,
                    );
                    final(self)@ == m && result_is(r, res)
                },
    {
        let ghost reason = opt_string_view(hold_opts.reason);
        let ghost action = hold_opts.action;
        let ghost begin = hold_opts.begin_time;
        let new_id = ActivityGuid::new();
        let r = self.hold_activity_with_id(activity_id, hold_opts, new_id);
        proof {
            let _ = hold_outcome(old(self)@, activity_id, action, begin, reason, new_id);
        }
        r
    }

    /// Resumes the held activity that is the most recent, the last in the order of the identifiers;
    /// `None` when no activity is held.
    fn resume_most_recent_activity(&mut self, resume_opts: ResumeOptions) -> (r: PaceOptResult<
        ActivityItem,
    >)
        ensures
            final(self).wf(),
            last_where(old(self).entries(), |a: ActivityView| is_held_activity(a)) is None
                ==> final(self)@ == old(self)@ && r matches Ok(None),
            last_where(old(self).entries(), |a: ActivityView| is_held_activity(a)) matches Some(i)
                ==> exists|end: PaceDateTime|
                {
                    let (m, res) = #[trigger] resume_outcome(
                        old(self)@,
                        ActivityGuid(crate::id::Guid(old(self).entries()[i].0)),
                        end,
                    );
                    &&& resume_opts.resume_time matches Some(t) ==> end == t
                    &&& resume_opts.resume_time is None ==> end.is_clock_reading()
                    &&& final(self)@ == m
                    &&& match res {
                        Ok(e) => r matches Ok(Some(item)) && item_is(item, e),
                        Err(e) => r == Err::<Option<ActivityItem>, PaceError>(e),
                    }
                },
    {
        let held = match self.most_recent_held_activity()? {
            None => {
                return Ok(None);
            },
            Some(item) => item,
        };
        let resumed = self.resume_activity(held.guid, resume_opts)?;
        Ok(Some(resumed))
    }
}

impl SyncStorage for InMemoryActivityStorage {
    /// Nothing needs to be synchronized for storage in memory.
    fn sync(&self) -> (r: PaceResult<()>)
        ensures
            r is Ok,
    {
        Ok(())
    }
}

impl ActivityStorage for InMemoryActivityStorage {
    /// Nothing needs to be set up for storage in memory.
    fn setup_storage(&self) -> (r: PaceResult<()>)
        ensures
            r is Ok,
    {
        Ok(())
    }
}

} // verus!
