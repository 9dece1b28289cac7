//! The activity store: a storage of activities together with the summaries that
//! reflections are made of.

use vstd::prelude::*;

use crate::activity::{ActivityItem, ActivityKind, ActivityView};
use crate::activity_log::{entries_of, LogEntry};
use crate::category::{
    category_split, split_category_by_category_separator, DEFAULT_CATEGORY_SEPARATOR, UNCATEGORIZED,
};
use crate::error::{PaceError, PaceErrorKind, PaceOptResult, PaceResult};
use crate::id::{ActivityGuid, Guid};
use crate::storage::{
    ActivityQuerying, ActivityReadOps, ActivityStorage, InMemoryActivityStorage, SyncStorage,
};
use crate::summary::{
    items_duration, minus_or_zero, summaries_add, wrapped, ActivityGroup, ActivitySession,
    summaries_breaks, summaries_duration, CategoryKey, GroupFacts, ReflectionSummary, SummaryFacts,
    SummaryGroupByCategory,
};
use crate::review::{review_add, ReviewGroupFacts, ReviewSummaryFacts};
use crate::time::{time_frame_outcome, PaceDateTime, PaceTimeFrame, TimeRangeOptions};

verus! {

/// An activity, not an intermission or a task, that begins in the range.
pub open spec fn summarized(a: ActivityView, range: TimeRangeOptions) -> bool {
    &&& a.kind == ActivityKind::Activity
    &&& range.start.0 <= a.begin.0
    &&& a.begin.0 <= range.end.0
}

/// An intermission of the activity `parent`, running or ended.
pub open spec fn belongs_to(a: ActivityView, parent: u128) -> bool {
    a.kind == ActivityKind::Intermission && a.parent_id() == Some(ActivityGuid(Guid(parent)))
}

/// The recorded durations of the activities of entries, added up.
pub open spec fn entries_duration(es: Seq<LogEntry>) -> int
    decreases es.len(),
{
    if es.len() == 0 {
        0
    } else {
        entries_duration(es.drop_last()) + es.last().1.duration_or_zero().0
    }
}

/// The entries of the intermissions of the activity with identifier `parent`, in order.
pub open spec fn intermissions_in(s: Seq<LogEntry>, parent: u128) -> Seq<LogEntry> {
    s.filter(|e: LogEntry| belongs_to(e.1, parent))
}

/// The category and subcategory under which an activity is summarized: its category,
/// or `Uncategorized`, split at `::`; an empty subcategory when there is none.
pub open spec fn summary_key(a: ActivityView) -> CategoryKey {
    let c = match a.category {
        Some(c) => c,
        None => UNCATEGORIZED@,
    };
    let (cat, sub) = category_split(c, DEFAULT_CATEGORY_SEPARATOR@);
    (
        cat,
        match sub {
            Some(t) => t,
            None => Seq::empty(),
        },
    )
}

/// What the summary knows of the group of the activity of entry `e`: its description,
/// its duration without the intermissions, the duration and number of intermissions;
/// the group is made of the activity alone and holds no list of sessions.
pub open spec fn group_facts(s: Seq<LogEntry>, e: LogEntry) -> GroupFacts {
    let total = entries_duration(intermissions_in(s, e.0));
    GroupFacts {
        description: e.1.description,
        adjusted: minus_or_zero(e.1.duration_or_zero().0 as int, total),
        breaks: wrapped(total),
        count: intermissions_in(s, e.0).len() as int,
        sessions: 0,
    }
}

/// The summaries of the entries `todo`, each added in turn under its key.
pub open spec fn summaries_over(s: Seq<LogEntry>, todo: Seq<LogEntry>) -> Seq<(CategoryKey, SummaryFacts)>
    decreases todo.len(),
{
    if todo.len() == 0 {
        Seq::empty()
    } else {
        summaries_add(
            summaries_over(s, todo.drop_last()),
            summary_key(todo.last().1),
            group_facts(s, todo.last()),
        )
    }
}

/// The entries that a reflection on the range summarizes, in order.
pub open spec fn summarized_in(s: Seq<LogEntry>, range: TimeRangeOptions) -> Seq<LogEntry> {
    s.filter(|e: LogEntry| summarized(e.1, range))
}

/// Durations of items and of their entries add up alike.
proof fn lemma_items_duration(items: Seq<ActivityItem>)
    ensures
        items_duration(items) == entries_duration(entries_of(items)),
    decreases items.len(),
{
    if items.len() > 0 {
        lemma_items_duration(items.drop_last());
        assert(entries_of(items.drop_last()) =~= entries_of(items).drop_last());
    }
}

/// The category under which a review summarizes an activity: its category, or
/// `Uncategorized`.
pub open spec fn review_key(a: ActivityView) -> Seq<char> {
    match a.category {
        Some(c) => c,
        None => UNCATEGORIZED@,
    }
}

/// What a review knows of the group of the activity of entry `e`: its description and
/// its duration without the intermissions.
pub open spec fn review_group_facts(s: Seq<LogEntry>, e: LogEntry) -> ReviewGroupFacts {
    ReviewGroupFacts {
        description: e.1.description,
        root: e,
        intermissions: intermissions_in(s, e.0),
        adjusted: minus_or_zero(e.1.duration_or_zero().0 as int, entries_duration(intermissions_in(s, e.0))),
    }
}

/// The review summaries of the entries `todo`, each added in turn to its category.
pub open spec fn reviews_over(s: Seq<LogEntry>, todo: Seq<LogEntry>) -> Seq<(Seq<char>, ReviewSummaryFacts)>
    decreases todo.len(),
{
    if todo.len() == 0 {
        Seq::empty()
    } else {
        review_add(reviews_over(s, todo.drop_last()), review_key(todo.last().1), review_group_facts(s, todo.last()))
    }
}

/// The storage of activities, as the application uses it.
#[derive(Debug)]
pub struct ActivityStore {
    storage: InMemoryActivityStorage,
}

impl ActivityStore {
    /// The storage is well formed.
    pub closed spec fn wf(&self) -> bool {
        self.storage.wf()
    }

    /// The storage.
    pub closed spec fn spec_storage(&self) -> InMemoryActivityStorage {
        self.storage
    }

    /// A store over a storage, which is set up first.
    pub fn with_storage(storage: InMemoryActivityStorage) -> (r: PaceResult<Self>)
        requires
            storage.wf(),
        ensures
            r matches Ok(store) && store.wf() && store.spec_storage() == storage,
    {
        storage.setup_storage()?;
        Ok(ActivityStore { storage })
    }

    /// The storage.
    pub fn storage(&self) -> (r: &InMemoryActivityStorage)
        ensures
            *r == self.spec_storage(),
    {
        &self.storage
    }

    /// The storage, to change it.
    pub fn storage_mut(&mut self) -> (r: &mut InMemoryActivityStorage)
        ensures
            *r == old(self).spec_storage(),
            final(self).spec_storage() == *final(r),
    {
        &mut self.storage
    }

    /// The storage, given back.
    pub fn into_storage(self) -> (r: InMemoryActivityStorage)
        ensures
            r == self.spec_storage(),
    {
        self.storage
    }

    /// The summaries by category of the activities that begin in the range, each with
    /// its intermissions; `None` when no activity begins in the range.
    pub fn reflection_groups_by_category_for_time_range(&self, time_range_opts: TimeRangeOptions) -> (r:
        PaceOptResult<SummaryGroupByCategory>)
        requires
            self.wf(),
        ensures
            ({
                let s = self.spec_storage().entries();
                let todo = summarized_in(s, time_range_opts);
                &&& (todo.len() == 0 ==> r matches Ok(None))
                &&& (todo.len() > 0 ==> (r matches Ok(Some(m)) && m.wf() && m@ == summaries_over(s, todo)))
            }),
    {
        let ghost s = self.storage.entries();
        let log = self.storage.get_activity_log()?;
        let ids = log.identifiers();
        let n = ids.len();
        let mut summaries = SummaryGroupByCategory::new();
        let mut found: usize = 0;
        let mut i: usize = 0;
        proof {
            reveal(Seq::filter);
            assert(summarized_in(s.take(0), time_range_opts) =~= Seq::<LogEntry>::empty());
        }
        while i < n
            invariant
                log.wf(),
                log.entries() == s,
                ids@ == log.keys(),
                n == s.len(),
                i <= n,
                summaries.wf(),
                found == summarized_in(s.take(i as int), time_range_opts).len(),
                summaries@ == summaries_over(s, summarized_in(s.take(i as int), time_range_opts)),
            decreases n - i,
        {
            proof {
                reveal(Seq::filter);
                let t = s.take(i + 1);
                assert(t.drop_last() =~= s.take(i as int));
                assert(t.last() == s[i as int]);
                assert(summarized_in(t, time_range_opts) == if summarized(s[i as int].1, time_range_opts) {
                    summarized_in(s.take(i as int), time_range_opts).push(s[i as int])
                } else {
                    summarized_in(s.take(i as int), time_range_opts)
                });
            }
            let (guid, a) = log.entry_at(&ids, i);
            if a.kind.is_activity() && time_range_opts.start.0 <= a.begin.0 && a.begin.0
                <= time_range_opts.end.0 {
                let ghost e = s[i as int];
                let intermissions = self.intermissions_of_entry(&log, &ids, guid);
                let mut session = ActivitySession::new(ActivityItem { guid, activity: a.clone() });
                session.add_multiple_intermissions(intermissions);
                let group = ActivityGroup::with_session(&session);
                let category: &str = match &a.category {
                    Some(c) => c.as_str(),
                    None => UNCATEGORIZED,
                };
                let (cat, sub) = split_category_by_category_separator(category, None);
                let sub = match sub {
                    Some(t) => t,
                    None => String::new(),
                };
                proof {
                    lemma_items_duration(session.intermissions@);
                    assert(group.facts() == group_facts(s, e));
                    assert((cat@, sub@) == summary_key(e.1));
                }
                summaries.add(cat, sub, group);
                proof {
                    let todo = summarized_in(s.take(i + 1), time_range_opts);
                    assert(todo.drop_last() =~= summarized_in(s.take(i as int), time_range_opts));
                    assert(todo.last() == e);
                }
                found = found + 1;
            }
            i = i + 1;
        }
        proof {
            assert(s.take(n as int) =~= s);
        }
        if found == 0 {
            return Ok(None);
        }
        Ok(Some(summaries))
    }

    /// The review summaries by category of the activities that begin in the range, each
    /// with its intermissions; `None` when no activity begins in the range.
    pub fn summary_groups_by_category_for_time_range(&self, time_range_opts: TimeRangeOptions) -> (r:
        PaceOptResult<crate::review::SummaryGroupByCategory>)
        requires
            self.wf(),
        ensures
            ({
                let s = self.spec_storage().entries();
                let todo = summarized_in(s, time_range_opts);
                &&& (todo.len() == 0 ==> r matches Ok(None))
                &&& (todo.len() > 0 ==> (r matches Ok(Some(m)) && m.wf() && m@ == reviews_over(s, todo)))
            }),
    {
        let ghost s = self.storage.entries();
        let log = self.storage.get_activity_log()?;
        let ids = log.identifiers();
        let n = ids.len();
        let mut summaries = crate::review::SummaryGroupByCategory::new();
        let mut found: usize = 0;
        let mut i: usize = 0;
        proof {
            reveal(Seq::filter);
            assert(summarized_in(s.take(0), time_range_opts) =~= Seq::<LogEntry>::empty());
        }
        while i < n
            invariant
                log.wf(),
                log.entries() == s,
                ids@ == log.keys(),
                n == s.len(),
                i <= n,
                summaries.wf(),
                found == summarized_in(s.take(i as int), time_range_opts).len(),
                summaries@ == reviews_over(s, summarized_in(s.take(i as int), time_range_opts)),
            decreases n - i,
        {
            proof {
                reveal(Seq::filter);
                let t = s.take(i + 1);
                assert(t.drop_last() =~= s.take(i as int));
                assert(t.last() == s[i as int]);
                assert(summarized_in(t, time_range_opts) == if summarized(s[i as int].1, time_range_opts) {
                    summarized_in(s.take(i as int), time_range_opts).push(s[i as int])
                } else {
                    summarized_in(s.take(i as int), time_range_opts)
                });
            }
            let (guid, a) = log.entry_at(&ids, i);
            if a.kind.is_activity() && time_range_opts.start.0 <= a.begin.0 && a.begin.0
                <= time_range_opts.end.0 {
                let ghost e = s[i as int];
                let intermissions = self.intermissions_of_entry(&log, &ids, guid);
                let ghost ints = intermissions@;
                let mut group = crate::review::ActivityGroup::new(ActivityItem { guid, activity: a.clone() });
                group.add_multiple_intermissions(intermissions);
                let category = match &a.category {
                    Some(c) => c.clone(),
                    None => String::from_str(UNCATEGORIZED),
                };
                proof {
                    lemma_items_duration(ints);
                    assert(group.facts() == review_group_facts(s, e));
                    assert(category@ == review_key(e.1));
                }
                summaries.add(category, group);
                proof {
                    let todo = summarized_in(s.take(i + 1), time_range_opts);
                    assert(todo.drop_last() =~= summarized_in(s.take(i as int), time_range_opts));
                    assert(todo.last() == e);
                }
                found = found + 1;
            }
            i = i + 1;
        }
        proof {
            assert(s.take(n as int) =~= s);
        }
        if found == 0 {
            return Ok(None);
        }
        Ok(Some(summaries))
    }

    /// The intermissions of the activity `parent`, in the order of their identifiers.
    fn intermissions_of_entry(&self, log: &crate::activity_log::ActivityLog, ids: &Vec<u128>, parent: ActivityGuid) -> (v:
        Vec<ActivityItem>)
        requires
            log.wf(),
            ids@ == log.keys(),
        ensures
            entries_of(v@) == intermissions_in(log.entries(), parent.bits()),
    {
        let ghost s = log.entries();
        let n = ids.len();
        let mut v: Vec<ActivityItem> = Vec::new();
        let mut j: usize = 0;
        proof {
            reveal(Seq::filter);
            assert(entries_of(v@) =~= intermissions_in(s.take(0), parent.bits()));
        }
        while j < n
            invariant
                log.wf(),
                s == log.entries(),
                ids@ == log.keys(),
                n == s.len(),
                j <= n,
                entries_of(v@) == intermissions_in(s.take(j as int), parent.bits()),
            decreases n - j,
        {
            proof {
                reveal(Seq::filter);
                let b = parent.bits();
                let t = s.take(j + 1);
                assert(ActivityGuid(Guid(b)) == parent);
                assert(t.drop_last() =~= s.take(j as int));
                assert(t.last() == s[j as int]);
                assert(intermissions_in(t, b) == if belongs_to(s[j as int].1, b) {
                    intermissions_in(s.take(j as int), b).push(s[j as int])
                } else {
                    intermissions_in(s.take(j as int), b)
                });
            }
            let (guid, it) = log.entry_at(ids, j);
            if it.kind.is_intermission() && it.parent_id() == Some(parent) {
                let ghost before = v@;
                v.push(ActivityItem { guid, activity: it.clone() });
                proof {
                    assert(entries_of(v@) =~= entries_of(before).push(s[j as int]));
                }
            }
            j = j + 1;
        }
        proof {
            assert(s.take(n as int) =~= s);
        }
        v
    }
}

/// What a reflection on `time_frame` as of `now` gives for the activities of `store`:
/// an error when the frame has no time range, `None` when no activity begins in it,
/// else the summaries by category of the activities of the range, with their totals.
pub open spec fn reflection_outcome(
    store: ActivityStore,
    time_frame: PaceTimeFrame,
    now: PaceDateTime,
    r: PaceOptResult<ReflectionSummary>,
) -> bool {
    match time_frame_outcome(time_frame, now) {
        Err(e) => r == Err::<Option<ReflectionSummary>, PaceError>(PaceError(PaceErrorKind::Time(e))),
        Ok(range) => {
            let s = store.spec_storage().entries();
            let todo = summarized_in(s, range);
            &&& (todo.len() == 0 ==> r matches Ok(None))
            &&& (todo.len() > 0 ==> (r matches Ok(Some(summary)) && summary.time_range == range
                && summary.summary_groups_by_category@ == summaries_over(s, todo)
                && summary.total_time_spent.0 == wrapped(summaries_duration(summaries_over(s, todo)))
                && summary.total_break_duration.0 == wrapped(summaries_breaks(summaries_over(s, todo)))))
        },
    }
}

/// What a review of `time_frame` as of `now` gives for the activities of `store`: an
/// error when the frame has no time range, `None` when no activity begins in it, else
/// the review summaries by category with their total.
pub open spec fn review_outcome(
    store: ActivityStore,
    time_frame: PaceTimeFrame,
    now: PaceDateTime,
    r: PaceOptResult<crate::review::ReviewSummary>,
) -> bool {
    match time_frame_outcome(time_frame, now) {
        Err(e) => r == Err::<Option<crate::review::ReviewSummary>, PaceError>(PaceError(PaceErrorKind::Time(e))),
        Ok(range) => {
            let s = store.spec_storage().entries();
            let todo = summarized_in(s, range);
            &&& (todo.len() == 0 ==> r matches Ok(None))
            &&& (todo.len() > 0 ==> (r matches Ok(Some(summary)) && summary.time_range == range
                && summary.summary_groups_by_category@ == reviews_over(s, todo)
                && summary.total_time_spent.0 == wrapped(crate::review::reviews_duration(reviews_over(s, todo)))))
        },
    }
}

/// Tracks activities and reflects on them.
#[derive(Debug)]
pub struct ActivityTracker {
    pub store: ActivityStore,
}

impl ActivityTracker {
    pub fn with_activity_store(store: ActivityStore) -> (t: Self)
        ensures
            t.store == store,
    {
        ActivityTracker { store }
    }

    /// The reflection on a time frame as of `now`: an error when the frame has no time
    /// range, `None` when no activity begins in it, else the summaries by category of
    /// the activities of the range, with their totals.
    pub fn generate_reflection_at(&self, time_frame: PaceTimeFrame, now: PaceDateTime) -> (r:
        PaceOptResult<ReflectionSummary>)
        requires
            self.store.wf(),
            now.date_fits(),
        ensures
            reflection_outcome(self.store, time_frame, now, r),
            now.is_clock_reading() ==> time_frame_outcome(time_frame, now) is Ok,
    {
        let time_range_opts = match TimeRangeOptions::from_time_frame_at(time_frame, now) {
            Ok(range) => range,
            Err(e) => {
                return Err(PaceError(PaceErrorKind::Time(e)));
            },
        };
        let summary_groups = match self.store.reflection_groups_by_category_for_time_range(time_range_opts)? {
            None => {
                return Ok(None);
            },
            Some(groups) => groups,
        };
        Ok(Some(ReflectionSummary::new(time_range_opts, summary_groups)))
    }

    /// The review of a time frame as of `now`: an error when the frame has no time
    /// range, `None` when no activity begins in it, else the review summaries by
    /// category with their total.
    pub fn generate_review_summary_at(&self, time_frame: PaceTimeFrame, now: PaceDateTime) -> (r:
        PaceOptResult<crate::review::ReviewSummary>)
        requires
            self.store.wf(),
            now.date_fits(),
        ensures
            review_outcome(self.store, time_frame, now, r),
            now.is_clock_reading() ==> time_frame_outcome(time_frame, now) is Ok,
    {
        let time_range_opts = match TimeRangeOptions::from_time_frame_at(time_frame, now) {
            Ok(range) => range,
            Err(e) => {
                return Err(PaceError(PaceErrorKind::Time(e)));
            },
        };
        let summary_groups = match self.store.summary_groups_by_category_for_time_range(time_range_opts)? {
            None => {
                return Ok(None);
            },
            Some(groups) => groups,
        };
        Ok(Some(crate::review::ReviewSummary::new(time_range_opts, summary_groups)))
    }

    /// The review of a time frame as of the current time.
    pub fn generate_review_summary(&self, time_frame: PaceTimeFrame) -> (r: PaceOptResult<crate::review::ReviewSummary>)
        requires
            self.store.wf(),
        ensures
            exists|now: PaceDateTime|
                now.date_fits() && now.is_clock_reading() && time_frame_outcome(time_frame, now) is Ok
                    && #[trigger] review_outcome(self.store, time_frame, now, r),
    {
        let now = PaceDateTime::now();
        self.generate_review_summary_at(time_frame, now)
    }

    /// The reflection on a time frame as of the current time.
    pub fn generate_reflection(&self, time_frame: PaceTimeFrame) -> (r: PaceOptResult<ReflectionSummary>)
        requires
            self.store.wf(),
        ensures
            exists|now: PaceDateTime|
                now.date_fits() && now.is_clock_reading() && time_frame_outcome(time_frame, now) is Ok
                    && #[trigger] reflection_outcome(self.store, time_frame, now, r),
    {
        let now = PaceDateTime::now();
        self.generate_reflection_at(time_frame, now)
    }
}

} // verus!
