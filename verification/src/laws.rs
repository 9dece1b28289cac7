//! Properties that span several operations of the library.

use vstd::prelude::*;

use crate::activity::ActivityView;
use crate::duration::PaceDuration;
use crate::filter::{filter_matches, ActivityFilterKind};
use crate::status::ActivityStatusKind;
use crate::error::{ActivityLogErrorKind, PaceError};
use crate::id::ActivityGuid;
use crate::intermission::IntermissionAction;
use crate::activity_log::has_intermission_of;
use crate::storage::{
    all_ended_at, ended_where, hold_outcome, intermission_for, is_last_where, is_running_activity,
    last_where, lemma_last_where, log_error, resume_outcome, ActivityReadOps,
};
use crate::time::{
    calendar_date_text, day_of, duration_between, relative_time_spec, relative_time_text, specific_date_outcome, time_frame_from_flags, DateFlags,
    PaceDate, PaceDateTime, PaceTimeFrame, RelativeTime, TimeFlags, TimeRangeOptions, UNIX_EPOCH_DAY,
};
use crate::activity::{ActivityItem, ActivityKind};
use crate::commands::{adjust_outcome, tag_set_of, AdjustCommandOptions};
use crate::error::PaceResult;
use crate::text::decimal_text;
use vstd::std_specs::ops::{AddSpec, SubSpec};
use crate::activity_log::{index_of, lemma_index_of, map_of, strictly_increasing, LogEntry};
use crate::category::{category_split, find_from, lemma_find_from, lemma_joined_is_flattened_parts, split_parts};
use crate::text::{lemma_sorted_insert_some, sorted_insert};
use crate::store::{group_facts, review_group_facts, review_key, reviews_over, summary_key, summaries_over};
use crate::review::{
    by_category, category_position, review_add, review_facts_add, review_facts_with, reviews_duration, ReviewGroupFacts, ReviewSummaryFacts,
};
use crate::summary::{
    by_key, facts_add, facts_with, key_position, summaries_add, summaries_duration, wrapped, CategoryKey, GroupFacts, SummaryFacts,
};

verus! {

/// Reading an activity right after storing it under a fresh identifier gives back
/// exactly that activity; every other activity stays as it was.
pub proof fn law_read_after_create(m: Map<u128, ActivityView>, k: u128, a: ActivityView)
    requires
        !m.contains_key(k),
    ensures
        m.insert(k, a).contains_key(k),
        m.insert(k, a)[k] == a,
        forall|j: u128|
            j != k ==> (#[trigger] m.insert(k, a).contains_key(j) == m.contains_key(j)),
        forall|j: u128| j != k && m.contains_key(j) ==> #[trigger] m.insert(k, a)[j] == m[j],
{
}

/// Deleting an activity right after creating it gives back the activities as they were.
pub proof fn law_delete_undoes_create(m: Map<u128, ActivityView>, k: u128, a: ActivityView)
    requires
        !m.contains_key(k),
    ensures
        m.insert(k, a).remove(k) == m,
{
    assert(m.insert(k, a).remove(k) =~= m);
}

/// A deleted activity cannot be read any more.
pub proof fn law_read_after_delete(m: Map<u128, ActivityView>, k: u128)
    ensures
        !m.remove(k).contains_key(k),
        forall|j: u128| j != k ==> #[trigger] m.remove(k).contains_key(j) == m.contains_key(j),
{
}

/// An update replaces everything of an activity but its kind and its begin.
pub proof fn law_update_keeps_kind_and_begin(a: ActivityView, u: ActivityView)
    ensures
        a.merged(u).kind == a.kind,
        a.merged(u).begin == a.begin,
        a.merged(u).description == u.description,
        a.merged(u).category == u.category,
        a.merged(u).status == u.status,
        a.merged(u).tags == u.tags,
        a.merged(u).activity_end_options == u.activity_end_options,
{
}

/// Of two updates in a row, the last one wins.
pub proof fn law_last_update_wins(a: ActivityView, u1: ActivityView, u2: ActivityView)
    ensures
        a.merged(u1).merged(u2) == a.merged(u2),
{
}

/// Ending an activity at or after its begin completes it and records the time between
/// its begin and its end; ending it before its begin leaves it as it is.
pub proof fn law_end_records_duration(a: ActivityView, end: PaceDateTime)
    ensures
        a.begin.0 <= end.0 ==> ({
            let e = a.ended_at(end);
            &&& e.status == ActivityStatusKind::Completed
            &&& e.activity_end_options matches Some(opts)
            &&& opts.end == end
            &&& a.begin.0 + opts.duration.0 == end.0
        }),
        end.0 < a.begin.0 ==> a.ended_at(end) == a,
{
}

/// Ending an activity twice at the same time is the same as ending it once.
pub proof fn law_end_is_idempotent(a: ActivityView, end: PaceDateTime)
    ensures
        a.ended_at(end).ended_at(end) == a.ended_at(end),
{
}

/// The duration between two points, added to the first, gives the second.
pub proof fn law_duration_between_adds_up(begin: PaceDateTime, end: PaceDateTime)
    ensures
        duration_between(begin, end) is Some <==> begin.0 <= end.0,
        duration_between(begin, end) matches Some(d) ==> begin.0 + d.0 == end.0,
{
}

/// Ending all activities that pass a filter keeps every identifier, and changes only
/// the activities that pass it.
pub proof fn law_ending_keeps_identifiers(
    m: Map<u128, ActivityView>,
    f: ActivityFilterKind,
    end: PaceDateTime,
)
    ensures
        ended_where(m, f, end).dom() == m.dom(),
        forall|k: u128|
            m.contains_key(k) && !filter_matches(f, m[k]) ==> #[trigger] ended_where(m, f, end)[k]
                == m[k],
{
    assert(ended_where(m, f, end).dom() =~= m.dom());
}

/// After ending everything that is being tracked at `end`, only activities that begin
/// after `end` are still being tracked.
pub proof fn law_nothing_runs_after_ending_all(m: Map<u128, ActivityView>, end: PaceDateTime)
    ensures
        forall|k: u128|
            #[trigger] ended_where(m, ActivityFilterKind::Active, end).contains_key(k)
                && ended_where(m, ActivityFilterKind::Active, end)[k].is_in_progress()
                ==> end.0 < m[k].begin.0,
{
}

/// Adding a duration and subtracting it again gives back the first duration.
pub proof fn law_add_then_sub(a: PaceDuration, b: PaceDuration)
    requires
        a.add_req(b),
    ensures
        a.add_spec(b).sub_spec(b) == a,
{
}

/// Subtraction of durations never goes below zero and never grows, and a duration
/// minus itself is zero.
pub proof fn law_sub_saturates(a: PaceDuration, b: PaceDuration)
    ensures
        a.sub_spec(b).0 <= a.0,
        b.0 >= a.0 ==> a.sub_spec(b).0 == 0,
        a.sub_spec(a).0 == 0,
        b.0 <= a.0 ==> a.sub_spec(b).add_spec(b) == a,
{
}

/// Holding a running activity and then resuming it gives the activity back as it was;
/// the intermission that the hold began is stored under its new identifier and has
/// been ended at the time of the resume.
pub proof fn law_resume_undoes_hold(
    m: Map<u128, ActivityView>,
    id: ActivityGuid,
    action: IntermissionAction,
    begin: PaceDateTime,
    reason: Option<Seq<char>>,
    new_id: ActivityGuid,
    end: PaceDateTime,
)
    requires
        m.contains_key(id.bits()),
        m[id.bits()].is_in_progress(),
        !(has_intermission_of(m, id) && action == IntermissionAction::Extend),
        !m.contains_key(new_id.bits()),
    ensures
        ({
            let (m1, r1) = hold_outcome(m, id, action, begin, reason, new_id);
            let (m2, r2) = resume_outcome(m1, id, end);
            &&& r1 is Ok
            &&& r2 is Ok
            &&& m1[id.bits()].is_paused()
            &&& m2[id.bits()] == m[id.bits()]
            &&& m2[new_id.bits()] == intermission_for(m[id.bits()], id, begin, reason).ended_at(end)
            &&& m2.dom() == m.dom().insert(new_id.bits())
        }),
{
    let k = id.bits();
    let (m1, r1) = hold_outcome(m, id, action, begin, reason, new_id);
    let (m2, r2) = resume_outcome(m1, id, end);
    assert(m1[k] == m[k].with_status(ActivityStatusKind::Paused));
    assert(m1[k].with_status(ActivityStatusKind::InProgress) == m[k]);
    assert(m1.dom() =~= m.dom().insert(new_id.bits()));
    assert(m2.dom() =~= m.dom().insert(new_id.bits()));
}

/// Once an activity is held, holding it again is refused and changes nothing.
pub proof fn law_hold_twice_is_refused(
    m: Map<u128, ActivityView>,
    id: ActivityGuid,
    action: IntermissionAction,
    begin: PaceDateTime,
    reason: Option<Seq<char>>,
    new_id: ActivityGuid,
    action2: IntermissionAction,
    begin2: PaceDateTime,
    reason2: Option<Seq<char>>,
    new_id2: ActivityGuid,
)
    requires
        m.contains_key(id.bits()),
        m[id.bits()].is_in_progress(),
        !(has_intermission_of(m, id) && action == IntermissionAction::Extend),
        !m.contains_key(new_id.bits()),
    ensures
        ({
            let (m1, r1) = hold_outcome(m, id, action, begin, reason, new_id);
            let (m2, r2) = hold_outcome(m1, id, action2, begin2, reason2, new_id2);
            &&& m2 == m1
            &&& r2 == Err::<(ActivityGuid, ActivityView), PaceError>(
                log_error(ActivityLogErrorKind::NoActiveActivityFound(id)),
            )
        }),
{
}

/// Holding the only activity that is being tracked leaves no activity being tracked,
/// so holding the most recent activity once more finds none and changes nothing.
pub proof fn law_hold_leaves_nothing_running(
    m: Map<u128, ActivityView>,
    id: ActivityGuid,
    action: IntermissionAction,
    begin: PaceDateTime,
    reason: Option<Seq<char>>,
    new_id: ActivityGuid,
)
    requires
        m.contains_key(id.bits()),
        m[id.bits()].is_in_progress(),
        forall|k: u128| m.contains_key(k) && k != id.bits() ==> !is_running_activity(#[trigger] m[k]),
        !(has_intermission_of(m, id) && action == IntermissionAction::Extend),
        !m.contains_key(new_id.bits()),
    ensures
        ({
            let (m1, r1) = hold_outcome(m, id, action, begin, reason, new_id);
            &&& r1 is Ok
            &&& forall|k: u128| m1.contains_key(k) ==> !is_running_activity(#[trigger] m1[k])
        }),
{
    let (m1, r1) = hold_outcome(m, id, action, begin, reason, new_id);
    let me = ended_where(m, ActivityFilterKind::ActiveIntermission, begin);
    assert forall|k: u128| m1.contains_key(k) implies !is_running_activity(#[trigger] m1[k]) by {
        if k != id.bits() && k != new_id.bits() {
            assert(m1[k] == me[k]);
            assert(me[k] == (if filter_matches(ActivityFilterKind::ActiveIntermission, m[k]) {
                m[k].ended_at(begin)
            } else {
                m[k]
            }));
            if filter_matches(ActivityFilterKind::ActiveIntermission, m[k]) {
                assert(!m[k].ended_at(begin).is_in_progress());
            }
        }
    }
}

/// After an activity begins at `now`, every other activity that is still being tracked
/// begins after `now`: whatever ran before has ended. The new activity is in progress,
/// and when nothing began after `now` it is the only activity in progress.
pub proof fn law_begin_ends_what_ran_before(
    m: Map<u128, ActivityView>,
    a: ActivityView,
    now: PaceDateTime,
    new_id: u128,
)
    requires
        !all_ended_at(m, now).contains_key(new_id),
    ensures
        ({
            let m1 = all_ended_at(m, now).insert(new_id, a.with_status(ActivityStatusKind::InProgress));
            &&& m1[new_id].status == ActivityStatusKind::InProgress
            &&& forall|k: u128|
                k != new_id && #[trigger] m1.contains_key(k) && m1[k].is_in_progress() ==> now.0 < m[k].begin.0
            &&& (forall|k: u128| #[trigger] m.contains_key(k) ==> m[k].begin.0 <= now.0) ==> forall|k: u128|
                #[trigger] m1.contains_key(k) && m1[k].is_in_progress() ==> k == new_id
        }),
{
    let m1 = all_ended_at(m, now).insert(new_id, a.with_status(ActivityStatusKind::InProgress));
    assert forall|k: u128|
        k != new_id && #[trigger] m1.contains_key(k) && m1[k].is_in_progress() implies now.0 < m[k].begin.0 by {
        let e = ended_where(m, ActivityFilterKind::Active, now);
        assert(e.contains_key(k));
        if e[k].is_active_intermission() {
            assert(e[k].ended_at(now).is_in_progress());
        }
    }
}

/// The most recent activity that satisfies a condition is the one with the greatest
/// identifier among those that satisfy it; when only one satisfies it, that one is found.
pub proof fn law_most_recent_has_the_greatest_identifier(
    s: Seq<LogEntry>,
    p: spec_fn(ActivityView) -> bool,
    k: u128,
)
    requires
        strictly_increasing(s),
        map_of(s).contains_key(k),
        p(map_of(s)[k]),
        forall|k2: u128| #[trigger] map_of(s).contains_key(k2) && p(map_of(s)[k2]) ==> k2 <= k,
    ensures
        last_where(s, p) matches Some(i) && s[i].0 == k && s[i].1 == map_of(s)[k],
{
    let i = index_of(s, k);
    lemma_index_of(s, i);
    assert forall|j: int| i < j < s.len() implies !p(#[trigger] s[j].1) by {
        lemma_index_of(s, j);
        assert(s[i].0 < s[j].0);
        if p(s[j].1) {
            assert(map_of(s).contains_key(s[j].0));
        }
    }
    assert(is_last_where(s, p, i));
    lemma_last_where(s, p);
}

/// A range for a specific past date holds exactly the points in time of that day.
pub proof fn law_specific_date_covers_its_day(date: PaceDate, now: PaceDateTime, t: PaceDateTime)
    requires
        !date.is_future_at_spec(now),
    ensures
        ({
            let r = specific_date_outcome(date, now);
            (r.start.0 <= t.0 && t.0 <= r.end.0) <==> day_of(t.0) == date.0
        }),
{
    let d = date.0 as int;
    let x = t.0 as int;
    assert(PaceDate(date.0).spec_start().0 == d * 86400);
    assert(PaceDate(date.0).spec_end().0 == d * 86400 + 86399);
    if d * 86400 <= x && x <= d * 86400 + 86399 {
        assert(x / 86400 == d) by (nonlinear_arith)
            requires
                d * 86400 <= x,
                x <= d * 86400 + 86399,
        ;
    }
    if x / 86400 == d {
        assert(d * 86400 <= x && x <= d * 86400 + 86399) by (nonlinear_arith)
            requires
                x / 86400 == d,
        ;
    }
}

/// A text without the separator is the category, with no subcategory.
pub proof fn law_split_without_separator(s: Seq<char>, sep: Seq<char>)
    requires
        sep.len() > 0,
        find_from(s, sep, 0) is None,
    ensures
        category_split(s, sep) == (s, Option::<Seq<char>>::None),
{
}

/// Splitting a category gives the first piece of the text between the separators as
/// the category and, when there is more than one piece, the other pieces joined
/// together as the subcategory.
pub proof fn law_split_is_first_piece_and_the_rest_joined(s: Seq<char>, sep: Seq<char>)
    requires
        sep.len() > 0,
    ensures
        ({
            let parts = split_parts(s, sep, 0);
            &&& category_split(s, sep).0 == parts[0]
            &&& category_split(s, sep).1 == if parts.len() > 1 {
                Some(parts.drop_first().flatten())
            } else {
                None
            }
        }),
{
    lemma_find_from(s, sep, 0);
    lemma_joined_is_flattened_parts(s, sep, 0);
    let parts = split_parts(s, sep, 0);
    match find_from(s, sep, 0) {
        None => {
            assert(s.subrange(0, s.len() as int) =~= s);
        },
        Some(j) => {
            let rest = split_parts(s, sep, j + sep.len());
            lemma_joined_is_flattened_parts(s, sep, j + sep.len());
            assert(parts.drop_first() =~= rest);
            assert(s.subrange(0, j) =~= s.take(j));
        },
    }
}

/// When the separator occurs exactly once, the category, the separator and the
/// subcategory make up the text again.
pub proof fn law_split_rejoins(s: Seq<char>, sep: Seq<char>, j: int)
    requires
        find_from(s, sep, 0) == Some(j),
        find_from(s, sep, j + sep.len()) is None,
    ensures
        category_split(s, sep).1 matches Some(sub) && category_split(s, sep).0 + sep + sub == s,
{
    lemma_find_from(s, sep, 0);
    assert(s.take(j) + sep + s.subrange(j + sep.len(), s.len() as int) =~= s);
}

/// The position that `key_position` finds lies within the sequence.
proof fn lemma_key_position_in_range(v: Seq<(CategoryKey, SummaryFacts)>, key: CategoryKey)
    ensures
        key_position(v, key) matches Some(i) ==> 0 <= i < v.len(),
    decreases v.len(),
{
    if v.len() > 0 {
        lemma_key_position_in_range(v.drop_last(), key);
    }
}

/// Replacing one summary changes the sum of the totals by the difference.
proof fn lemma_summaries_duration_update(v: Seq<(CategoryKey, SummaryFacts)>, i: int, x: (CategoryKey, SummaryFacts))
    requires
        0 <= i < v.len(),
    ensures
        summaries_duration(v.update(i, x)) == summaries_duration(v) - v[i].1.total_duration + x.1.total_duration,
    decreases v.len(),
{
    if i < v.len() - 1 {
        lemma_summaries_duration_update(v.drop_last(), i, x);
        assert(v.update(i, x).drop_last() =~= v.drop_last().update(i, x));
    } else {
        assert(v.update(i, x).drop_last() =~= v.drop_last());
    }
}

/// Whatever the categories, the totals of the summaries add up to the durations of the
/// groups that went into them, modulo `2^64` seconds: adding a group to a summary
/// adds its duration to the sum of all totals.
pub proof fn law_summary_totals_add_up(v: Seq<(CategoryKey, SummaryFacts)>, key: CategoryKey, g: GroupFacts)
    ensures
        wrapped(summaries_duration(summaries_add(v, key, g))) == wrapped(summaries_duration(v) + g.adjusted),
{
    lemma_key_position_in_range(v, key);
    match key_position(v, key) {
        Some(i) => {
            let t = v[i].1.total_duration;
            let x = (key, facts_add(v[i].1, g));
            lemma_summaries_duration_update(v, i, x);
            let m: int = 0x1_0000_0000_0000_0000;
            vstd::arithmetic::div_mod::lemma_fundamental_div_mod(t + g.adjusted, m);
            let q = (t + g.adjusted) / m;
            assert(summaries_duration(summaries_add(v, key, g)) == m * (-q) + (summaries_duration(v) + g.adjusted));
            vstd::arithmetic::div_mod::lemma_mod_multiples_vanish(-q, summaries_duration(v) + g.adjusted, m);
        },
        None => {
            let x = (key, facts_with(g));
            lemma_sorted_insert_some(v, x, by_key());
            let i = choose|i: int| 0 <= i <= v.len() && sorted_insert(v, x, by_key()) == v.insert(i, x);
            lemma_summaries_duration_insert(v, i, x);
        },
    }
}

/// Inserting a summary adds its total to the sum of the totals.
proof fn lemma_summaries_duration_insert(v: Seq<(CategoryKey, SummaryFacts)>, i: int, x: (CategoryKey, SummaryFacts))
    requires
        0 <= i <= v.len(),
    ensures
        summaries_duration(v.insert(i, x)) == summaries_duration(v) + x.1.total_duration,
    decreases v.len(),
{
    if i == v.len() {
        assert(v.insert(i, x).drop_last() =~= v);
    } else {
        lemma_summaries_duration_insert(v.drop_last(), i, x);
        assert(v.insert(i, x).drop_last() =~= v.drop_last().insert(i, x));
    }
}

/// The durations of the groups of the activities `todo`, added up.
pub open spec fn groups_total(s: Seq<LogEntry>, todo: Seq<LogEntry>) -> int
    decreases todo.len(),
{
    if todo.len() == 0 {
        0
    } else {
        groups_total(s, todo.drop_last()) + group_facts(s, todo.last()).adjusted
    }
}

/// The time that a reflection spends in all categories is the time of all its
/// activities without their intermissions, modulo `2^64` seconds, however the
/// activities fall into categories.
pub proof fn law_reflection_total_is_the_total_of_its_activities(s: Seq<LogEntry>, todo: Seq<LogEntry>)
    ensures
        wrapped(summaries_duration(summaries_over(s, todo))) == wrapped(groups_total(s, todo)),
    decreases todo.len(),
{
    if todo.len() > 0 {
        let prev = summaries_over(s, todo.drop_last());
        law_reflection_total_is_the_total_of_its_activities(s, todo.drop_last());
        law_summary_totals_add_up(prev, summary_key(todo.last().1), group_facts(s, todo.last()));
        let a = group_facts(s, todo.last()).adjusted;
        vstd::arithmetic::div_mod::lemma_add_mod_noop(summaries_duration(prev), a, 0x1_0000_0000_0000_0000);
        vstd::arithmetic::div_mod::lemma_add_mod_noop(groups_total(s, todo.drop_last()), a, 0x1_0000_0000_0000_0000);
    }
}

/// The position that `category_position` finds lies within the sequence.
proof fn lemma_category_position_in_range(v: Seq<(Seq<char>, ReviewSummaryFacts)>, key: Seq<char>)
    ensures
        category_position(v, key) matches Some(i) ==> 0 <= i < v.len(),
    decreases v.len(),
{
    if v.len() > 0 {
        lemma_category_position_in_range(v.drop_last(), key);
    }
}

/// Replacing one review summary changes the sum of the totals by the difference.
proof fn lemma_reviews_duration_update(v: Seq<(Seq<char>, ReviewSummaryFacts)>, i: int, x: (Seq<char>, ReviewSummaryFacts))
    requires
        0 <= i < v.len(),
    ensures
        reviews_duration(v.update(i, x)) == reviews_duration(v) - v[i].1.total_duration + x.1.total_duration,
    decreases v.len(),
{
    if i < v.len() - 1 {
        lemma_reviews_duration_update(v.drop_last(), i, x);
        assert(v.update(i, x).drop_last() =~= v.drop_last().update(i, x));
    } else {
        assert(v.update(i, x).drop_last() =~= v.drop_last());
    }
}

/// Adding a group to a review adds its duration to the sum of all totals, modulo
/// `2^64` seconds, whichever category it falls into.
pub proof fn law_review_totals_add_up(v: Seq<(Seq<char>, ReviewSummaryFacts)>, key: Seq<char>, g: ReviewGroupFacts)
    ensures
        wrapped(reviews_duration(review_add(v, key, g))) == wrapped(reviews_duration(v) + g.adjusted),
{
    lemma_category_position_in_range(v, key);
    match category_position(v, key) {
        Some(i) => {
            let t = v[i].1.total_duration;
            let x = (key, review_facts_add(v[i].1, g));
            lemma_reviews_duration_update(v, i, x);
            let m: int = 0x1_0000_0000_0000_0000;
            vstd::arithmetic::div_mod::lemma_fundamental_div_mod(t + g.adjusted, m);
            let q = (t + g.adjusted) / m;
            assert(reviews_duration(review_add(v, key, g)) == m * (-q) + (reviews_duration(v) + g.adjusted));
            vstd::arithmetic::div_mod::lemma_mod_multiples_vanish(-q, reviews_duration(v) + g.adjusted, m);
        },
        None => {
            let x = (key, review_facts_with(g));
            lemma_sorted_insert_some(v, x, by_category());
            let i = choose|i: int| 0 <= i <= v.len() && sorted_insert(v, x, by_category()) == v.insert(i, x);
            lemma_reviews_duration_insert(v, i, x);
        },
    }
}

/// Inserting a review summary adds its total to the sum of the totals.
proof fn lemma_reviews_duration_insert(v: Seq<(Seq<char>, ReviewSummaryFacts)>, i: int, x: (Seq<char>, ReviewSummaryFacts))
    requires
        0 <= i <= v.len(),
    ensures
        reviews_duration(v.insert(i, x)) == reviews_duration(v) + x.1.total_duration,
    decreases v.len(),
{
    if i == v.len() {
        assert(v.insert(i, x).drop_last() =~= v);
    } else {
        lemma_reviews_duration_insert(v.drop_last(), i, x);
        assert(v.insert(i, x).drop_last() =~= v.drop_last().insert(i, x));
    }
}

/// The durations of the review groups of the activities `todo`, added up.
pub open spec fn review_groups_total(s: Seq<LogEntry>, todo: Seq<LogEntry>) -> int
    decreases todo.len(),
{
    if todo.len() == 0 {
        0
    } else {
        review_groups_total(s, todo.drop_last()) + review_group_facts(s, todo.last()).adjusted
    }
}

/// The total time of a review is the time of all its activities without their
/// intermissions, modulo `2^64` seconds, however they fall into categories.
pub proof fn law_review_total_is_the_total_of_its_activities(s: Seq<LogEntry>, todo: Seq<LogEntry>)
    ensures
        wrapped(reviews_duration(reviews_over(s, todo))) == wrapped(review_groups_total(s, todo)),
    decreases todo.len(),
{
    if todo.len() > 0 {
        let prev = reviews_over(s, todo.drop_last());
        law_review_total_is_the_total_of_its_activities(s, todo.drop_last());
        law_review_totals_add_up(prev, review_key(todo.last().1), review_group_facts(s, todo.last()));
        let a = review_group_facts(s, todo.last()).adjusted;
        vstd::arithmetic::div_mod::lemma_add_mod_noop(reviews_duration(prev), a, 0x1_0000_0000_0000_0000);
        vstd::arithmetic::div_mod::lemma_add_mod_noop(review_groups_total(s, todo.drop_last()), a, 0x1_0000_0000_0000_0000);
    }
}

/// How long ago a time lies is told by the whole days, hours, minutes or seconds
/// between it and now: a date from six days on, a number of days from two days on,
/// one day from one day on, a number of hours from two hours on, an hour from one
/// hour on, a number of minutes from two minutes on, a minute from one minute on,
/// else the seconds; a time that is not before now is just now.
pub proof fn law_relative_time_counts_whole_units(initial: PaceDateTime, now: PaceDateTime)
    ensures
        ({
            let delta = now.0 - initial.0;
            let r = relative_time_spec(initial, now);
            &&& delta <= 0 ==> r == RelativeTime::JustNow
            &&& delta >= 6 * 86400 ==> r == RelativeTime::Date
            &&& 2 * 86400 <= delta < 6 * 86400 ==> r == RelativeTime::DaysAgo((delta / 86400) as i64)
                && 2 <= delta / 86400 <= 5
            &&& 86400 <= delta < 2 * 86400 ==> r == RelativeTime::OneDayAgo
            &&& 2 * 3600 <= delta < 86400 ==> r == RelativeTime::HoursAgo((delta / 3600) as i64)
                && 2 <= delta / 3600 <= 23
            &&& 3600 <= delta < 2 * 3600 ==> r == RelativeTime::AnHourAgo
            &&& 2 * 60 <= delta < 3600 ==> r == RelativeTime::MinutesAgo((delta / 60) as i64)
                && 2 <= delta / 60 <= 59
            &&& 60 <= delta < 2 * 60 ==> r == RelativeTime::OneMinuteAgo
            &&& 0 < delta < 60 ==> r == RelativeTime::SecondsAgo(delta as i64)
        }),
{
}

/// The words for how long ago a time lies name the whole days, hours, minutes or
/// seconds that have passed, or the date of the time from six days on.
pub proof fn law_relative_time_in_words(initial: PaceDateTime, now: PaceDateTime)
    ensures
        ({
            let delta = now.0 - initial.0;
            let s = relative_time_text(initial, now);
            &&& delta <= 0 ==> s == "just now"@
            &&& delta >= 6 * 86400 ==> s == calendar_date_text(initial)
            &&& 2 * 86400 <= delta < 6 * 86400 ==> s == decimal_text((delta / 86400) as nat) + " days ago"@
            &&& 86400 <= delta < 2 * 86400 ==> s == "one day ago"@
            &&& 2 * 3600 <= delta < 86400 ==> s == decimal_text((delta / 3600) as nat) + " hours ago"@
            &&& 3600 <= delta < 2 * 3600 ==> s == "an hour ago"@
            &&& 2 * 60 <= delta < 3600 ==> s == decimal_text((delta / 60) as nat) + " minutes ago"@
            &&& 60 <= delta < 2 * 60 ==> s == "one minute ago"@
            &&& 0 < delta < 60 ==> s == decimal_text(delta as nat) + " seconds ago"@
        }),
{
    law_relative_time_counts_whole_units(initial, now);
}

/// A relative time in days counts the days that have passed: `DaysAgo(n)` means that
/// between `n` and `n + 1` days lie between the two times, and `OneDayAgo` that
/// between one and two days do.
pub proof fn law_days_ago_counts_the_days(initial: PaceDateTime, now: PaceDateTime)
    ensures
        relative_time_spec(initial, now) matches RelativeTime::DaysAgo(n) ==> 2 <= n <= 5 && n * 86400
            <= now.0 - initial.0 < (n + 1) * 86400,
        relative_time_spec(initial, now) == RelativeTime::OneDayAgo ==> 86400 <= now.0 - initial.0 < 2
            * 86400,
{
}

/// The time flags in the order in which they are asked, each with the time frame it
/// selects.
pub open spec fn time_flag_frames(f: TimeFlags) -> Seq<(bool, PaceTimeFrame)> {
    seq![
        (f.today, PaceTimeFrame::Today),
        (f.yesterday, PaceTimeFrame::Yesterday),
        (f.current_week, PaceTimeFrame::CurrentWeek),
        (f.last_week, PaceTimeFrame::LastWeek),
        (f.current_month, PaceTimeFrame::CurrentMonth),
        (f.last_month, PaceTimeFrame::LastMonth),
    ]
}

/// The first time flag that is set selects its own time frame, whatever the dates and
/// the day that stands for today.
pub proof fn law_first_time_flag_selects_its_frame(
    time_flags: TimeFlags,
    date_flags: DateFlags,
    today: PaceDate,
    i: int,
)
    requires
        0 <= i < 6,
        time_flag_frames(time_flags)[i].0,
        forall|j: int| 0 <= j < i ==> !(#[trigger] time_flag_frames(time_flags)[j]).0,
    ensures
        time_frame_from_flags(time_flags, date_flags, today) == time_flag_frames(time_flags)[i].1,
{
    let t = time_flag_frames(time_flags);
    if i > 0 { assert(!t[0].0); }
    if i > 1 { assert(!t[1].0); }
    if i > 2 { assert(!t[2].0); }
    if i > 3 { assert(!t[3].0); }
    if i > 4 { assert(!t[4].0); }
}

/// Without a time flag, a date selects that date; else a range from its first date, or
/// January 1st, 1970, to its last date, or today, each from midnight; with no flag at
/// all the time frame is today.
pub proof fn law_dates_select_without_time_flags(time_flags: TimeFlags, date_flags: DateFlags, today: PaceDate)
    requires
        forall|j: int| 0 <= j < 6 ==> !(#[trigger] time_flag_frames(time_flags)[j]).0,
    ensures
        ({
            let f = time_frame_from_flags(time_flags, date_flags, today);
            &&& date_flags.date matches Some(d) ==> f == PaceTimeFrame::SpecificDate(d)
            &&& date_flags.date is None && (date_flags.from is Some || date_flags.to is Some) ==> f
                == PaceTimeFrame::DateRange(
                TimeRangeOptions {
                    start: match date_flags.from {
                        Some(d) => d,
                        None => PaceDate(UNIX_EPOCH_DAY),
                    }.spec_start(),
                    end: match date_flags.to {
                        Some(d) => d,
                        None => today,
                    }.spec_start(),
                },
            )
            &&& date_flags.date is None && date_flags.from is None && date_flags.to is None ==> f
                == PaceTimeFrame::Today
        }),
{
    let t = time_flag_frames(time_flags);
    assert(!t[0].0 && !t[1].0 && !t[2].0 && !t[3].0 && !t[4].0 && !t[5].0);
}

/// Holding a running activity begins an intermission under the new identifier: it
/// belongs to the held activity, shares its category, runs from the begin of the hold,
/// and is described by the reason or, without one, like the held activity, which is
/// then held.
pub proof fn law_hold_begins_an_intermission_of_the_held_activity(
    m: Map<u128, ActivityView>,
    id: ActivityGuid,
    action: IntermissionAction,
    begin: PaceDateTime,
    reason: Option<Seq<char>>,
    new_id: ActivityGuid,
)
    requires
        m.contains_key(id.bits()),
        m[id.bits()].is_in_progress(),
        !(has_intermission_of(m, id) && action == IntermissionAction::Extend),
        !m.contains_key(new_id.bits()),
    ensures
        ({
            let (m1, r) = hold_outcome(m, id, action, begin, reason, new_id);
            let i = m1[new_id.bits()];
            &&& r is Ok
            &&& m1.contains_key(new_id.bits())
            &&& i.description == (match reason {
                Some(text) => text,
                None => m[id.bits()].description,
            })
            &&& i.category == m[id.bits()].category
            &&& i.kind == ActivityKind::Intermission
            &&& i.parent_id() == Some(id)
            &&& i.begin == begin
            &&& i.is_active_intermission()
            &&& m1[id.bits()] == m[id.bits()].with_status(ActivityStatusKind::Paused)
            &&& m1.dom() == m.dom().insert(new_id.bits())
            &&& forall|k: u128|
                #[trigger] m.contains_key(k) && k != id.bits() ==> m1[k] == (if m[k].is_active_intermission() {
                    m[k].ended_at(begin)
                } else {
                    m[k]
                })
        }),
{
    let (m1, r) = hold_outcome(m, id, action, begin, reason, new_id);
    assert(m1.dom() =~= m.dom().insert(new_id.bits()));
}

/// Adjusting reports a change exactly when the activity it stores differs from the one
/// it found in its category, description, begin or set of tags; whenever it reports
/// none, the stored activity agrees with the one found in all of them.
pub proof fn law_adjust_reports_every_change(
    opts: &AdjustCommandOptions,
    entries: Seq<LogEntry>,
    before: Map<u128, ActivityView>,
    after: Map<u128, ActivityView>,
    r: PaceResult<(ActivityItem, bool)>,
    now: PaceDateTime,
)
    requires
        strictly_increasing(entries),
        before == map_of(entries),
        adjust_outcome(opts, entries, before, after, r, now),
        r is Ok,
    ensures
        ({
            let (item, changed) = r.unwrap();
            let k = item.guid.bits();
            let found = item.activity@;
            &&& after.contains_key(k)
            &&& changed <==> (after[k].category != found.category || after[k].description
                != found.description || after[k].begin != found.begin || tag_set_of(after[k].tags)
                != tag_set_of(found.tags))
            &&& after[k].description != found.description ==> changed
            &&& before.contains_key(k) && before[k] == found && is_running_activity(found)
            &&& after == before.insert(k, after[k])
            &&& after[k].description == (match opts.description {
                Some(d) => d@,
                None => found.description,
            })
            &&& after[k].category == (match opts.category {
                Some(c) => Some(c@),
                None => found.category,
            })
            &&& opts.start is None ==> after[k].begin == found.begin
            &&& opts.tags is None ==> after[k].tags == found.tags
            &&& opts.tags matches Some(ts) ==> tag_set_of(after[k].tags) == Some(
                if opts.override_tags || found.tags is None {
                    ts@.map_values(|s: String| s@).to_set()
                } else {
                    found.tags.unwrap().to_set() + ts@.map_values(|s: String| s@).to_set()
                },
            )
        }),
{
    let (item, changed) = r.unwrap();
    let k = item.guid.bits();
    let t = crate::time::time_or_now_outcome(crate::time::opt_text(opts.start), now).unwrap();
    let i = last_where(entries, |a: ActivityView| is_running_activity(a)).unwrap();
    lemma_last_where(entries, |a: ActivityView| is_running_activity(a));
    lemma_index_of(entries, i);
}

/// A hold that is refused changes nothing: an activity that is not stored, or not
/// being tracked, cannot be held. Extending a hold whose intermission still runs
/// changes nothing either and gives the activity back as it is.
pub proof fn law_refused_or_extended_hold_changes_nothing(
    m: Map<u128, ActivityView>,
    id: ActivityGuid,
    action: IntermissionAction,
    begin: PaceDateTime,
    reason: Option<Seq<char>>,
    new_id: ActivityGuid,
)
    ensures
        ({
            let (m1, r) = hold_outcome(m, id, action, begin, reason, new_id);
            &&& !m.contains_key(id.bits()) ==> m1 == m && r == Err::<(ActivityGuid, ActivityView), PaceError>(
                log_error(ActivityLogErrorKind::ActivityNotFound(id)),
            )
            &&& m.contains_key(id.bits()) && !m[id.bits()].is_in_progress() ==> m1 == m && r == Err::<
                (ActivityGuid, ActivityView),
                PaceError,
            >(log_error(ActivityLogErrorKind::NoActiveActivityFound(id)))
            &&& m.contains_key(id.bits()) && m[id.bits()].is_in_progress() && has_intermission_of(m, id)
                && action == IntermissionAction::Extend ==> m1 == m && r == Ok::<
                (ActivityGuid, ActivityView),
                PaceError,
            >((id, m[id.bits()]))
            &&& r is Err ==> m1.dom() == m.dom()
        }),
{
    let (m1, r) = hold_outcome(m, id, action, begin, reason, new_id);
    assert(ended_where(m, ActivityFilterKind::ActiveIntermission, begin).dom() =~= m.dom());
}

/// An adjustment that fails changes nothing; without a start time one succeeds
/// whenever an activity is being tracked, and fails when none is.
pub proof fn law_adjust_fails_only_without_a_running_activity(
    opts: &AdjustCommandOptions,
    entries: Seq<LogEntry>,
    before: Map<u128, ActivityView>,
    after: Map<u128, ActivityView>,
    r: PaceResult<(ActivityItem, bool)>,
    now: PaceDateTime,
)
    requires
        strictly_increasing(entries),
        before == map_of(entries),
        adjust_outcome(opts, entries, before, after, r, now),
    ensures
        r is Err ==> after == before,
        opts.start is None && (exists|k: u128| #[trigger] before.contains_key(k) && is_running_activity(before[k]))
            ==> r is Ok,
        (forall|k: u128| #[trigger] before.contains_key(k) ==> !is_running_activity(before[k])) ==> r is Err
            && after == before,
{
    let p = |a: ActivityView| is_running_activity(a);
    lemma_last_where(entries, p);
    if exists|k: u128| #[trigger] before.contains_key(k) && is_running_activity(before[k]) {
        let k = choose|k: u128| #[trigger] before.contains_key(k) && is_running_activity(before[k]);
        let j = index_of(entries, k);
        lemma_index_of(entries, j);
        assert(p(entries[j].1));
    }
    if last_where(entries, p) is Some {
        let i = last_where(entries, p).unwrap();
        lemma_index_of(entries, i);
        assert(before.contains_key(entries[i].0));
    }
}

} // verus!
