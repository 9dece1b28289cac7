//! Sessions, groups and summaries of activities for reflections on a time range.
//!
//! Durations add up as `+=` on [`PaceDuration`] does: beyond `u64::MAX` seconds a sum
//! wraps around; durations subtracted from a session stop at zero.

use vstd::prelude::*;

use crate::activity::{ActivityItem, ActivityKind};
use crate::duration::PaceDuration;
use crate::duration::humantime_rendering;
use crate::text::{
    decimal, decimal_text, lemma_sorted_insert_at, lemma_text_less_irreflexive, lemma_text_less_total,
    lemma_text_less_transitive, sorted_insert, text_compare, text_less,
};
use crate::time::{time_range_text, PaceDateTime, TimeRangeOptions};
use tabled::builder::Builder;
use tabled::settings::object::Columns;
use tabled::settings::{Alignment, Modify, Padding, Panel, Settings, Style};
use std::ops::{AddAssign, SubAssign};

verus! {

/// The modulus of sums of seconds.
pub open spec fn wrapped(x: int) -> int {
    x % 0x1_0000_0000_0000_0000
}

/// The recorded durations of activities, added up.
pub open spec fn items_duration(items: Seq<ActivityItem>) -> int
    decreases items.len(),
{
    if items.len() == 0 {
        0
    } else {
        items_duration(items.drop_last()) + items.last().activity@.duration_or_zero().0
    }
}

/// `a` minus `b`, stopping at zero.
pub open spec fn minus_or_zero(a: int, b: int) -> int {
    if a >= b {
        a - b
    } else {
        0
    }
}

/// Adding `x` to a wrapped sum wraps the sum with `x`.
pub proof fn lemma_wrapped_add(acc: int, x: int)
    requires
        0 <= x < 0x1_0000_0000_0000_0000,
    ensures
        wrapped(wrapped(acc) + x) == wrapped(acc + x),
{
    vstd::arithmetic::div_mod::lemma_add_mod_noop(acc, x, 0x1_0000_0000_0000_0000);
    vstd::arithmetic::div_mod::lemma_small_mod(x as nat, 0x1_0000_0000_0000_0000);
}

/// A sum of `u64` values below the modulus is its own wrapped value.
proof fn lemma_wrapped_u64(x: u64)
    ensures
        wrapped(x as int) == x,
{
    vstd::arithmetic::div_mod::lemma_small_mod(x as nat, 0x1_0000_0000_0000_0000);
}

/// An activity with its intermissions.
#[derive(Debug)]
pub struct ActivitySession {
    /// The description of the activity.
    pub description: String,
    /// The activity.
    pub root_activity: ActivityItem,
    /// The duration of the activity without its intermissions.
    pub adjusted_duration: PaceDuration,
    /// The intermissions of the activity.
    pub intermissions: Vec<ActivityItem>,
    /// The duration of the intermissions.
    pub intermission_duration: PaceDuration,
}

impl ActivitySession {
    /// A session of an activity without intermissions; its duration is the recorded
    /// one, or zero if the activity has not ended.
    pub fn new(root_activity: ActivityItem) -> (s: Self)
        ensures
            s.description@ == root_activity.activity@.description,
            s.root_activity == root_activity,
            s.adjusted_duration == root_activity.activity@.duration_or_zero(),
            s.intermissions@.len() == 0,
            s.intermission_duration.0 == 0,
    {
        ActivitySession {
            description: root_activity.activity.description.clone(),
            adjusted_duration: root_activity.activity.duration_or_zero(),
            root_activity,
            intermissions: Vec::new(),
            intermission_duration: PaceDuration(0),
        }
    }

    /// Adds an intermission: its duration counts as a break and is taken off the
    /// duration of the session.
    pub fn add_intermission(&mut self, intermission: ActivityItem)
        ensures
            final(self).description == old(self).description,
            final(self).root_activity == old(self).root_activity,
            final(self).intermissions@ == old(self).intermissions@.push(intermission),
            final(self).intermission_duration.0 == wrapped(
                old(self).intermission_duration.0 + intermission.activity@.duration_or_zero().0,
            ),
            final(self).adjusted_duration.0 == minus_or_zero(
                old(self).adjusted_duration.0 as int,
                intermission.activity@.duration_or_zero().0 as int,
            ),
    {
        let d = intermission.activity.duration_or_zero();
        self.intermission_duration.add_assign(d);
        self.adjusted_duration.sub_assign(d);
        self.intermissions.push(intermission);
    }

    /// Adds intermissions one after the other.
    pub fn add_multiple_intermissions(&mut self, intermissions: Vec<ActivityItem>)
        ensures
            final(self).description == old(self).description,
            final(self).root_activity == old(self).root_activity,
            final(self).intermissions@ == old(self).intermissions@ + intermissions@,
            final(self).intermission_duration.0 == wrapped(
                old(self).intermission_duration.0 + items_duration(intermissions@),
            ),
            final(self).adjusted_duration.0 == minus_or_zero(
                old(self).adjusted_duration.0 as int,
                items_duration(intermissions@),
            ),
    {
        let ghost all = intermissions@;
        let mut rest = intermissions;
        let n = rest.len();
        let mut i: usize = 0;
        proof {
            lemma_wrapped_u64(self.intermission_duration.0);
            assert(all.take(0) =~= Seq::<ActivityItem>::empty());
        }
        while i < n
            invariant
                n == all.len(),
                i <= n,
                rest@ == all.skip(i as int),
                self.description == old(self).description,
                self.root_activity == old(self).root_activity,
                self.intermissions@ == old(self).intermissions@ + all.take(i as int),
                self.intermission_duration.0 == wrapped(
                    old(self).intermission_duration.0 + items_duration(all.take(i as int)),
                ),
                self.adjusted_duration.0 == minus_or_zero(
                    old(self).adjusted_duration.0 as int,
                    items_duration(all.take(i as int)),
                ),
            decreases n - i,
        {
            let item = rest.remove(0);
            proof {
                assert(item == all[i as int]);
                assert(all.take(i + 1).drop_last() =~= all.take(i as int));
                assert(all.take(i + 1).last() == all[i as int]);
                lemma_wrapped_add(
                    old(self).intermission_duration.0 + items_duration(all.take(i as int)),
                    item.activity@.duration_or_zero().0 as int,
                );
                assert(all.skip(i + 1) =~= all.skip(i as int).drop_first());
                assert(old(self).intermissions@ + all.take(i + 1) =~= (old(self).intermissions@
                    + all.take(i as int)).push(item));
                lemma_items_duration_nonneg(all.take(i as int));
            }
            self.add_intermission(item);
            i = i + 1;
        }
        proof {
            assert(all.take(n as int) =~= all);
        }
    }
}

/// Recorded durations never add up to less than zero.
proof fn lemma_items_duration_nonneg(items: Seq<ActivityItem>)
    ensures
        items_duration(items) >= 0,
    decreases items.len(),
{
    if items.len() > 0 {
        lemma_items_duration_nonneg(items.drop_last());
    }
}

/// Sessions of activities with the same description.
#[derive(Debug)]
pub struct ActivityGroup {
    /// The description shared by the sessions.
    pub description: String,
    /// The duration of the activities without their intermissions.
    pub adjusted_duration: PaceDuration,
    /// The duration of the intermissions.
    pub intermission_duration: PaceDuration,
    /// The number of intermissions.
    pub intermission_count: usize,
    /// The sessions of the group.
    pub activity_sessions: Vec<ActivitySession>,
}

/// The adjusted durations of sessions, added up.
pub open spec fn sessions_adjusted(s: Seq<ActivitySession>) -> int
    decreases s.len(),
{
    if s.len() == 0 {
        0
    } else {
        sessions_adjusted(s.drop_last()) + s.last().adjusted_duration.0
    }
}

/// The intermission durations of sessions, added up.
pub open spec fn sessions_breaks(s: Seq<ActivitySession>) -> int
    decreases s.len(),
{
    if s.len() == 0 {
        0
    } else {
        sessions_breaks(s.drop_last()) + s.last().intermission_duration.0
    }
}

/// The numbers of intermissions of sessions, added up.
pub open spec fn sessions_break_count(s: Seq<ActivitySession>) -> int
    decreases s.len(),
{
    if s.len() == 0 {
        0
    } else {
        sessions_break_count(s.drop_last()) + s.last().intermissions@.len()
    }
}

/// Sums over a prefix of sessions grow with the prefix.
proof fn lemma_sessions_sums_monotone(s: Seq<ActivitySession>, i: int)
    requires
        0 <= i <= s.len(),
    ensures
        0 <= sessions_break_count(s.take(i)) <= sessions_break_count(s),
    decreases s.len() - i,
{
    if i < s.len() {
        lemma_sessions_sums_monotone(s, i + 1);
        assert(s.take(i + 1).drop_last() =~= s.take(i));
        lemma_break_count_nonneg(s.take(i));
    } else {
        assert(s.take(i) =~= s);
        lemma_break_count_nonneg(s);
    }
}

proof fn lemma_break_count_nonneg(s: Seq<ActivitySession>)
    ensures
        sessions_break_count(s) >= 0,
    decreases s.len(),
{
    if s.len() > 0 {
        lemma_break_count_nonneg(s.drop_last());
    }
}

impl ActivityGroup {
    /// A group with the description, durations and number of intermissions of a
    /// session; the session itself is not kept in the group.
    pub fn with_session(activity_session: &ActivitySession) -> (g: Self)
        ensures
            g.description@ == activity_session.description@,
            g.adjusted_duration == activity_session.adjusted_duration,
            g.intermission_count == activity_session.intermissions@.len(),
            g.intermission_duration == activity_session.intermission_duration,
            g.activity_sessions@.len() == 0,
    {
        ActivityGroup {
            description: activity_session.description.clone(),
            adjusted_duration: activity_session.adjusted_duration,
            intermission_duration: activity_session.intermission_duration,
            intermission_count: activity_session.intermissions.len(),
            activity_sessions: Vec::new(),
        }
    }

    /// A group of sessions: the durations and the numbers of intermissions of the
    /// sessions added up.
    pub fn with_multiple_sessions(description: String, activity_sessions: Vec<ActivitySession>) -> (g:
        Self)
        requires
            sessions_break_count(activity_sessions@) <= usize::MAX,
        ensures
            g.description == description,
            g.activity_sessions == activity_sessions,
            g.adjusted_duration.0 == wrapped(sessions_adjusted(activity_sessions@)),
            g.intermission_duration.0 == wrapped(sessions_breaks(activity_sessions@)),
            g.intermission_count == sessions_break_count(activity_sessions@),
    {
        let mut adjusted_duration = PaceDuration(0);
        let mut intermission_duration = PaceDuration(0);
        let mut intermission_count: usize = 0;
        let mut i: usize = 0;
        let ghost s = activity_sessions@;
        proof {
            assert(s.take(0) =~= Seq::<ActivitySession>::empty());
            lemma_wrapped_u64(0);
        }
        while i < activity_sessions.len()
            invariant
                s == activity_sessions@,
                i <= s.len(),
                sessions_break_count(s) <= usize::MAX,
                adjusted_duration.0 == wrapped(sessions_adjusted(s.take(i as int))),
                intermission_duration.0 == wrapped(sessions_breaks(s.take(i as int))),
                intermission_count == sessions_break_count(s.take(i as int)),
            decreases s.len() - i,
        {
            let session = &activity_sessions[i as usize];
            proof {
                assert(s.take(i + 1).drop_last() =~= s.take(i as int));
                assert(s.take(i + 1).last() == s[i as int]);
                lemma_wrapped_add(sessions_adjusted(s.take(i as int)), session.adjusted_duration.0 as int);
                lemma_wrapped_add(sessions_breaks(s.take(i as int)), session.intermission_duration.0 as int);
                lemma_sessions_sums_monotone(s, i + 1);
            }
            adjusted_duration.add_assign(session.adjusted_duration);
            intermission_duration.add_assign(session.intermission_duration);
            intermission_count = intermission_count + session.intermissions.len();
            i = i + 1;
        }
        proof {
            assert(s.take(s.len() as int) =~= s);
        }
        ActivityGroup {
            description,
            adjusted_duration,
            intermission_duration,
            intermission_count,
            activity_sessions,
        }
    }

    /// Adds a session: its intermission duration is added, its adjusted duration taken
    /// off the duration of the group, stopping at zero; the number of intermissions
    /// stays as it is.
    pub fn add_session(&mut self, session: ActivitySession)
        ensures
            final(self).description == old(self).description,
            final(self).intermission_count == old(self).intermission_count,
            final(self).activity_sessions@ == old(self).activity_sessions@.push(session),
            final(self).intermission_duration.0 == wrapped(
                old(self).intermission_duration.0 + session.intermission_duration.0,
            ),
            final(self).adjusted_duration.0 == minus_or_zero(
                old(self).adjusted_duration.0 as int,
                session.adjusted_duration.0 as int,
            ),
    {
        self.intermission_duration.add_assign(session.intermission_duration);
        self.adjusted_duration.sub_assign(session.adjusted_duration);
        self.activity_sessions.push(session);
    }

    /// Adds sessions one after the other.
    pub fn add_multiple_sessions(&mut self, sessions: Vec<ActivitySession>)
        ensures
            final(self).description == old(self).description,
            final(self).intermission_count == old(self).intermission_count,
            final(self).activity_sessions@ == old(self).activity_sessions@ + sessions@,
            final(self).intermission_duration.0 == wrapped(
                old(self).intermission_duration.0 + sessions_breaks(sessions@),
            ),
            final(self).adjusted_duration.0 == minus_or_zero(
                old(self).adjusted_duration.0 as int,
                sessions_adjusted(sessions@),
            ),
    {
        let ghost all = sessions@;
        let mut rest = sessions;
        let n = rest.len();
        let mut i: usize = 0;
        proof {
            lemma_wrapped_u64(self.intermission_duration.0);
            assert(all.take(0) =~= Seq::<ActivitySession>::empty());
        }
        while i < n
            invariant
                n == all.len(),
                i <= n,
                rest@ == all.skip(i as int),
                self.description == old(self).description,
                self.intermission_count == old(self).intermission_count,
                self.activity_sessions@ == old(self).activity_sessions@ + all.take(i as int),
                self.intermission_duration.0 == wrapped(
                    old(self).intermission_duration.0 + sessions_breaks(all.take(i as int)),
                ),
                self.adjusted_duration.0 == minus_or_zero(
                    old(self).adjusted_duration.0 as int,
                    sessions_adjusted(all.take(i as int)),
                ),
            decreases n - i,
        {
            let session = rest.remove(0);
            proof {
                assert(session == all[i as int]);
                assert(all.take(i + 1).drop_last() =~= all.take(i as int));
                assert(all.take(i + 1).last() == all[i as int]);
                lemma_wrapped_add(
                    old(self).intermission_duration.0 + sessions_breaks(all.take(i as int)),
                    session.intermission_duration.0 as int,
                );
                assert(all.skip(i + 1) =~= all.skip(i as int).drop_first());
                assert(old(self).activity_sessions@ + all.take(i + 1) =~= (old(
                    self,
                ).activity_sessions@ + all.take(i as int)).push(session));
                lemma_sessions_adjusted_nonneg(all.take(i as int));
            }
            self.add_session(session);
            i = i + 1;
        }
        proof {
            assert(all.take(n as int) =~= all);
        }
    }
}

proof fn lemma_sessions_adjusted_nonneg(s: Seq<ActivitySession>)
    ensures
        sessions_adjusted(s) >= 0,
    decreases s.len(),
{
    if s.len() > 0 {
        lemma_sessions_adjusted_nonneg(s.drop_last());
    }
}

/// What a summary of a category knows about an activity group: its description, its
/// duration without intermissions, the duration and number of its intermissions, and
/// the number of its sessions.
pub struct GroupFacts {
    pub description: Seq<char>,
    pub adjusted: int,
    pub breaks: int,
    pub count: int,
    pub sessions: int,
}

/// What a summary of a category holds: its totals and its groups, in the order in which
/// they were kept.
pub struct SummaryFacts {
    pub total_duration: int,
    pub total_break_duration: int,
    pub total_break_count: int,
    pub groups: Seq<GroupFacts>,
}

/// Group facts ordered by their descriptions.
pub open spec fn by_description() -> spec_fn(GroupFacts, GroupFacts) -> bool {
    |x: GroupFacts, y: GroupFacts| text_less(x.description, y.description)
}

/// Groups ordered by their descriptions.
pub open spec fn by_group_description() -> spec_fn(ActivityGroup, ActivityGroup) -> bool {
    |x: ActivityGroup, y: ActivityGroup| text_less(x.description@, y.description@)
}

/// The descriptions of the groups of a summary.
pub open spec fn facts_descriptions(groups: Seq<GroupFacts>) -> Seq<Seq<char>> {
    groups.map_values(|g: GroupFacts| g.description)
}

impl ActivityGroup {
    /// What a summary knows about the group.
    pub open spec fn facts(&self) -> GroupFacts {
        GroupFacts {
            description: self.description@,
            adjusted: self.adjusted_duration.0 as int,
            breaks: self.intermission_duration.0 as int,
            count: self.intermission_count as int,
            sessions: self.activity_sessions@.len() as int,
        }
    }
}

/// The summary of a category that begins with one group.
pub open spec fn facts_with(g: GroupFacts) -> SummaryFacts {
    SummaryFacts {
        total_duration: g.adjusted,
        total_break_duration: g.breaks,
        total_break_count: g.count,
        groups: seq![g],
    }
}

/// The summary of a category after a group was added: its durations count, and it is
/// kept unless a group with its description is there already.
pub open spec fn facts_add(s: SummaryFacts, g: GroupFacts) -> SummaryFacts {
    SummaryFacts {
        total_duration: wrapped(s.total_duration + g.adjusted),
        total_break_duration: wrapped(s.total_break_duration + g.breaks),
        total_break_count: s.total_break_count,
        groups: if facts_descriptions(s.groups).contains(g.description) {
            s.groups
        } else {
            sorted_insert(s.groups, g, by_description())
        },
    }
}

/// The descriptions of the facts of groups are the descriptions of the groups.
pub proof fn lemma_facts_descriptions(groups: Seq<ActivityGroup>)
    ensures
        facts_descriptions(groups.map_values(|g: ActivityGroup| g.facts())) == group_descriptions(groups),
{
    assert(facts_descriptions(groups.map_values(|g: ActivityGroup| g.facts())) =~= group_descriptions(groups));
}

/// The descriptions of groups.
pub open spec fn group_descriptions(groups: Seq<ActivityGroup>) -> Seq<Seq<char>> {
    groups.map_values(|g: ActivityGroup| g.description@)
}

/// Whether one of the groups has the given description.
fn has_description(groups: &Vec<ActivityGroup>, description: &str) -> (b: bool)
    ensures
        b == group_descriptions(groups@).contains(description@),
{
    let ghost descs = group_descriptions(groups@);
    let mut i: usize = 0;
    while i < groups.len()
        invariant
            i <= groups@.len(),
            descs == group_descriptions(groups@),
            forall|j: int| 0 <= j < i ==> descs[j] != description@,
        decreases groups@.len() - i,
    {
        if crate::text::str_equals(groups[i].description.as_str(), description) {
            proof {
                assert(descs[i as int] == description@);
            }
            return true;
        }
        i = i + 1;
    }
    proof {
        if descs.contains(description@) {
            let j = choose|j: int| 0 <= j < descs.len() && #[trigger] descs[j] == description@;
            assert(descs[j] != description@);
        }
    }
    false
}

/// The activity groups of a category, by their descriptions, with their totals.
#[derive(Debug)]
pub struct SummaryActivityGroup {
    /// The time spent on the groups.
    pub total_duration: PaceDuration,
    /// The time spent on breaks.
    pub total_break_duration: PaceDuration,
    /// The number of breaks.
    pub total_break_count: usize,
    /// The groups; no description occurs twice.
    pub activity_groups_by_description: Vec<ActivityGroup>,
}

impl SummaryActivityGroup {
    /// No description occurs twice.
    pub open spec fn wf(&self) -> bool {
        &&& group_descriptions(self.activity_groups_by_description@).no_duplicates()
        &&& forall|a: int, b: int|
            0 <= a < b < self.activity_groups_by_description@.len() ==> text_less(
                self.activity_groups_by_description@[a].description@,
                self.activity_groups_by_description@[b].description@,
            )
    }

    /// The totals and the groups.
    pub open spec fn facts(&self) -> SummaryFacts {
        SummaryFacts {
            total_duration: self.total_duration.0 as int,
            total_break_duration: self.total_break_duration.0 as int,
            total_break_count: self.total_break_count as int,
            groups: self.activity_groups_by_description@.map_values(|g: ActivityGroup| g.facts()),
        }
    }

    /// A summary of a single group.
    pub fn with_activity_group(activity_group: ActivityGroup) -> (s: Self)
        ensures
            s.wf(),
            s.facts() == facts_with(activity_group.facts()),
            s.activity_groups_by_description@ == seq![activity_group],
    {
        let s = SummaryActivityGroup {
            total_break_count: activity_group.intermission_count,
            total_break_duration: activity_group.intermission_duration,
            total_duration: activity_group.adjusted_duration,
            activity_groups_by_description: vec![activity_group],
        };
        proof {
            assert(group_descriptions(s.activity_groups_by_description@) =~= seq![s.activity_groups_by_description@[0].description@]);
            assert(s.activity_groups_by_description@.map_values(|g: ActivityGroup| g.facts()) =~= seq![
                s.activity_groups_by_description@[0].facts(),
            ]);
        }
        s
    }

    /// Adds a group: its durations count towards the totals, and it is kept, in the
    /// order of the descriptions, unless a group with its description is there already.
    pub fn add_activity_group(&mut self, activity_group: ActivityGroup)
        requires
            old(self).wf(),
        ensures
            final(self).wf(),
            final(self).facts() == facts_add(old(self).facts(), activity_group.facts()),
            final(self).activity_groups_by_description@ == (if group_descriptions(
                old(self).activity_groups_by_description@,
            ).contains(activity_group.description@) {
                old(self).activity_groups_by_description@
            } else {
                sorted_insert(old(self).activity_groups_by_description@, activity_group, by_group_description())
            }),
    {
        let ghost g = activity_group.facts();
        proof {
            lemma_facts_descriptions(self.activity_groups_by_description@);
        }
        let ghost descs = group_descriptions(self.activity_groups_by_description@);
        let ghost before = self.activity_groups_by_description@;
        proof {
            lemma_wrapped_u64(self.total_duration.0);
            lemma_wrapped_u64(self.total_break_duration.0);
            lemma_wrapped_add(self.total_duration.0 as int, activity_group.adjusted_duration.0 as int);
            lemma_wrapped_add(self.total_break_duration.0 as int, activity_group.intermission_duration.0 as int);
        }
        self.total_duration.add_assign(activity_group.adjusted_duration);
        self.total_break_duration.add_assign(activity_group.intermission_duration);
        if has_description(&self.activity_groups_by_description, activity_group.description.as_str()) {
            return;
        }
        let mut p: usize = 0;
        while p < self.activity_groups_by_description.len()
            invariant
                p <= before.len(),
                self.activity_groups_by_description@ == before,
                forall|j: int| 0 <= j < p ==> text_less(#[trigger] before[j].description@, g.description),
                g == activity_group.facts(),
            ensures
                p <= before.len(),
                forall|j: int| 0 <= j < p ==> text_less(#[trigger] before[j].description@, g.description),
                p < before.len() ==> !text_less(before[p as int].description@, g.description),
            decreases before.len() - p,
        {
            if text_compare(self.activity_groups_by_description[p].description.as_str(), activity_group.description.as_str()) >= 0 {
                break;
            }
            p = p + 1;
        }
        let ghost facts_before = before.map_values(|x: ActivityGroup| x.facts());
        proof {
            assert forall|j: int| p <= j < before.len() implies !text_less(
                #[trigger] before[j].description@,
                g.description,
            ) by {
                if j > p && text_less(before[j].description@, g.description) {
                    lemma_text_less_transitive(before[p as int].description@, before[j].description@, g.description);
                }
            }
            assert forall|j: int| 0 <= j < p implies (#[trigger] by_group_description()(before[j], activity_group)) by {}
            assert forall|j: int| p <= j < before.len() implies !(#[trigger] by_group_description()(before[j], activity_group)) by {}
            lemma_sorted_insert_at(before, activity_group, by_group_description(), p as int);
            assert forall|j: int| 0 <= j < p implies (#[trigger] by_description()(facts_before[j], g)) by {}
            assert forall|j: int| p <= j < facts_before.len() implies !(#[trigger] by_description()(facts_before[j], g)) by {}
            lemma_sorted_insert_at(facts_before, g, by_description(), p as int);
        }
        let ghost new_group = activity_group;
        self.activity_groups_by_description.insert(p, activity_group);
        proof {
            let after = self.activity_groups_by_description@;
            assert(after =~= before.insert(p as int, new_group));
            let descs2 = group_descriptions(after);
            assert(descs2 =~= descs.insert(p as int, g.description));
            assert(after.map_values(|x: ActivityGroup| x.facts()) =~= facts_before.insert(p as int, g));
            assert forall|a: int, b: int| 0 <= a < b < after.len() implies text_less(
                after[a].description@,
                after[b].description@,
            ) by {
                if b < p {
                } else if b == p {
                } else if a < p {
                    assert(after[b] == before[b - 1]);
                } else if a == p {
                    assert(after[b] == before[b - 1]);
                    assert(descs[b - 1] == before[b - 1].description@);
                    assert(descs.contains(descs[b - 1]));
                    lemma_text_less_total(g.description, before[b - 1].description@);
                } else {
                    assert(after[a] == before[a - 1]);
                    assert(after[b] == before[b - 1]);
                }
            }
            assert forall|a: int, b: int| 0 <= a < b < descs2.len() implies descs2[a] != descs2[b] by {
                assert(descs2[a] == after[a].description@);
                assert(descs2[b] == after[b].description@);
                lemma_text_less_irreflexive(descs2[a]);
            }
        }
    }

    /// The number of groups.
    pub fn len(&self) -> (n: usize)
        ensures
            n == self.activity_groups_by_description@.len(),
    {
        self.activity_groups_by_description.len()
    }

    /// Whether there is no group.
    pub fn is_empty(&self) -> (b: bool)
        ensures
            b == (self.activity_groups_by_description@.len() == 0),
    {
        self.activity_groups_by_description.len() == 0
    }
}

/// A category and its subcategory.
pub type CategoryKey = (Seq<char>, Seq<char>);

/// The position of the first summary with the given key.
pub open spec fn key_position(v: Seq<(CategoryKey, SummaryFacts)>, key: CategoryKey) -> Option<int>
    decreases v.len(),
{
    if v.len() == 0 {
        None
    } else {
        match key_position(v.drop_last(), key) {
            Some(i) => Some(i),
            None => if v.last().0 == key {
                Some(v.len() - 1)
            } else {
                None
            },
        }
    }
}

/// The summaries after a group was added under a key: to the summary of that key, or
/// as the summary of a new key in the order of the keys.
pub open spec fn summaries_add(v: Seq<(CategoryKey, SummaryFacts)>, key: CategoryKey, g: GroupFacts) -> Seq<
    (CategoryKey, SummaryFacts),
> {
    match key_position(v, key) {
        Some(i) => v.update(i, (key, facts_add(v[i].1, g))),
        None => sorted_insert(v, (key, facts_with(g)), by_key()),
    }
}

/// The groups of a summary after a group was added: unchanged when a group with its
/// description is there, else with the group in the order of the descriptions.
pub open spec fn group_list_add(list: Seq<ActivityGroup>, g: ActivityGroup) -> Seq<ActivityGroup> {
    if group_descriptions(list).contains(g.description@) {
        list
    } else {
        sorted_insert(list, g, by_group_description())
    }
}

/// The groups of each key, ordered by their keys.
pub open spec fn by_key_of_groups() -> spec_fn(
    (CategoryKey, Seq<ActivityGroup>),
    (CategoryKey, Seq<ActivityGroup>),
) -> bool {
    |x: (CategoryKey, Seq<ActivityGroup>), y: (CategoryKey, Seq<ActivityGroup>)| key_less(x.0, y.0)
}

/// The order of keys: by category, then by subcategory, each in the order of Rust's
/// strings.
pub open spec fn key_less(a: CategoryKey, b: CategoryKey) -> bool {
    text_less(a.0, b.0) || (a.0 == b.0 && text_less(a.1, b.1))
}

/// Summaries ordered by their keys.
pub open spec fn by_key() -> spec_fn((CategoryKey, SummaryFacts), (CategoryKey, SummaryFacts)) -> bool {
    |x: (CategoryKey, SummaryFacts), y: (CategoryKey, SummaryFacts)| key_less(x.0, y.0)
}

/// The order of keys is transitive.
pub proof fn lemma_key_less_transitive(a: CategoryKey, b: CategoryKey, c: CategoryKey)
    requires
        key_less(a, b),
        key_less(b, c),
    ensures
        key_less(a, c),
{
    if text_less(a.0, b.0) && text_less(b.0, c.0) {
        lemma_text_less_transitive(a.0, b.0, c.0);
    } else if text_less(a.1, b.1) && text_less(b.1, c.1) && a.0 == b.0 && b.0 == c.0 {
        lemma_text_less_transitive(a.1, b.1, c.1);
    }
}

/// Of two different keys, one comes before the other, and no key before itself.
pub proof fn lemma_key_less_total(a: CategoryKey, b: CategoryKey)
    ensures
        a == b || key_less(a, b) || key_less(b, a),
        !key_less(a, a),
{
    lemma_text_less_total(a.0, b.0);
    lemma_text_less_total(a.1, b.1);
    lemma_text_less_irreflexive(a.0);
    lemma_text_less_irreflexive(a.1);
}

/// The total durations of summaries, added up.
pub open spec fn summaries_duration(v: Seq<(CategoryKey, SummaryFacts)>) -> int
    decreases v.len(),
{
    if v.len() == 0 {
        0
    } else {
        summaries_duration(v.drop_last()) + v.last().1.total_duration
    }
}

/// The break durations of summaries, added up.
pub open spec fn summaries_breaks(v: Seq<(CategoryKey, SummaryFacts)>) -> int
    decreases v.len(),
{
    if v.len() == 0 {
        0
    } else {
        summaries_breaks(v.drop_last()) + v.last().1.total_break_duration
    }
}

/// The first position of a key, when no earlier entry has it.
proof fn lemma_key_position(v: Seq<(CategoryKey, SummaryFacts)>, key: CategoryKey, i: int)
    requires
        0 <= i <= v.len(),
        forall|j: int| 0 <= j < i ==> #[trigger] v[j].0 != key,
    ensures
        i < v.len() && v[i].0 == key ==> key_position(v, key) == Some(i),
        i == v.len() ==> key_position(v, key) is None,
    decreases v.len(),
{
    if v.len() > 0 {
        if i < v.len() {
            if v[i].0 == key {
                if i < v.len() - 1 {
                    lemma_key_position(v.drop_last(), key, i);
                } else {
                    lemma_key_position(v.drop_last(), key, i);
                }
            }
        } else {
            lemma_key_position(v.drop_last(), key, i - 1);
        }
    }
}

/// The summary of one category.
#[derive(Debug)]
pub struct SummaryCategoryEntry {
    pub category: String,
    pub subcategory: String,
    pub group: SummaryActivityGroup,
}

impl SummaryCategoryEntry {
    pub open spec fn key(&self) -> CategoryKey {
        (self.category@, self.subcategory@)
    }
}

/// Summaries by category and subcategory, in the order of their keys; no key occurs
/// twice.
#[derive(Debug)]
pub struct SummaryGroupByCategory {
    entries: Vec<SummaryCategoryEntry>,
}

impl View for SummaryGroupByCategory {
    type V = Seq<(CategoryKey, SummaryFacts)>;

    closed spec fn view(&self) -> Seq<(CategoryKey, SummaryFacts)> {
        self.entries@.map_values(|e: SummaryCategoryEntry| (e.key(), e.group.facts()))
    }
}

impl SummaryGroupByCategory {
    /// The keys are in increasing order, so no key occurs twice, and every summary is
    /// well formed.
    pub closed spec fn wf(&self) -> bool {
        &&& forall|a: int, b: int|
            0 <= a < b < self.entries@.len() ==> key_less(self.entries@[a].key(), self.entries@[b].key())
        &&& forall|a: int| 0 <= a < self.entries@.len() ==> (#[trigger] self.entries@[a]).group.wf()
    }

    /// The summaries.
    pub closed spec fn items(&self) -> Seq<SummaryCategoryEntry> {
        self.entries@
    }

    /// The groups of each summary, with its key, in the order of the keys.
    pub open spec fn grouped(&self) -> Seq<(CategoryKey, Seq<ActivityGroup>)> {
        self.items().map_values(
            |e: SummaryCategoryEntry| (e.key(), e.group.activity_groups_by_description@),
        )
    }

    /// No summaries.
    pub fn new() -> (m: Self)
        ensures
            m.wf(),
            m@ == Seq::<(CategoryKey, SummaryFacts)>::empty(),
    {
        let m = SummaryGroupByCategory { entries: Vec::new() };
        assert(m@ =~= Seq::<(CategoryKey, SummaryFacts)>::empty());
        m
    }

    /// The summaries, in order.
    pub fn entries(&self) -> (r: &Vec<SummaryCategoryEntry>)
        ensures
            r@ == self.items(),
            r@.map_values(|e: SummaryCategoryEntry| (e.key(), e.group.facts())) == self@,
    {
        &self.entries
    }

    /// The number of categories.
    pub fn len(&self) -> (n: usize)
        ensures
            n == self@.len(),
    {
        self.entries.len()
    }

    /// Whether there is no category.
    pub fn is_empty(&self) -> (b: bool)
        ensures
            b == (self@.len() == 0),
    {
        self.entries.len() == 0
    }

    /// Adds a group under a category and a subcategory.
    pub fn add(&mut self, category: String, subcategory: String, group: ActivityGroup)
        requires
            old(self).wf(),
        ensures
            final(self).wf(),
            final(self)@ == summaries_add(old(self)@, (category@, subcategory@), group.facts()),
            final(self).grouped() == match key_position(old(self)@, (category@, subcategory@)) {
                Some(i) => old(self).grouped().update(
                    i,
                    ((category@, subcategory@), group_list_add(old(self).grouped()[i].1, group)),
                ),
                None => sorted_insert(
                    old(self).grouped(),
                    ((category@, subcategory@), seq![group]),
                    by_key_of_groups(),
                ),
            },
    {
        let ghost key = (category@, subcategory@);
        let ghost v = self@;
        let mut i: usize = 0;
        while i < self.entries.len()
            invariant
                i <= self.entries@.len(),
                v == self@,
                forall|j: int| 0 <= j < i ==> #[trigger] self.entries@[j].key() != key,
                key == (category@, subcategory@),
            ensures
                i <= self.entries@.len(),
                forall|j: int| 0 <= j < i ==> #[trigger] self.entries@[j].key() != key,
                i < self.entries@.len() ==> self.entries@[i as int].key() == key,
            decreases self.entries@.len() - i,
        {
            if crate::text::str_equals(self.entries[i].category.as_str(), category.as_str())
                && crate::text::str_equals(self.entries[i].subcategory.as_str(), subcategory.as_str()) {
                break;
            }
            i = i + 1;
        }
        proof {
            assert forall|j: int| 0 <= j < i implies #[trigger] v[j].0 != key by {
                assert(v[j].0 == self.entries@[j].key());
            }
            lemma_key_position(v, key, i as int);
        }
        if i < self.entries.len() {
            let ghost facts = group.facts();
            let ghost old_entries = self.entries@;
            let mut entry = self.entries.remove(i);
            proof {
                assert(entry == old_entries[i as int]);
                assert(entry.group.wf());
            }
            let ghost g0 = group;
            entry.group.add_activity_group(group);
            let ghost new_entry = entry;
            self.entries.insert(i, entry);
            proof {
                assert(self.entries@ =~= old_entries.update(i as int, new_entry));
                assert(self.grouped() =~= old(self).grouped().update(
                    i as int,
                    (key, group_list_add(old(self).grouped()[i as int].1, g0)),
                ));
                assert(new_entry.key() == key);
                assert(self@[i as int] == (key, facts_add(v[i as int].1, facts)));
                assert(self@ =~= summaries_add(v, key, facts));
            }
        } else {
            let ghost facts = group.facts();
            let ghost old_entries = self.entries@;
            let mut p: usize = 0;
            while p < self.entries.len()
                invariant
                    p <= self.entries@.len(),
                    self.entries@ == old_entries,
                    forall|j: int| 0 <= j < p ==> key_less(#[trigger] old_entries[j].key(), key),
                    key == (category@, subcategory@),
                ensures
                    p <= old_entries.len(),
                    forall|j: int| 0 <= j < p ==> key_less(#[trigger] old_entries[j].key(), key),
                    p < old_entries.len() ==> !key_less(old_entries[p as int].key(), key),
                decreases self.entries@.len() - p,
            {
                let c = text_compare(self.entries[p].category.as_str(), category.as_str());
                let less = c < 0 || (c == 0 && text_compare(
                    self.entries[p].subcategory.as_str(),
                    subcategory.as_str(),
                ) < 0);
                if !less {
                    break;
                }
                p = p + 1;
            }
            proof {
                assert forall|j: int| p <= j < old_entries.len() implies !key_less(
                    #[trigger] old_entries[j].key(),
                    key,
                ) by {
                    if j > p && key_less(old_entries[j].key(), key) {
                        lemma_key_less_transitive(old_entries[p as int].key(), old_entries[j].key(), key);
                    }
                }
                let x = (key, facts_with(facts));
                assert forall|j: int| 0 <= j < p implies (#[trigger] by_key()(v[j], x)) by {
                    assert(v[j].0 == old_entries[j].key());
                }
                assert forall|j: int| p <= j < v.len() implies !(#[trigger] by_key()(v[j], x)) by {
                    assert(v[j].0 == old_entries[j].key());
                }
                lemma_sorted_insert_at(v, x, by_key(), p as int);
                let gv = old(self).grouped();
                let y = (key, seq![group]);
                assert forall|j: int| 0 <= j < p implies (#[trigger] by_key_of_groups()(gv[j], y)) by {
                    assert(gv[j].0 == old_entries[j].key());
                }
                assert forall|j: int| p <= j < gv.len() implies !(#[trigger] by_key_of_groups()(gv[j], y)) by {
                    assert(gv[j].0 == old_entries[j].key());
                }
                lemma_sorted_insert_at(gv, y, by_key_of_groups(), p as int);
            }
            let ghost g0 = group;
            let entry = SummaryCategoryEntry {
                category,
                subcategory,
                group: SummaryActivityGroup::with_activity_group(group),
            };
            let ghost new_entry = entry;
            self.entries.insert(p, entry);
            proof {
                assert(self.entries@ =~= old_entries.insert(p as int, new_entry));
                assert(self@ =~= v.insert(p as int, (key, facts_with(facts))));
                assert(self.grouped() =~= old(self).grouped().insert(p as int, (key, seq![g0])));
                assert(self@ =~= summaries_add(v, key, facts));
                let e = self.entries@;
                assert forall|a: int, b: int| 0 <= a < b < e.len() implies key_less(e[a].key(), e[b].key()) by {
                    if b < p {
                    } else if b == p {
                        assert(key_less(old_entries[a].key(), key));
                    } else if a < p {
                        assert(e[b] == old_entries[b - 1]);
                    } else if a == p {
                        assert(e[b] == old_entries[b - 1]);
                        assert(old_entries[b - 1].key() != key);
                        lemma_key_less_total(key, old_entries[b - 1].key());
                    } else {
                        assert(e[a] == old_entries[a - 1]);
                        assert(e[b] == old_entries[b - 1]);
                    }
                }
                assert forall|a: int| 0 <= a < e.len() implies (#[trigger] e[a]).group.wf() by {
                    if a < p {
                    } else if a > p {
                        assert(e[a] == old_entries[a - 1]);
                    }
                }
            }
        }
    }
}

/// A reflection on a time range: the summaries by category and the totals.
#[derive(Debug)]
pub struct ReflectionSummary {
    /// The time range of the reflection.
    pub time_range: TimeRangeOptions,
    /// The time spent on all activities of the range.
    pub total_time_spent: PaceDuration,
    /// The time spent on breaks.
    pub total_break_duration: PaceDuration,
    /// The summaries by category.
    pub summary_groups_by_category: SummaryGroupByCategory,
}

impl ReflectionSummary {
    /// A reflection whose totals add up those of its summaries.
    pub fn new(time_range: TimeRangeOptions, summary_groups_by_category: SummaryGroupByCategory) -> (r:
        Self)
        ensures
            r.time_range == time_range,
            r.summary_groups_by_category == summary_groups_by_category,
            r.total_time_spent.0 == wrapped(summaries_duration(summary_groups_by_category@)),
            r.total_break_duration.0 == wrapped(summaries_breaks(summary_groups_by_category@)),
    {
        let ghost v = summary_groups_by_category@;
        let mut total: u64 = 0;
        let mut breaks: u64 = 0;
        let mut i: usize = 0;
        let entries = summary_groups_by_category.entries();
        proof {
            assert(v.take(0) =~= Seq::<(CategoryKey, SummaryFacts)>::empty());
            lemma_wrapped_u64(0);
        }
        while i < entries.len()
            invariant
                i <= entries@.len(),
                entries@.map_values(|e: SummaryCategoryEntry| (e.key(), e.group.facts())) == v,
                total == wrapped(summaries_duration(v.take(i as int))),
                breaks == wrapped(summaries_breaks(v.take(i as int))),
            decreases entries@.len() - i,
        {
            proof {
                assert(v.take(i + 1).drop_last() =~= v.take(i as int));
                assert(v.take(i + 1).last() == v[i as int]);
                lemma_wrapped_add(summaries_duration(v.take(i as int)), entries@[i as int].group.total_duration.0 as int);
                lemma_wrapped_add(summaries_breaks(v.take(i as int)), entries@[i as int].group.total_break_duration.0 as int);
            }
            total = total.wrapping_add(entries[i].group.total_duration.0);
            breaks = breaks.wrapping_add(entries[i].group.total_break_duration.0);
            i = i + 1;
        }
        proof {
            assert(v.take(i as int) =~= v);
        }
        ReflectionSummary {
            time_range,
            total_time_spent: PaceDuration(total),
            total_break_duration: PaceDuration(breaks),
            summary_groups_by_category,
        }
    }
}

/// Highlights of a period: quick insights into key figures.
#[derive(Debug)]
pub struct Highlights {
    /// The day with the most productive hours.
    pub most_productive_day: PaceDateTime,
    /// The kind of activity logged most often.
    pub most_frequent_activity_kind: ActivityKind,
    /// The activity that took the most time.
    pub most_time_spent_on: ActivityItem,
}

/// A duration in human words followed by a count in brackets, e.g. `1h 5m (2)`.
pub open spec fn with_count(secs: u64, count: nat) -> Seq<char> {
    humantime_rendering(secs) + " ("@ + decimal_text(count) + ")"@
}

/// The row of a group in the table of a reflection: the subcategory, the description,
/// the duration with the number of sessions and the breaks with their number.
pub open spec fn group_row(subcategory: Seq<char>, g: ActivityGroup) -> Seq<Seq<char>> {
    seq![
        subcategory,
        g.description@,
        with_count(g.adjusted_duration.0, g.activity_sessions@.len()),
        with_count(g.intermission_duration.0, g.intermission_count as nat),
    ]
}

/// The rows of the groups of a category, in order.
pub open spec fn group_rows(subcategory: Seq<char>, groups: Seq<ActivityGroup>) -> Seq<Seq<Seq<char>>>
    decreases groups.len(),
{
    if groups.len() == 0 {
        Seq::empty()
    } else {
        group_rows(subcategory, groups.drop_last()).push(group_row(subcategory, groups.last()))
    }
}

/// The row of a category in the table of a reflection: the category, its duration and
/// its breaks.
pub open spec fn category_row(e: SummaryCategoryEntry) -> Seq<Seq<char>> {
    seq![
        e.category@,
        Seq::empty(),
        humantime_rendering(e.group.total_duration.0),
        humantime_rendering(e.group.total_break_duration.0),
    ]
}

/// The rows of the categories, each followed by the rows of its groups.
pub open spec fn category_rows(entries: Seq<SummaryCategoryEntry>) -> Seq<Seq<Seq<char>>>
    decreases entries.len(),
{
    if entries.len() == 0 {
        Seq::empty()
    } else {
        category_rows(entries.drop_last()).push(category_row(entries.last())) + group_rows(
            entries.last().subcategory@,
            entries.last().group.activity_groups_by_description@,
        )
    }
}

/// The first row of the table of a reflection.
pub open spec fn reflection_title_row() -> Seq<Seq<char>> {
    seq!["Category"@, "Description"@, "Duration (Sessions)"@, "Breaks (Amount)"@]
}

/// The rows of the table of a reflection: the titles, the categories with their
/// groups, and the totals.
pub open spec fn reflection_rows(r: ReflectionSummary) -> Seq<Seq<Seq<char>>> {
    seq![reflection_title_row()] + category_rows(r.summary_groups_by_category.items()) + seq![
        seq![
            "Total"@,
            Seq::empty(),
            humantime_rendering(r.total_time_spent.0),
            humantime_rendering(r.total_break_duration.0),
        ],
    ]
}

/// The header above the table of a reflection.
pub open spec fn reflection_header(r: ReflectionSummary) -> Seq<char> {
    "Your activity insights for the period:\n\n"@ + time_range_text(r.time_range)
}

/// The table that `tabled` draws for a header and rows in the style of a reflection.
pub uninterp spec fn tabled_reflection_table(header: Seq<char>, rows: Seq<Seq<Seq<char>>>) -> Seq<char>;

/// `tabled`'s `Builder` from the rows, built into a table with the header as a panel
/// above it, a padding of one space left and right, the modern rounded style, the
/// columns from the third on aligned right and the first two centered; the table as
/// text. What the text is, is left to the name.
#[verifier::external_body]
fn draw_reflection_table(header: String, rows: Vec<Vec<String>>) -> (r: String)
    ensures
        r@ == tabled_reflection_table(header@, rows.deep_view()),
{
    let table_config = Settings::default()
        .with(Panel::header(header))
        .with(Padding::new(1, 1, 0, 0))
        .with(Style::modern_rounded())
        .with(Modify::new(Columns::new(2..)).with(Alignment::right()))
        .with(Modify::new(Columns::new(0..=1)).with(Alignment::center()));
    Builder::from(rows).build().with(table_config).to_string()
}

/// A row of four cells.
fn row_of(a: String, b: String, c: String, d: String) -> (r: Vec<String>)
    ensures
        r.deep_view() == seq![a@, b@, c@, d@],
{
    let ghost cells = seq![a@, b@, c@, d@];
    let r = vec![a, b, c, d];
    assert(r.deep_view() =~= cells);
    r
}

/// Appends a row to rows.
fn push_row(rows: &mut Vec<Vec<String>>, row: Vec<String>)
    ensures
        final(rows).deep_view() == old(rows).deep_view().push(row.deep_view()),
{
    let ghost before = rows.deep_view();
    let ghost added = row.deep_view();
    rows.push(row);
    assert(rows.deep_view() =~= before.push(added));
}

/// A duration in human words followed by a count in brackets.
fn with_count_text(secs: u64, count: u64) -> (s: String)
    ensures
        s@ == with_count(secs, count as nat),
{
    let mut s = PaceDuration(secs).human_readable();
    s.append(" (");
    let n = decimal(count);
    s.append(n.as_str());
    s.append(")");
    s
}

impl ReflectionSummary {
    /// The rows of the table of the reflection: the titles, each category with its
    /// duration and breaks followed by its groups with their durations, sessions and
    /// breaks, and the totals.
    pub fn rows(&self) -> (r: Vec<Vec<String>>)
        ensures
            r.deep_view() == reflection_rows(*self),
    {
        let ghost items = self.summary_groups_by_category.items();
        let mut rows: Vec<Vec<String>> = Vec::new();
        push_row(
            &mut rows,
            row_of(
                String::from_str("Category"),
                String::from_str("Description"),
                String::from_str("Duration (Sessions)"),
                String::from_str("Breaks (Amount)"),
            ),
        );
        let ghost head = seq![reflection_title_row()];
        assert(rows.deep_view() =~= head + category_rows(items.take(0)));
        let entries = self.summary_groups_by_category.entries();
        let mut i: usize = 0;
        while i < entries.len()
            invariant
                i <= entries@.len(),
                entries@ == items,
                rows.deep_view() == head + category_rows(items.take(i as int)),
            decreases entries@.len() - i,
        {
            let entry = &entries[i];
            proof {
                assert(items.take(i + 1).drop_last() =~= items.take(i as int));
                assert(items.take(i + 1).last() == *entry);
            }
            push_row(
                &mut rows,
                row_of(
                    entry.category.clone(),
                    String::new(),
                    entry.group.total_duration.human_readable(),
                    entry.group.total_break_duration.human_readable(),
                ),
            );
            let ghost base = rows.deep_view();
            let groups = &entry.group.activity_groups_by_description;
            let ghost sub = entry.subcategory@;
            proof {
                assert(groups@.take(0) =~= Seq::<ActivityGroup>::empty());
                assert(base + group_rows(sub, groups@.take(0)) =~= base);
            }
            let mut j: usize = 0;
            while j < groups.len()
                invariant
                    j <= groups@.len(),
                    sub == entry.subcategory@,
                    rows.deep_view() == base + group_rows(sub, groups@.take(j as int)),
                decreases groups@.len() - j,
            {
                let group = &groups[j];
                proof {
                    assert(groups@.take(j + 1).drop_last() =~= groups@.take(j as int));
                    assert(groups@.take(j + 1).last() == *group);
                }
                push_row(
                    &mut rows,
                    row_of(
                        entry.subcategory.clone(),
                        group.description.clone(),
                        with_count_text(group.adjusted_duration.0, group.activity_sessions.len() as u64),
                        with_count_text(group.intermission_duration.0, group.intermission_count as u64),
                    ),
                );
                proof {
                    assert(rows.deep_view() =~= base + group_rows(sub, groups@.take(j + 1)));
                }
                j = j + 1;
            }
            proof {
                assert(groups@.take(groups@.len() as int) =~= groups@);
                assert(rows.deep_view() =~= head + category_rows(items.take(i + 1)));
            }
            i = i + 1;
        }
        proof {
            assert(items.take(entries@.len() as int) =~= items);
        }
        push_row(
            &mut rows,
            row_of(
                String::from_str("Total"),
                String::new(),
                self.total_time_spent.human_readable(),
                self.total_break_duration.human_readable(),
            ),
        );
        proof {
            assert(rows.deep_view() =~= reflection_rows(*self));
        }
        rows
    }

    /// The reflection as a table that `tabled` draws: the time range above it, then
    /// the rows of [`ReflectionSummary::rows`].
    pub fn table_text(&self) -> (s: String)
        ensures
            s@ == tabled_reflection_table(reflection_header(*self), reflection_rows(*self)),
    {
        let mut header = String::from_str("Your activity insights for the period:\n\n");
        let range = self.time_range.text();
        header.append(range.as_str());
        draw_reflection_table(header, self.rows())
    }
}

} // verus!
