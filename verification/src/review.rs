//! Reviews of a time range: activities with their intermissions, grouped by category.

use vstd::prelude::*;

use crate::activity::{ActivityItem, ActivityKind};
use crate::activity_log::{entries_of, LogEntry};
use crate::duration::PaceDuration;
use crate::summary::{items_duration, minus_or_zero, wrapped, lemma_wrapped_add};
use crate::duration::humantime_rendering;
use crate::text::{lemma_sorted_insert_at, lemma_text_less_total, lemma_text_less_transitive, sorted_insert, text_compare, text_less};
use crate::time::{time_range_text, PaceDateTime, TimeRangeOptions};
use std::ops::{AddAssign, SubAssign};

verus! {

/// An activity with its intermissions, which count against its duration.
#[derive(Debug)]
pub struct ActivityGroup {
    /// The description of the activity.
    pub description: String,
    /// The activity.
    pub root_activity: ActivityItem,
    /// The intermissions of the activity.
    pub intermissions: Vec<ActivityItem>,
    /// The duration of the activity without its intermissions.
    pub adjusted_duration: PaceDuration,
}

/// What a review knows about a group: its description, its activity and its
/// intermissions as entries, and its adjusted duration.
pub struct ReviewGroupFacts {
    pub description: Seq<char>,
    pub root: LogEntry,
    pub intermissions: Seq<LogEntry>,
    pub adjusted: int,
}

impl ActivityGroup {
    pub open spec fn facts(&self) -> ReviewGroupFacts {
        ReviewGroupFacts {
            description: self.description@,
            root: (self.root_activity.guid.bits(), self.root_activity.activity@),
            intermissions: entries_of(self.intermissions@),
            adjusted: self.adjusted_duration.0 as int,
        }
    }

    /// The group of an activity without intermissions; its duration is the recorded one,
    /// or zero if the activity has not ended.
    pub fn new(root_activity: ActivityItem) -> (g: Self)
        ensures
            g.description@ == root_activity.activity@.description,
            g.root_activity == root_activity,
            g.intermissions@.len() == 0,
            g.adjusted_duration == root_activity.activity@.duration_or_zero(),
    {
        ActivityGroup {
            description: root_activity.activity.description.clone(),
            adjusted_duration: root_activity.activity.duration_or_zero(),
            root_activity,
            intermissions: Vec::new(),
        }
    }

    /// Adds an intermission: its duration is taken off the duration of the group,
    /// stopping at zero.
    pub fn add_intermission(&mut self, intermission: ActivityItem)
        ensures
            final(self).description == old(self).description,
            final(self).root_activity == old(self).root_activity,
            final(self).intermissions@ == old(self).intermissions@.push(intermission),
            final(self).adjusted_duration.0 == minus_or_zero(
                old(self).adjusted_duration.0 as int,
                intermission.activity@.duration_or_zero().0 as int,
            ),
    {
        let d = intermission.activity.duration_or_zero();
        self.adjusted_duration.sub_assign(d);
        self.intermissions.push(intermission);
    }

    /// Adds intermissions one after the other.
    pub fn add_multiple_intermissions(&mut self, intermissions: Vec<ActivityItem>)
        ensures
            final(self).description == old(self).description,
            final(self).root_activity == old(self).root_activity,
            final(self).intermissions@ == old(self).intermissions@ + intermissions@,
            final(self).adjusted_duration.0 == minus_or_zero(
                old(self).adjusted_duration.0 as int,
                items_duration(intermissions@),
            ),
    {
        let ghost all = intermissions@;
        let mut rest = intermissions;
        let n = rest.len();
        let mut i: usize = 0;
        proof {
            assert(all.take(0) =~= Seq::<ActivityItem>::empty());
        }
        while i < n
            invariant
                n == all.len(),
                i <= n,
                rest@ == all.skip(i as int),
                self.description == old(self).description,
                self.root_activity == old(self).root_activity,
                self.intermissions@ == old(self).intermissions@ + all.take(i as int),
                self.adjusted_duration.0 == minus_or_zero(
                    old(self).adjusted_duration.0 as int,
                    items_duration(all.take(i as int)),
                ),
            decreases n - i,
        {
            let item = rest.remove(0);
            proof {
                assert(item == all[i as int]);
                assert(all.take(i + 1).drop_last() =~= all.take(i as int));
                assert(all.take(i + 1).last() == all[i as int]);
                assert(all.skip(i + 1) =~= all.skip(i as int).drop_first());
                assert(old(self).intermissions@ + all.take(i + 1) =~= (old(self).intermissions@
                    + all.take(i as int)).push(item));
                lemma_items_duration_nonneg(all.take(i as int));
            }
            self.add_intermission(item);
            i = i + 1;
        }
        proof {
            assert(all.take(n as int) =~= all);
        }
    }
}

proof fn lemma_items_duration_nonneg(items: Seq<ActivityItem>)
    ensures
        items_duration(items) >= 0,
    decreases items.len(),
{
    if items.len() > 0 {
        lemma_items_duration_nonneg(items.drop_last());
    }
}

/// The facts of groups, in order.
pub open spec fn groups_facts(groups: Seq<ActivityGroup>) -> Seq<ReviewGroupFacts> {
    groups.map_values(|g: ActivityGroup| g.facts())
}

/// The adjusted durations of groups, added up.
pub open spec fn groups_duration(groups: Seq<ReviewGroupFacts>) -> int
    decreases groups.len(),
{
    if groups.len() == 0 {
        0
    } else {
        groups_duration(groups.drop_last()) + groups.last().adjusted
    }
}

/// The groups of a category with their total duration.
#[derive(Debug)]
pub struct SummaryGroup {
    /// The time spent on the groups.
    pub total_duration: PaceDuration,
    /// The groups, in the order in which they were added.
    pub activity_groups: Vec<ActivityGroup>,
}

/// What a review knows about the groups of a category.
pub struct ReviewSummaryFacts {
    pub total_duration: int,
    pub groups: Seq<ReviewGroupFacts>,
}

/// The summary of a category after a group was added.
pub open spec fn review_facts_add(s: ReviewSummaryFacts, g: ReviewGroupFacts) -> ReviewSummaryFacts {
    ReviewSummaryFacts { total_duration: wrapped(s.total_duration + g.adjusted), groups: s.groups.push(g) }
}

/// The summary of a category that begins with one group.
pub open spec fn review_facts_with(g: ReviewGroupFacts) -> ReviewSummaryFacts {
    ReviewSummaryFacts { total_duration: g.adjusted, groups: seq![g] }
}

impl SummaryGroup {
    pub open spec fn facts(&self) -> ReviewSummaryFacts {
        ReviewSummaryFacts {
            total_duration: self.total_duration.0 as int,
            groups: groups_facts(self.activity_groups@),
        }
    }

    /// A summary of groups whose total adds up their adjusted durations.
    pub fn new(activity_groups: Vec<ActivityGroup>) -> (s: Self)
        ensures
            s.activity_groups == activity_groups,
            s.total_duration.0 == wrapped(groups_duration(groups_facts(activity_groups@))),
    {
        let ghost f = groups_facts(activity_groups@);
        let mut total: u64 = 0;
        let mut i: usize = 0;
        proof {
            assert(f.take(0) =~= Seq::<ReviewGroupFacts>::empty());
            vstd::arithmetic::div_mod::lemma_small_mod(0, 0x1_0000_0000_0000_0000);
        }
        while i < activity_groups.len()
            invariant
                i <= activity_groups@.len(),
                f == groups_facts(activity_groups@),
                total == wrapped(groups_duration(f.take(i as int))),
            decreases activity_groups@.len() - i,
        {
            proof {
                assert(f.take(i + 1).drop_last() =~= f.take(i as int));
                assert(f.take(i + 1).last() == f[i as int]);
                lemma_wrapped_add(groups_duration(f.take(i as int)), activity_groups@[i as int].adjusted_duration.0 as int);
            }
            total = total.wrapping_add(activity_groups[i].adjusted_duration.0);
            i = i + 1;
        }
        proof {
            assert(f.take(i as int) =~= f);
        }
        SummaryGroup { total_duration: PaceDuration(total), activity_groups }
    }

    /// A summary of one group.
    pub fn with_activity_group(activity_group: ActivityGroup) -> (s: Self)
        ensures
            s.facts() == review_facts_with(activity_group.facts()),
            s.activity_groups@ == seq![activity_group],
    {
        let s = SummaryGroup {
            total_duration: activity_group.adjusted_duration,
            activity_groups: vec![activity_group],
        };
        proof {
            assert(groups_facts(s.activity_groups@) =~= seq![s.activity_groups@[0].facts()]);
        }
        s
    }

    /// Adds a group: its adjusted duration counts towards the total.
    pub fn add_activity_group(&mut self, activity_group: ActivityGroup)
        ensures
            final(self).facts() == review_facts_add(old(self).facts(), activity_group.facts()),
            final(self).activity_groups@ == old(self).activity_groups@.push(activity_group),
    {
        let ghost g = activity_group.facts();
        let ghost before = self.activity_groups@;
        proof {
            vstd::arithmetic::div_mod::lemma_small_mod(self.total_duration.0 as nat, 0x1_0000_0000_0000_0000);
            lemma_wrapped_add(self.total_duration.0 as int, activity_group.adjusted_duration.0 as int);
        }
        self.total_duration.add_assign(activity_group.adjusted_duration);
        self.activity_groups.push(activity_group);
        proof {
            assert(groups_facts(self.activity_groups@) =~= groups_facts(before).push(g));
        }
    }

    /// The number of groups.
    pub fn len(&self) -> (n: usize)
        ensures
            n == self.activity_groups@.len(),
    {
        self.activity_groups.len()
    }

    /// Whether there is no group.
    pub fn is_empty(&self) -> (b: bool)
        ensures
            b == (self.activity_groups@.len() == 0),
    {
        self.activity_groups.len() == 0
    }
}

/// The position of the summary of a category.
pub open spec fn category_position(v: Seq<(Seq<char>, ReviewSummaryFacts)>, key: Seq<char>) -> Option<int>
    decreases v.len(),
{
    if v.len() == 0 {
        None
    } else {
        match category_position(v.drop_last(), key) {
            Some(i) => Some(i),
            None => if v.last().0 == key {
                Some(v.len() - 1)
            } else {
                None
            },
        }
    }
}

/// The summaries after a group was added to the summary of its category, or as the
/// summary of a new category in the order of the categories.
pub open spec fn review_add(v: Seq<(Seq<char>, ReviewSummaryFacts)>, key: Seq<char>, g: ReviewGroupFacts) -> Seq<
    (Seq<char>, ReviewSummaryFacts),
> {
    match category_position(v, key) {
        Some(i) => v.update(i, (key, review_facts_add(v[i].1, g))),
        None => sorted_insert(v, (key, review_facts_with(g)), by_category()),
    }
}

/// Review summaries ordered by their categories.
pub open spec fn by_category() -> spec_fn((Seq<char>, ReviewSummaryFacts), (Seq<char>, ReviewSummaryFacts)) -> bool {
    |x: (Seq<char>, ReviewSummaryFacts), y: (Seq<char>, ReviewSummaryFacts)| text_less(x.0, y.0)
}

/// The total durations of the summaries, added up.
pub open spec fn reviews_duration(v: Seq<(Seq<char>, ReviewSummaryFacts)>) -> int
    decreases v.len(),
{
    if v.len() == 0 {
        0
    } else {
        reviews_duration(v.drop_last()) + v.last().1.total_duration
    }
}

proof fn lemma_category_position(v: Seq<(Seq<char>, ReviewSummaryFacts)>, key: Seq<char>, i: int)
    requires
        0 <= i <= v.len(),
        forall|j: int| 0 <= j < i ==> #[trigger] v[j].0 != key,
    ensures
        i < v.len() && v[i].0 == key ==> category_position(v, key) == Some(i),
        i == v.len() ==> category_position(v, key) is None,
    decreases v.len(),
{
    if v.len() > 0 {
        if i < v.len() {
            if v[i].0 == key {
                lemma_category_position(v.drop_last(), key, i);
            }
        } else {
            lemma_category_position(v.drop_last(), key, i - 1);
        }
    }
}

/// The summary of a category in a review.
#[derive(Debug)]
pub struct ReviewCategoryEntry {
    pub category: String,
    pub group: SummaryGroup,
}

/// Summaries by category, in the order of the categories; no category occurs twice.
#[derive(Debug)]
pub struct SummaryGroupByCategory {
    entries: Vec<ReviewCategoryEntry>,
}

impl View for SummaryGroupByCategory {
    type V = Seq<(Seq<char>, ReviewSummaryFacts)>;

    closed spec fn view(&self) -> Seq<(Seq<char>, ReviewSummaryFacts)> {
        self.entries@.map_values(|e: ReviewCategoryEntry| (e.category@, e.group.facts()))
    }
}

impl SummaryGroupByCategory {
    /// The categories are in increasing order, so no category occurs twice.
    pub closed spec fn wf(&self) -> bool {
        forall|a: int, b: int|
            0 <= a < b < self.entries@.len() ==> text_less(self.entries@[a].category@, self.entries@[b].category@)
    }

    /// No summaries.
    pub fn new() -> (m: Self)
        ensures
            m.wf(),
            m@ == Seq::<(Seq<char>, ReviewSummaryFacts)>::empty(),
    {
        let m = SummaryGroupByCategory { entries: Vec::new() };
        assert(m@ =~= Seq::<(Seq<char>, ReviewSummaryFacts)>::empty());
        m
    }

    /// The summaries, in order.
    pub fn entries(&self) -> (r: &Vec<ReviewCategoryEntry>)
        ensures
            r@.map_values(|e: ReviewCategoryEntry| (e.category@, e.group.facts())) == self@,
    {
        &self.entries
    }

    /// Adds a group to the summary of a category.
    pub fn add(&mut self, category: String, group: ActivityGroup)
        requires
            old(self).wf(),
        ensures
            final(self).wf(),
            final(self)@ == review_add(old(self)@, category@, group.facts()),
    {
        let ghost key = category@;
        let ghost v = self@;
        let mut i: usize = 0;
        while i < self.entries.len()
            invariant
                i <= self.entries@.len(),
                v == self@,
                forall|j: int| 0 <= j < i ==> #[trigger] self.entries@[j].category@ != key,
                key == category@,
            ensures
                i <= self.entries@.len(),
                forall|j: int| 0 <= j < i ==> #[trigger] self.entries@[j].category@ != key,
                i < self.entries@.len() ==> self.entries@[i as int].category@ == key,
            decreases self.entries@.len() - i,
        {
            if crate::text::str_equals(self.entries[i].category.as_str(), category.as_str()) {
                break;
            }
            i = i + 1;
        }
        proof {
            assert forall|j: int| 0 <= j < i implies #[trigger] v[j].0 != key by {
                assert(v[j].0 == self.entries@[j].category@);
            }
            lemma_category_position(v, key, i as int);
        }
        let ghost facts = group.facts();
        if i < self.entries.len() {
            let ghost old_entries = self.entries@;
            let mut entry = self.entries.remove(i);
            proof {
                assert(entry == old_entries[i as int]);
            }
            entry.group.add_activity_group(group);
            let ghost new_entry = entry;
            self.entries.insert(i, entry);
            proof {
                assert(self.entries@ =~= old_entries.update(i as int, new_entry));
                assert(self@ =~= review_add(v, key, facts));
            }
        } else {
            let ghost old_entries = self.entries@;
            let mut p: usize = 0;
            while p < self.entries.len()
                invariant
                    p <= self.entries@.len(),
                    self.entries@ == old_entries,
                    forall|j: int| 0 <= j < p ==> text_less(#[trigger] old_entries[j].category@, key),
                    key == category@,
                ensures
                    p <= old_entries.len(),
                    forall|j: int| 0 <= j < p ==> text_less(#[trigger] old_entries[j].category@, key),
                    p < old_entries.len() ==> !text_less(old_entries[p as int].category@, key),
                decreases self.entries@.len() - p,
            {
                if text_compare(self.entries[p].category.as_str(), category.as_str()) >= 0 {
                    break;
                }
                p = p + 1;
            }
            proof {
                assert forall|j: int| p <= j < old_entries.len() implies !text_less(
                    #[trigger] old_entries[j].category@,
                    key,
                ) by {
                    if j > p && text_less(old_entries[j].category@, key) {
                        lemma_text_less_transitive(old_entries[p as int].category@, old_entries[j].category@, key);
                    }
                }
                let x = (key, review_facts_with(facts));
                assert forall|j: int| 0 <= j < p implies (#[trigger] by_category()(v[j], x)) by {
                    assert(v[j].0 == old_entries[j].category@);
                }
                assert forall|j: int| p <= j < v.len() implies !(#[trigger] by_category()(v[j], x)) by {
                    assert(v[j].0 == old_entries[j].category@);
                }
                lemma_sorted_insert_at(v, x, by_category(), p as int);
            }
            let entry = ReviewCategoryEntry { category, group: SummaryGroup::with_activity_group(group) };
            let ghost new_entry = entry;
            self.entries.insert(p, entry);
            proof {
                assert(self.entries@ =~= old_entries.insert(p as int, new_entry));
                assert(self@ =~= v.insert(p as int, (key, review_facts_with(facts))));
                assert(self@ =~= review_add(v, key, facts));
                let e = self.entries@;
                assert forall|a: int, b: int| 0 <= a < b < e.len() implies text_less(e[a].category@, e[b].category@) by {
                    if b < p {
                    } else if b == p {
                        assert(text_less(old_entries[a].category@, key));
                    } else if a < p {
                        assert(e[b] == old_entries[b - 1]);
                    } else if a == p {
                        assert(e[b] == old_entries[b - 1]);
                        assert(old_entries[b - 1].category@ != key);
                        lemma_text_less_total(key, old_entries[b - 1].category@);
                    } else {
                        assert(e[a] == old_entries[a - 1]);
                        assert(e[b] == old_entries[b - 1]);
                    }
                }
            }
        }
    }
}

/// A review of a time range: the summaries by category and the total time spent.
#[derive(Debug)]
pub struct ReviewSummary {
    /// The time range of the review.
    pub time_range: TimeRangeOptions,
    /// The time spent on all activities of the range.
    pub total_time_spent: PaceDuration,
    /// The summaries by category.
    pub summary_groups_by_category: SummaryGroupByCategory,
}

impl ReviewSummary {
    /// A review whose total adds up the totals of its summaries.
    pub fn new(time_range: TimeRangeOptions, summary_groups_by_category: SummaryGroupByCategory) -> (r:
        Self)
        ensures
            r.time_range == time_range,
            r.summary_groups_by_category == summary_groups_by_category,
            r.total_time_spent.0 == wrapped(reviews_duration(summary_groups_by_category@)),
    {
        let ghost v = summary_groups_by_category@;
        let mut total: u64 = 0;
        let mut i: usize = 0;
        let entries = summary_groups_by_category.entries();
        proof {
            assert(v.take(0) =~= Seq::<(Seq<char>, ReviewSummaryFacts)>::empty());
            vstd::arithmetic::div_mod::lemma_small_mod(0, 0x1_0000_0000_0000_0000);
        }
        while i < entries.len()
            invariant
                i <= entries@.len(),
                entries@.map_values(|e: ReviewCategoryEntry| (e.category@, e.group.facts())) == v,
                total == wrapped(reviews_duration(v.take(i as int))),
            decreases entries@.len() - i,
        {
            proof {
                assert(v.take(i + 1).drop_last() =~= v.take(i as int));
                assert(v.take(i + 1).last() == v[i as int]);
                lemma_wrapped_add(reviews_duration(v.take(i as int)), entries@[i as int].group.total_duration.0 as int);
            }
            total = total.wrapping_add(entries[i].group.total_duration.0);
            i = i + 1;
        }
        proof {
            assert(v.take(i as int) =~= v);
        }
        ReviewSummary { time_range, total_time_spent: PaceDuration(total), summary_groups_by_category }
    }
}

/// Highlights of a period: quick insights into key figures.
#[derive(Debug)]
pub struct Highlights {
    /// The day with the most productive hours.
    pub most_productive_day: PaceDateTime,
    /// The kind of activity logged most often.
    pub most_frequent_activity_kind: ActivityKind,
    /// The activity that took the most time.
    pub most_time_spent_on: ActivityItem,
}

/// The lines of the groups of a category in the text of a review: each description
/// with its adjusted duration.
pub open spec fn review_groups_text(groups: Seq<ReviewGroupFacts>) -> Seq<char>
    decreases groups.len(),
{
    if groups.len() == 0 {
        Seq::empty()
    } else {
        review_groups_text(groups.drop_last()) + "\n\t"@ + groups.last().description + "\t\t\t\t"@
            + humantime_rendering(groups.last().adjusted as u64)
    }
}

/// The categories in the text of a review: each with its total, then its groups.
pub open spec fn review_categories_text(v: Seq<(Seq<char>, ReviewSummaryFacts)>) -> Seq<char>
    decreases v.len(),
{
    if v.len() == 0 {
        Seq::empty()
    } else {
        review_categories_text(v.drop_last()) + v.last().0 + "\t\t\t\t\t\t"@ + humantime_rendering(
            v.last().1.total_duration as u64,
        ) + review_groups_text(v.last().1.groups) + "\n\n"@
    }
}

/// The text of a review: its time range, its categories and its total.
pub open spec fn review_text(r: ReviewSummary) -> Seq<char> {
    "Review Summary for the period: "@ + time_range_text(r.time_range) + "\n\n"@
        + review_categories_text(r.summary_groups_by_category@) + "Total\t\t\t\t\t\t\t"@
        + humantime_rendering(r.total_time_spent.0)
}

/// The lines of the groups of a category.
fn groups_text(groups: &Vec<ActivityGroup>) -> (s: String)
    ensures
        s@ == review_groups_text(groups_facts(groups@)),
{
    let ghost facts = groups_facts(groups@);
    let mut s = String::new();
    let mut j: usize = 0;
    while j < groups.len()
        invariant
            j <= groups@.len(),
            facts == groups_facts(groups@),
            s@ == review_groups_text(facts.take(j as int)),
        decreases groups@.len() - j,
    {
        proof {
            assert(facts.take(j + 1).drop_last() =~= facts.take(j as int));
            assert(facts.take(j + 1).last() == groups@[j as int].facts());
        }
        s.append("\n\t");
        s.append(groups[j].description.as_str());
        s.append("\t\t\t\t");
        let duration = groups[j].adjusted_duration.human_readable();
        s.append(duration.as_str());
        j = j + 1;
    }
    proof {
        assert(facts.take(groups@.len() as int) =~= facts);
    }
    s
}

impl ReviewSummary {
    /// The review as text: its time range, each category with its total and the
    /// adjusted durations of its groups, and the total.
    pub fn text(&self) -> (s: String)
        ensures
            s@ == review_text(*self),
    {
        let ghost v = self.summary_groups_by_category@;
        let mut s = String::from_str("Review Summary for the period: ");
        let range = self.time_range.text();
        s.append(range.as_str());
        s.append("\n\n");
        let ghost head = s@;
        let entries = self.summary_groups_by_category.entries();
        let mut i: usize = 0;
        proof {
            assert(v.take(0) =~= Seq::<(Seq<char>, ReviewSummaryFacts)>::empty());
            assert(head + review_categories_text(v.take(0)) =~= head);
        }
        while i < entries.len()
            invariant
                i <= entries@.len(),
                entries@.map_values(|e: ReviewCategoryEntry| (e.category@, e.group.facts())) == v,
                s@ == head + review_categories_text(v.take(i as int)),
            decreases entries@.len() - i,
        {
            proof {
                assert(v.take(i + 1).drop_last() =~= v.take(i as int));
                assert(v.take(i + 1).last() == v[i as int]);
                assert(v[i as int] == (entries@[i as int].category@, entries@[i as int].group.facts()));
            }
            let entry = &entries[i];
            s.append(entry.category.as_str());
            s.append("\t\t\t\t\t\t");
            let total = entry.group.total_duration.human_readable();
            s.append(total.as_str());
            let lines = groups_text(&entry.group.activity_groups);
            s.append(lines.as_str());
            s.append("\n\n");
            i = i + 1;
        }
        proof {
            assert(v.take(entries@.len() as int) =~= v);
        }
        s.append("Total\t\t\t\t\t\t\t");
        let total = self.total_time_spent.human_readable();
        s.append(total.as_str());
        s
    }
}

} // verus!
