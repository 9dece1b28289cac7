//! The activity log: activities by their identifiers, in the order of the identifiers.

use vstd::prelude::*;

use crate::activity::{Activity, ActivityItem, ActivityView};
use crate::filter::{filter_matches, ActivityFilterKind};
use crate::id::{ActivityGuid, Guid};
use std::collections::BTreeMap;
use vstd::std_specs::cmp::OrdSpec;
use vstd::std_specs::iter::IteratorSpec;

verus! {

broadcast use vstd::std_specs::btree::group_btree_axioms;

/// An entry of the log as a mathematical pair of identifier bits and activity.
pub type LogEntry = (u128, ActivityView);

/// The entries of a list of items.
pub open spec fn entries_of(items: Seq<ActivityItem>) -> Seq<LogEntry> {
    items.map_values(|it: ActivityItem| (it.guid.bits(), it.activity@))
}

/// The identifiers of the entries are strictly increasing.
pub open spec fn strictly_increasing(s: Seq<LogEntry>) -> bool {
    forall|i: int, j: int| 0 <= i < j < s.len() ==> s[i].0 < s[j].0
}

/// Whether an identifier occurs among the entries.
pub open spec fn has_key(s: Seq<LogEntry>, k: u128) -> bool {
    exists|i: int| 0 <= i < s.len() && s[i].0 == k
}

/// The position of an identifier among the entries.
pub open spec fn index_of(s: Seq<LogEntry>, k: u128) -> int {
    choose|i: int| 0 <= i < s.len() && s[i].0 == k
}

/// The entries as a map from identifier to activity.
pub open spec fn map_of(s: Seq<LogEntry>) -> Map<u128, ActivityView> {
    Map::new(|k: u128| has_key(s, k), |k: u128| s[index_of(s, k)].1)
}

/// In a strictly increasing sequence, a key determines its position.
pub proof fn lemma_index_of(s: Seq<LogEntry>, i: int)
    requires
        strictly_increasing(s),
        0 <= i < s.len(),
    ensures
        has_key(s, s[i].0),
        index_of(s, s[i].0) == i,
        map_of(s).contains_key(s[i].0),
        map_of(s)[s[i].0] == s[i].1,
{
    assert(has_key(s, s[i].0));
    let j = index_of(s, s[i].0);
    if j != i {
        if j < i {
            assert(s[j].0 < s[i].0);
        } else {
            assert(s[i].0 < s[j].0);
        }
    }
}

/// The identifiers of the entries, in order.
pub open spec fn keys_of(s: Seq<LogEntry>) -> Seq<u128> {
    s.map_values(|e: LogEntry| e.0)
}

/// Identifiers as keys of a map: they are ordered as the integers are.
proof fn lemma_identifiers_ordered()
    ensures
        vstd::laws_cmp::obeys_cmp::<u128>(),
        vstd::laws_cmp::obeys_cmp::<&u128>(),
{
    broadcast use vstd::laws_cmp::group_laws_cmp;
}

/// The identifiers are strictly increasing.
pub open spec fn increasing_ids(r: Seq<u128>) -> bool {
    forall|i: int, j: int| 0 <= i < j < r.len() ==> r[i] < r[j]
}

/// The identifiers of a set in increasing order.
pub open spec fn sorted_keys(d: Set<u128>) -> Seq<u128> {
    choose|r: Seq<u128>| increasing_ids(r) && r.to_set() == d
}

/// The identifiers of a map of activities in increasing order.
pub open spec fn ordered_keys(m: &BTreeMap<u128, Activity>) -> Seq<u128> {
    sorted_keys(m@.dom())
}

/// A map of activities hands out its identifiers in increasing order, each once.
proof fn lemma_ordered_keys(m: &BTreeMap<u128, Activity>)
    ensures
        ({
            let r = ordered_keys(m);
            &&& increasing_ids(r)
            &&& r.to_set() == m@.dom()
            &&& r.len() == m@.dom().len()
            &&& m@.dom().finite()
            &&& r == m.keys().remaining().unref()
        }),
{
    lemma_identifiers_ordered();
    let r = m.keys().remaining();
    let w = r.unref();
    vstd::std_specs::btree::axiom_spec_keys_iter(m);
    vstd::std_specs::btree::axiom_btree_map_view_finite_dom(*m);
    assert(vstd::std_specs::btree::increasing_seq(r));
    vstd::std_specs::btree::axiom_increasing_seq_meaning(r);
    assert forall|i: int, j: int| 0 <= i < j < w.len() implies w[i] < w[j] by {
        assert(OrdSpec::cmp_spec(&r[i], &r[j]) is Less);
    }
    assert(increasing_ids(w) && w.to_set() == m@.dom());
    lemma_increasing_unique(ordered_keys(m), w);
}

/// Two strictly increasing sequences of identifiers with the same elements are equal.
pub proof fn lemma_increasing_unique(a: Seq<u128>, b: Seq<u128>)
    requires
        increasing_ids(a),
        increasing_ids(b),
        a.to_set() == b.to_set(),
    ensures
        a == b,
    decreases a.len(),
{
    if a.len() == 0 {
        if b.len() > 0 {
            assert(b.to_set().contains(b[0]));
        }
        assert(a =~= b);
    } else {
        if b.len() == 0 {
            assert(a.to_set().contains(a[0]));
        }
        assert(b.to_set().contains(a[0]));
        let jb = choose|j: int| 0 <= j < b.len() && b[j] == a[0];
        assert(a.to_set().contains(b[0]));
        let ja = choose|j: int| 0 <= j < a.len() && a[j] == b[0];
        if jb > 0 {
            assert(b[0] < b[jb]);
        }
        if ja > 0 {
            assert(a[0] < a[ja]);
        }
        assert(a[0] == b[0]);
        let a1 = a.drop_first();
        let b1 = b.drop_first();
        assert(a1.to_set() =~= a.to_set().remove(a[0])) by {
            assert forall|x: u128| a1.to_set().contains(x) implies a.to_set().remove(a[0]).contains(x) by {
                let i = choose|i: int| 0 <= i < a1.len() && a1[i] == x;
                assert(a[i + 1] == x);
            }
            assert forall|x: u128| a.to_set().remove(a[0]).contains(x) implies a1.to_set().contains(x) by {
                let i = choose|i: int| 0 <= i < a.len() && a[i] == x;
                assert(a1[i - 1] == x);
            }
        }
        assert(b1.to_set() =~= b.to_set().remove(b[0])) by {
            assert forall|x: u128| b1.to_set().contains(x) implies b.to_set().remove(b[0]).contains(x) by {
                let i = choose|i: int| 0 <= i < b1.len() && b1[i] == x;
                assert(b[i + 1] == x);
            }
            assert forall|x: u128| b.to_set().remove(b[0]).contains(x) implies b1.to_set().contains(x) by {
                let i = choose|i: int| 0 <= i < b.len() && b[i] == x;
                assert(b1[i - 1] == x);
            }
        }
        lemma_increasing_unique(a1, b1);
        assert(a.len() == b.len());
        assert(a =~= b) by {
            assert forall|i: int| 0 <= i < a.len() implies a[i] == b[i] by {
                if i > 0 {
                    assert(a[i] == a1[i - 1]);
                    assert(b[i] == b1[i - 1]);
                }
            }
        }
    }
}

/// The activity log: the activities by their identifiers, which it keeps in order.
#[derive(Debug, PartialEq, Eq)]
pub struct ActivityLog {
    activities: BTreeMap<u128, Activity>,
}

impl ActivityLog {
    /// The entries of the log, in the order of their identifiers.
    pub closed spec fn entries(&self) -> Seq<LogEntry> {
        ordered_keys(&self.activities).map_values(|k: u128| (k, self.activities@[k]@))
    }

    /// The log is well formed: its identifiers are strictly increasing.
    pub open spec fn wf(&self) -> bool {
        strictly_increasing(self.entries())
    }

    /// The activities of the log by their identifiers.
    pub open spec fn view(&self) -> Map<u128, ActivityView> {
        map_of(self.entries())
    }

    /// The identifiers of the log, in increasing order.
    pub open spec fn keys(&self) -> Seq<u128> {
        keys_of(self.entries())
    }

    /// The entries are those of the map, in increasing order of identifiers.
    proof fn lemma_entries(&self)
        ensures
            self.wf(),
            self.entries().len() == self.activities@.dom().len(),
            self.keys() == ordered_keys(&self.activities),
            forall|k: u128| #[trigger] self@.contains_key(k) <==> self.activities@.contains_key(k),
            forall|k: u128| #[trigger] self@.contains_key(k) ==> self@[k] == self.activities@[k]@,
            forall|i: int|
                0 <= i < self.entries().len() ==> #[trigger] self.entries()[i] == (
                    ordered_keys(&self.activities)[i],
                    self.activities@[ordered_keys(&self.activities)[i]]@,
                ) && self.activities@.contains_key(ordered_keys(&self.activities)[i]),
    {
        let r = ordered_keys(&self.activities);
        let s = self.entries();
        lemma_ordered_keys(&self.activities);
        assert(self.keys() =~= r);
        assert forall|i: int| 0 <= i < r.len() implies self.activities@.contains_key(r[i]) by {
            assert(r.to_set().contains(r[i]));
        }
        assert forall|k: u128| #[trigger] self@.contains_key(k) <==> self.activities@.contains_key(k) by {
            if self.activities@.contains_key(k) {
                assert(r.to_set().contains(k));
                let i = choose|i: int| 0 <= i < r.len() && r[i] == k;
                assert(s[i].0 == k);
            }
            if has_key(s, k) {
                let i = choose|i: int| 0 <= i < s.len() && s[i].0 == k;
                assert(r.to_set().contains(r[i]));
            }
        }
        assert forall|k: u128| #[trigger] self@.contains_key(k) implies self@[k] == self.activities@[k]@ by {
            let i = index_of(s, k);
            lemma_index_of(s, i);
        }
    }

    /// An empty log.
    pub fn new() -> (log: Self)
        ensures
            log.wf(),
            log.entries().len() == 0,
            log@ == Map::<u128, ActivityView>::empty(),
    {
        let log = ActivityLog { activities: BTreeMap::new() };
        proof {
            log.lemma_entries();
            assert(log@ =~= Map::<u128, ActivityView>::empty());
        }
        log
    }

    /// The number of activities in the log.
    pub fn len(&self) -> (n: usize)
        requires
            self.wf(),
        ensures
            n == self.entries().len(),
            n == self@.dom().len(),
    {
        proof {
            self.lemma_entries();
            self.lemma_dom_len();
            lemma_identifiers_ordered();
            vstd::std_specs::btree::axiom_spec_btree_map_len(&self.activities);
        }
        self.activities.len()
    }

    pub fn is_empty(&self) -> (b: bool)
        requires
            self.wf(),
        ensures
            b == (self.entries().len() == 0),
            b == (self@.dom().len() == 0),
    {
        self.len() == 0
    }

    /// The number of keys of a well formed log is the number of entries.
    pub proof fn lemma_dom_len(&self)
        requires
            self.wf(),
        ensures
            self@.dom().len() == self.entries().len(),
            self@.dom().finite(),
    {
        let s = self.entries();
        let ks = keys_of(s);
        assert forall|i: int, j: int| 0 <= i < j < ks.len() implies ks[i] != ks[j] by {
            assert(s[i].0 < s[j].0);
        }
        assert(ks.no_duplicates());
        assert(self@.dom() =~= ks.to_set()) by {
            assert forall|k: u128| self@.dom().contains(k) implies ks.to_set().contains(k) by {
                let i = index_of(s, k);
                assert(ks[i] == k);
            }
            assert forall|k: u128| ks.to_set().contains(k) implies self@.dom().contains(k) by {
                let i = choose|i: int| 0 <= i < ks.len() && ks[i] == k;
                assert(s[i].0 == k);
            }
        }
        ks.unique_seq_to_set();
    }

    /// The activity with the given identifier, if it is in the log.
    pub fn get(&self, id: ActivityGuid) -> (r: Option<&Activity>)
        requires
            self.wf(),
        ensures
            match r {
                Some(a) => self@.contains_key(id.bits()) && a@ == self@[id.bits()],
                None => !self@.contains_key(id.bits()),
            },
    {
        proof {
            self.lemma_entries();
            lemma_identifiers_ordered();
        }
        self.activities.get(&id.0.0)
    }

    /// Whether an activity with the given identifier is in the log.
    pub fn contains_key(&self, id: ActivityGuid) -> (b: bool)
        requires
            self.wf(),
        ensures
            b == self@.contains_key(id.bits()),
    {
        proof {
            self.lemma_entries();
            lemma_identifiers_ordered();
        }
        self.activities.contains_key(&id.0.0)
    }

    /// The identifiers of the log, in increasing order.
    pub fn identifiers(&self) -> (v: Vec<u128>)
        requires
            self.wf(),
        ensures
            v@ == self.keys(),
    {
        proof {
            self.lemma_entries();
            lemma_identifiers_ordered();
        }
        let ghost ks = ordered_keys(&self.activities);
        proof {
            lemma_ordered_keys(&self.activities);
        }
        let mut v: Vec<u128> = Vec::new();
        for k in it: self.activities.keys()
            invariant
                it.seq().unref() == ks,
                v@ == ks.take(it.index() as int),
        {
            v.push(*k);
            proof {
                assert(v@ =~= ks.take(it.index() + 1));
            }
        }
        assert(v@ =~= ks);
        v
    }

    /// The entry at a position of the log, given the identifiers of the log.
    pub fn entry_at(&self, ids: &Vec<u128>, i: usize) -> (r: (ActivityGuid, &Activity))
        requires
            self.wf(),
            ids@ == self.keys(),
            i < ids@.len(),
        ensures
            r.0.bits() == self.entries()[i as int].0,
            r.1@ == self.entries()[i as int].1,
    {
        proof {
            self.lemma_entries();
            lemma_identifiers_ordered();
        }
        let k = ids[i];
        (ActivityGuid(Guid(k)), self.activities.get(&k).unwrap())
    }

    /// Stores an activity under an identifier, in place of the activity stored there.
    pub fn insert(&mut self, id: ActivityGuid, activity: Activity)
        requires
            old(self).wf(),
        ensures
            final(self).wf(),
            final(self)@ == old(self)@.insert(id.bits(), activity@),
    {
        let ghost a_view = activity@;
        proof {
            self.lemma_entries();
            lemma_identifiers_ordered();
        }
        let _ = self.activities.insert(id.0.0, activity);
        proof {
            self.lemma_entries();
            assert(self@ =~= old(self)@.insert(id.bits(), a_view));
        }
    }

    /// Removes the activity with the given identifier and returns it, if it is there.
    pub fn remove(&mut self, id: ActivityGuid) -> (r: Option<Activity>)
        requires
            old(self).wf(),
        ensures
            final(self).wf(),
            final(self)@ == old(self)@.remove(id.bits()),
            match r {
                Some(a) => old(self)@.contains_key(id.bits()) && a@ == old(self)@[id.bits()],
                None => !old(self)@.contains_key(id.bits()),
            },
    {
        proof {
            self.lemma_entries();
            lemma_identifiers_ordered();
        }
        let r = self.activities.remove(&id.0.0);
        proof {
            self.lemma_entries();
            assert(self@ =~= old(self)@.remove(id.bits()));
        }
        r
    }

    /// A copy of the log.
    pub fn copy(&self) -> (r: Self)
        requires
            self.wf(),
        ensures
            r.wf(),
            r.entries() == self.entries(),
            r@ == self@,
    {
        let r = ActivityLog { activities: self.activities.clone() };
        proof {
            self.lemma_entries();
            r.lemma_entries();
            lemma_ordered_keys(&self.activities);
            lemma_ordered_keys(&r.activities);
            lemma_increasing_unique(ordered_keys(&self.activities), ordered_keys(&r.activities));
            assert(r.entries() =~= self.entries());
        }
        r
    }

    /// A log made of items; of several items with one identifier the last one counts.
    pub fn from_items(items: Vec<ActivityItem>) -> (log: Self)
        ensures
            log.wf(),
            log@ == collected(entries_of(items@)),
    {
        let mut log = ActivityLog::new();
        let mut rest = items;
        let ghost all = entries_of(rest@);
        let ghost mut consumed: int = 0;
        while rest.len() > 0
            invariant
                log.wf(),
                0 <= consumed <= all.len(),
                entries_of(rest@) == all.skip(consumed),
                log@ == collected(all.take(consumed)),
            decreases rest@.len(),
        {
            proof {
                assert(entries_of(rest@).len() == rest@.len());
                assert(consumed < all.len());
            }
            let ghost old_rest = rest@;
            let item = rest.remove(0);
            proof {
                assert(rest@ =~= old_rest.subrange(1, old_rest.len() as int));
                assert forall|j: int| 0 <= j < rest@.len() implies #[trigger] entries_of(rest@)[j]
                    == all.skip(consumed + 1)[j] by {
                    assert(entries_of(old_rest)[j + 1] == all.skip(consumed)[j + 1]);
                }
                assert(all.skip(consumed)[0] == (item.guid.bits(), item.activity@));
                assert(all.take(consumed + 1).drop_last() =~= all.take(consumed));
                assert(all.take(consumed + 1).last() == all.skip(consumed)[0]);
                assert(entries_of(rest@) =~= all.skip(consumed + 1));
                consumed = consumed + 1;
            }
            log.insert(item.guid, item.activity);
        }
        assert(all.take(consumed) =~= all);
        log
    }
}

/// The map that collecting entries gives: a later entry replaces an earlier one
/// with the same identifier.
pub open spec fn collected(s: Seq<LogEntry>) -> Map<u128, ActivityView>
    decreases s.len(),
{
    if s.len() == 0 {
        Map::empty()
    } else {
        collected(s.drop_last()).insert(s.last().0, s.last().1)
    }
}

/// The identifiers, in order, of the entries whose activity passes a filter.
pub open spec fn keys_where(s: Seq<LogEntry>, f: ActivityFilterKind) -> Seq<u128>
    decreases s.len(),
{
    if s.len() == 0 {
        Seq::empty()
    } else {
        let r = keys_where(s.drop_last(), f);
        if filter_matches(f, s.last().1) {
            r.push(s.last().0)
        } else {
            r
        }
    }
}

/// The bits of a sequence of identifiers.
pub open spec fn guid_bits(v: Seq<ActivityGuid>) -> Seq<u128> {
    v.map_values(|g: ActivityGuid| g.bits())
}

/// The identifiers that pass a filter are strictly increasing, and they are exactly the
/// identifiers of the log whose activity passes the filter.
pub proof fn lemma_keys_where(s: Seq<LogEntry>, f: ActivityFilterKind)
    requires
        strictly_increasing(s),
    ensures
        forall|i: int, j: int|
            0 <= i < j < keys_where(s, f).len() ==> keys_where(s, f)[i] < keys_where(s, f)[j],
        forall|k: u128|
            #[trigger] keys_where(s, f).contains(k) <==> (map_of(s).contains_key(k) && filter_matches(
                f,
                map_of(s)[k],
            )),
    decreases s.len(),
{
    if s.len() > 0 {
        let t = s.drop_last();
        let last = s.last();
        assert(strictly_increasing(t));
        lemma_keys_where(t, f);
        let r = keys_where(t, f);
        lemma_index_of(s, s.len() - 1);
        assert forall|k: u128| #[trigger] map_of(t).contains_key(k) implies map_of(s).contains_key(k)
            && map_of(s)[k] == map_of(t)[k] && k < last.0 by {
            let i = index_of(t, k);
            lemma_index_of(t, i);
            lemma_index_of(s, i);
        }
        assert forall|k: u128| #[trigger] map_of(s).contains_key(k) implies map_of(t).contains_key(k)
            || k == last.0 by {
            let i = index_of(s, k);
            if i < s.len() - 1 {
                assert(t[i].0 == k);
            }
        }
        assert forall|i: int| 0 <= i < r.len() implies #[trigger] r[i] < last.0 by {
            assert(r.contains(r[i]));
        }
        if filter_matches(f, last.1) {
            assert forall|k: u128| #[trigger] r.push(last.0).contains(k) <==> (r.contains(k) || k == last.0) by {
                if r.push(last.0).contains(k) {
                    let i = choose|i: int| 0 <= i < r.len() + 1 && r.push(last.0)[i] == k;
                    if i < r.len() {
                        assert(r[i] == k);
                    }
                }
                if r.contains(k) {
                    let i = choose|i: int| 0 <= i < r.len() && r[i] == k;
                    assert(r.push(last.0)[i] == k);
                }
                if k == last.0 {
                    assert(r.push(last.0)[r.len() as int] == k);
                }
            }
        }
    }
}

impl ActivityLog {
    /// The identifiers, in increasing order, of the activities that pass a filter.
    pub fn keys_matching(&self, f: ActivityFilterKind) -> (v: Vec<ActivityGuid>)
        requires
            self.wf(),
        ensures
            guid_bits(v@) == keys_where(self.entries(), f),
    {
        let mut v: Vec<ActivityGuid> = Vec::new();
        let mut i: usize = 0;
        let ghost s = self.entries();
        let ids = self.identifiers();
        while i < ids.len()
            invariant
                self.wf(),
                ids@ == self.keys(),
                i <= ids@.len(),
                s == self.entries(),
                s.len() == ids@.len(),
                guid_bits(v@) == keys_where(s.take(i as int), f),
            decreases ids@.len() - i,
        {
            proof {
                assert(s.take(i + 1).drop_last() =~= s.take(i as int));
                assert(s.take(i + 1).last() == s[i as int]);
            }
            let (guid, activity) = self.entry_at(&ids, i);
            if crate::filter::activity_passes(f, activity) {
                v.push(guid);
                proof {
                    assert(guid_bits(v@) =~= keys_where(s.take(i as int), f).push(guid.bits()));
                }
            }
            i = i + 1;
        }
        proof {
            assert(s.take(i as int) =~= s);
        }
        v
    }
}

/// The identifiers, in order, of the running intermissions of the activity `parent`.
pub open spec fn intermission_keys_for(s: Seq<LogEntry>, parent: ActivityGuid) -> Seq<u128>
    decreases s.len(),
{
    if s.len() == 0 {
        Seq::empty()
    } else {
        let r = intermission_keys_for(s.drop_last(), parent);
        if is_intermission_of(s.last().1, parent) {
            r.push(s.last().0)
        } else {
            r
        }
    }
}

/// A running intermission of the activity `parent`.
pub open spec fn is_intermission_of(a: ActivityView, parent: ActivityGuid) -> bool {
    a.is_active_intermission() && a.parent_id() == Some(parent)
}

/// Some running intermission of `parent` is in the map.
pub open spec fn has_intermission_of(m: Map<u128, ActivityView>, parent: ActivityGuid) -> bool {
    exists|k: u128| #[trigger] m.contains_key(k) && is_intermission_of(m[k], parent)
}

/// There are running intermissions of `parent` exactly when the map holds one.
pub proof fn lemma_intermission_keys_for(s: Seq<LogEntry>, parent: ActivityGuid)
    requires
        strictly_increasing(s),
    ensures
        forall|k: u128|
            #[trigger] intermission_keys_for(s, parent).contains(k) <==> (map_of(s).contains_key(k)
                && is_intermission_of(map_of(s)[k], parent)),
        intermission_keys_for(s, parent).len() > 0 <==> has_intermission_of(map_of(s), parent),
    decreases s.len(),
{
    let r0 = intermission_keys_for(s, parent);
    if s.len() > 0 {
        let t = s.drop_last();
        let last = s.last();
        assert(strictly_increasing(t));
        lemma_intermission_keys_for(t, parent);
        let r = intermission_keys_for(t, parent);
        lemma_index_of(s, s.len() - 1);
        assert forall|k: u128| #[trigger] map_of(t).contains_key(k) implies map_of(s).contains_key(k)
            && map_of(s)[k] == map_of(t)[k] && k < last.0 by {
            let i = index_of(t, k);
            lemma_index_of(t, i);
            lemma_index_of(s, i);
        }
        assert forall|k: u128| #[trigger] map_of(s).contains_key(k) implies map_of(t).contains_key(k)
            || k == last.0 by {
            let i = index_of(s, k);
            if i < s.len() - 1 {
                assert(t[i].0 == k);
            }
        }
        if is_intermission_of(last.1, parent) {
            assert forall|k: u128| #[trigger] r.push(last.0).contains(k) <==> (r.contains(k) || k == last.0) by {
                if r.push(last.0).contains(k) {
                    let i = choose|i: int| 0 <= i < r.len() + 1 && r.push(last.0)[i] == k;
                    if i < r.len() {
                        assert(r[i] == k);
                    }
                }
                if r.contains(k) {
                    let i = choose|i: int| 0 <= i < r.len() && r[i] == k;
                    assert(r.push(last.0)[i] == k);
                }
                if k == last.0 {
                    assert(r.push(last.0)[r.len() as int] == k);
                }
            }
        }
    }
    if r0.len() > 0 {
        assert(r0.contains(r0[0]));
    }
    if has_intermission_of(map_of(s), parent) {
        let k = choose|k: u128| #[trigger] map_of(s).contains_key(k) && is_intermission_of(map_of(s)[k], parent);
        assert(r0.contains(k));
    }
}

impl ActivityLog {
    /// The identifiers, in increasing order, of the running intermissions of `parent`.
    pub fn intermissions_of(&self, parent: ActivityGuid) -> (v: Vec<ActivityGuid>)
        requires
            self.wf(),
        ensures
            guid_bits(v@) == intermission_keys_for(self.entries(), parent),
    {
        let mut v: Vec<ActivityGuid> = Vec::new();
        let mut i: usize = 0;
        let ghost s = self.entries();
        let ids = self.identifiers();
        while i < ids.len()
            invariant
                self.wf(),
                ids@ == self.keys(),
                i <= ids@.len(),
                s == self.entries(),
                s.len() == ids@.len(),
                guid_bits(v@) == intermission_keys_for(s.take(i as int), parent),
            decreases ids@.len() - i,
        {
            proof {
                assert(s.take(i + 1).drop_last() =~= s.take(i as int));
                assert(s.take(i + 1).last() == s[i as int]);
            }
            let (guid, activity) = self.entry_at(&ids, i);
            if activity.is_active_intermission() && activity.parent_id() == Some(parent) {
                v.push(guid);
                proof {
                    assert(guid_bits(v@) =~= intermission_keys_for(s.take(i as int), parent).push(
                        guid.bits(),
                    ));
                }
            }
            i = i + 1;
        }
        proof {
            assert(s.take(i as int) =~= s);
        }
        v
    }
}

} // verus!
