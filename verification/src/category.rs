//! Categories, descriptions and tags of activities, and how a category splits into a
//! category and a subcategory.

use vstd::prelude::*;

use crate::id::TagGuid;
use crate::text::{owned, str_equals};

verus! {

/// The category of activities that have none.
pub const UNCATEGORIZED: &'static str = "Uncategorized";

/// The separator between a category and its subcategory when none is configured.
pub const DEFAULT_CATEGORY_SEPARATOR: &'static str = "::";

/// The category of an activity.
#[derive(Debug)]
pub struct PaceCategory(pub String);

impl PaceCategory {
    pub fn new(category: &str) -> (c: Self)
        ensures
            c.0@ == category@,
    {
        PaceCategory(owned(category))
    }

    /// The text, as it was given.
    pub fn text(&self) -> (s: String)
        ensures
            s@ == self.0@,
    {
        owned(self.0.as_str())
    }
}

impl std::str::FromStr for PaceCategory {
    type Err = std::convert::Infallible;

    /// Any text makes a category: the text itself.
    fn from_str(s: &str) -> (r: Result<Self, Self::Err>)
        ensures
            r matches Ok(v) && v.0@ == s@,
    {
        Ok(PaceCategory::new(s))
    }
}

/// The description of an activity.
#[derive(Debug)]
pub struct PaceDescription(pub String);

impl PaceDescription {
    pub fn new(description: &str) -> (d: Self)
        ensures
            d.0@ == description@,
    {
        PaceDescription(owned(description))
    }

    /// The text, as it was given.
    pub fn text(&self) -> (s: String)
        ensures
            s@ == self.0@,
    {
        owned(self.0.as_str())
    }
}

impl std::str::FromStr for PaceDescription {
    type Err = std::convert::Infallible;

    /// Any text makes a description: the text itself.
    fn from_str(s: &str) -> (r: Result<Self, Self::Err>)
        ensures
            r matches Ok(v) && v.0@ == s@,
    {
        Ok(PaceDescription::new(s))
    }
}

/// A tag of an activity.
#[derive(Debug)]
pub struct PaceTag(pub String);

impl PaceTag {
    pub fn new(tag: &str) -> (t: Self)
        ensures
            t.0@ == tag@,
    {
        PaceTag(owned(tag))
    }

    /// The text, as it was given.
    pub fn text(&self) -> (s: String)
        ensures
            s@ == self.0@,
    {
        owned(self.0.as_str())
    }
}

impl std::str::FromStr for PaceTag {
    type Err = std::convert::Infallible;

    /// Any text makes a tag: the text itself.
    fn from_str(s: &str) -> (r: Result<Self, Self::Err>)
        ensures
            r matches Ok(v) && v.0@ == s@,
    {
        Ok(PaceTag::new(s))
    }
}

/// The texts of a sequence of tags.
pub open spec fn tag_texts(tags: Seq<PaceTag>) -> Seq<Seq<char>> {
    tags.map_values(|t: PaceTag| t.0@)
}

/// A set of tags: no text occurs twice.
#[derive(Debug)]
pub struct PaceTagCollection {
    tags: Vec<PaceTag>,
}

impl View for PaceTagCollection {
    type V = Set<Seq<char>>;

    closed spec fn view(&self) -> Set<Seq<char>> {
        tag_texts(self.tags@).to_set()
    }
}

impl PaceTagCollection {
    /// No text occurs twice.
    pub closed spec fn wf(&self) -> bool {
        tag_texts(self.tags@).no_duplicates()
    }

    /// No tags.
    pub fn empty() -> (c: Self)
        ensures
            c.wf(),
            c@ == Set::<Seq<char>>::empty(),
    {
        let c = PaceTagCollection { tags: Vec::new() };
        assert(tag_texts(c.tags@) =~= Seq::<Seq<char>>::empty());
        c
    }

    /// Whether a tag with the given text is in the collection.
    pub fn contains(&self, text: &str) -> (b: bool)
        requires
            self.wf(),
        ensures
            b == self@.contains(text@),
    {
        let mut i: usize = 0;
        while i < self.tags.len()
            invariant
                i <= self.tags@.len(),
                forall|j: int| 0 <= j < i ==> self.tags@[j].0@ != text@,
            decreases self.tags@.len() - i,
        {
            if str_equals(self.tags[i].0.as_str(), text) {
                proof {
                    assert(tag_texts(self.tags@)[i as int] == text@);
                }
                return true;
            }
            i = i + 1;
        }
        proof {
            if tag_texts(self.tags@).contains(text@) {
                let j = choose|j: int| 0 <= j < tag_texts(self.tags@).len() && tag_texts(self.tags@)[j] == text@;
                assert(self.tags@[j].0@ == text@);
            }
        }
        false
    }

    /// Adds a tag; `true` when its text was not in the collection yet.
    pub fn insert(&mut self, tag: PaceTag) -> (added: bool)
        requires
            old(self).wf(),
        ensures
            final(self).wf(),
            added == !old(self)@.contains(tag.0@),
            final(self)@ == old(self)@.insert(tag.0@),
    {
        if self.contains(tag.0.as_str()) {
            proof {
                assert(self@.insert(tag.0@) =~= self@);
            }
            return false;
        }
        let ghost before = tag_texts(self.tags@);
        let ghost text = tag.0@;
        self.tags.push(tag);
        proof {
            assert(tag_texts(self.tags@) =~= before.push(text));
            assert forall|a: int, b: int| 0 <= a < b < tag_texts(self.tags@).len() implies
                tag_texts(self.tags@)[a] != tag_texts(self.tags@)[b] by {
                if b == before.len() {
                    assert(before.contains(before[a]));
                }
            }
            assert(tag_texts(self.tags@).to_set() =~= before.to_set().insert(text)) by {
                assert forall|x: Seq<char>| tag_texts(self.tags@).to_set().contains(x) implies
                    before.to_set().insert(text).contains(x) by {
                    let j = choose|j: int| 0 <= j < tag_texts(self.tags@).len() && tag_texts(self.tags@)[j] == x;
                    if j < before.len() {
                        assert(before[j] == x);
                    }
                }
                assert forall|x: Seq<char>| before.to_set().insert(text).contains(x) implies
                    tag_texts(self.tags@).to_set().contains(x) by {
                    if x == text {
                        assert(tag_texts(self.tags@)[before.len() as int] == x);
                    } else {
                        let j = choose|j: int| 0 <= j < before.len() && before[j] == x;
                        assert(tag_texts(self.tags@)[j] == x);
                    }
                }
            }
        }
        true
    }

    /// The collection of the given tags; a text that occurs twice is kept once.
    pub fn new(tags: Vec<PaceTag>) -> (c: Self)
        ensures
            c.wf(),
            c@ == tag_texts(tags@).to_set(),
    {
        let mut c = PaceTagCollection::empty();
        let mut rest = tags;
        let ghost all = tag_texts(rest@);
        let n = rest.len();
        let mut i: usize = 0;
        while i < n
            invariant
                c.wf(),
                n == all.len(),
                i <= n,
                rest@.len() == n - i,
                forall|j: int| 0 <= j < n - i ==> #[trigger] rest@[j].0@ == all[i + j],
                c@ == all.take(i as int).to_set(),
            decreases n - i,
        {
            let tag = rest.remove(0);
            proof {
                assert(tag.0@ == all[i as int]);
                let a1 = all.take(i as int);
                let a2 = all.take(i + 1);
                assert(a2 =~= a1.push(all[i as int]));
                assert(a2.to_set() =~= a1.to_set().insert(all[i as int])) by {
                    assert forall|x: Seq<char>| a2.to_set().contains(x) implies
                        a1.to_set().insert(all[i as int]).contains(x) by {
                        let j = choose|j: int| 0 <= j < a2.len() && #[trigger] a2[j] == x;
                        if j < i {
                            assert(a1[j] == x);
                        }
                    }
                    assert forall|x: Seq<char>| a1.to_set().insert(all[i as int]).contains(x)
                        implies a2.to_set().contains(x) by {
                        if x == all[i as int] {
                            assert(a2[i as int] == x);
                        } else {
                            let j = choose|j: int| 0 <= j < a1.len() && #[trigger] a1[j] == x;
                            assert(a2[j] == x);
                        }
                    }
                }
            }
            let _ = c.insert(tag);
            i = i + 1;
        }
        proof {
            assert(all.take(n as int) =~= all);
        }
        c
    }

    /// The texts of the tags, each once.
    pub fn into_texts(self) -> (v: Vec<String>)
        requires
            self.wf(),
        ensures
            crate::activity::strings_view(v@).no_duplicates(),
            crate::activity::strings_view(v@).to_set() == self@,
    {
        let ghost texts = tag_texts(self.tags@);
        let mut rest = self.tags;
        let n = rest.len();
        let mut v: Vec<String> = Vec::new();
        let mut i: usize = 0;
        while i < n
            invariant
                n == texts.len(),
                i <= n,
                rest@.len() == n - i,
                forall|j: int| 0 <= j < n - i ==> #[trigger] rest@[j].0@ == texts[i + j],
                crate::activity::strings_view(v@) == texts.take(i as int),
            decreases n - i,
        {
            let tag = rest.remove(0);
            let ghost before = v@;
            v.push(tag.0);
            proof {
                assert(crate::activity::strings_view(v@) =~= crate::activity::strings_view(before).push(texts[i as int]));
                assert(texts.take(i + 1) =~= texts.take(i as int).push(texts[i as int]));
            }
            i = i + 1;
        }
        proof {
            assert(texts.take(n as int) =~= texts);
        }
        v
    }

    /// The collection of the texts of tags.
    pub fn from_texts(texts: &Vec<String>) -> (c: Self)
        ensures
            c.wf(),
            c@ == crate::activity::strings_view(texts@).to_set(),
    {
        let mut tags: Vec<PaceTag> = Vec::new();
        let mut i: usize = 0;
        while i < texts.len()
            invariant
                i <= texts@.len(),
                tag_texts(tags@) == crate::activity::strings_view(texts@).take(i as int),
            decreases texts@.len() - i,
        {
            let ghost before = tags@;
            tags.push(PaceTag::new(texts[i].as_str()));
            proof {
                assert(tag_texts(tags@) =~= tag_texts(before).push(texts@[i as int]@));
                assert(crate::activity::strings_view(texts@).take(i + 1) =~= crate::activity::strings_view(texts@).take(
                    i as int,
                ).push(texts@[i as int]@));
            }
            i = i + 1;
        }
        proof {
            assert(crate::activity::strings_view(texts@).take(texts@.len() as int) =~= crate::activity::strings_view(texts@));
        }
        PaceTagCollection::new(tags)
    }

    /// The number of tags.
    pub fn len(&self) -> (n: usize)
        requires
            self.wf(),
        ensures
            n == self@.len(),
    {
        proof {
            tag_texts(self.tags@).unique_seq_to_set();
        }
        self.tags.len()
    }

    /// Whether there is no tag.
    pub fn is_empty(&self) -> (b: bool)
        requires
            self.wf(),
        ensures
            b == (self@.len() == 0),
    {
        self.len() == 0
    }
}

/// The first position at or after `i` where `sep` occurs in `s`; `None` when there is
/// none or `sep` is empty.
pub open spec fn find_from(s: Seq<char>, sep: Seq<char>, i: int) -> Option<int>
    decreases s.len() - i,
{
    if i < 0 || sep.len() == 0 || i + sep.len() > s.len() {
        None
    } else if s.subrange(i, i + sep.len()) == sep {
        Some(i)
    } else {
        find_from(s, sep, i + 1)
    }
}

/// An occurrence that the search finds lies within the text, at or after the start.
pub proof fn lemma_find_from(s: Seq<char>, sep: Seq<char>, i: int)
    ensures
        find_from(s, sep, i) matches Some(j) ==> i <= j && j + sep.len() <= s.len()
            && s.subrange(j, j + sep.len()) == sep && sep.len() > 0,
    decreases s.len() - i,
{
    if !(i < 0 || sep.len() == 0 || i + sep.len() > s.len()) && s.subrange(i, i + sep.len()) != sep {
        lemma_find_from(s, sep, i + 1);
    }
}

/// The text from `start` on, with every occurrence of `sep` left out, the occurrences
/// searched from left to right.
pub open spec fn joined_from(s: Seq<char>, sep: Seq<char>, start: int) -> Seq<char>
    decreases s.len() - start,
{
    match find_from(s, sep, start) {
        None => s.subrange(start, s.len() as int),
        Some(j) => {
            proof {
                lemma_find_from(s, sep, start);
            }
            if start <= j && j + sep.len() <= s.len() && sep.len() > 0 {
                s.subrange(start, j) + joined_from(s, sep, j + sep.len())
            } else {
                Seq::empty()
            }
        },
    }
}

/// The pieces of `s` from `start` on between the occurrences of `sep`, the occurrences
/// searched from left to right without overlap, as splitting a text at a separator
/// gives them.
pub open spec fn split_parts(s: Seq<char>, sep: Seq<char>, start: int) -> Seq<Seq<char>>
    decreases s.len() - start,
{
    match find_from(s, sep, start) {
        None => seq![s.subrange(start, s.len() as int)],
        Some(j) => {
            proof {
                lemma_find_from(s, sep, start);
            }
            if start <= j && j + sep.len() <= s.len() && sep.len() > 0 {
                seq![s.subrange(start, j)] + split_parts(s, sep, j + sep.len())
            } else {
                seq![Seq::empty()]
            }
        },
    }
}

/// Leaving out every separator from `start` on is joining the pieces between them.
pub proof fn lemma_joined_is_flattened_parts(s: Seq<char>, sep: Seq<char>, start: int)
    requires
        0 <= start <= s.len(),
        sep.len() > 0,
    ensures
        joined_from(s, sep, start) == split_parts(s, sep, start).flatten(),
        split_parts(s, sep, start).len() >= 1,
        split_parts(s, sep, start)[0] == s.subrange(start, match find_from(s, sep, start) {
            Some(j) => j,
            None => s.len() as int,
        }),
    decreases s.len() - start,
{
    lemma_find_from(s, sep, start);
    let parts = split_parts(s, sep, start);
    match find_from(s, sep, start) {
        None => {
            assert(parts.drop_first() =~= Seq::<Seq<char>>::empty());
            assert(parts.drop_first().flatten() =~= Seq::<char>::empty());
            assert(parts.flatten() =~= s.subrange(start, s.len() as int));
        },
        Some(j) => {
            let rest = split_parts(s, sep, j + sep.len());
            lemma_joined_is_flattened_parts(s, sep, j + sep.len());
            assert(parts.drop_first() =~= rest);
            assert(parts.flatten() =~= s.subrange(start, j) + rest.flatten());
        },
    }
}

/// A category text split at the separator: the part before the first separator, and,
/// when a separator occurs, the rest with every separator left out. With an empty
/// separator the category is empty and the whole text is the subcategory.
pub open spec fn category_split(s: Seq<char>, sep: Seq<char>) -> (Seq<char>, Option<Seq<char>>) {
    if sep.len() == 0 {
        (Seq::empty(), Some(s))
    } else {
        match find_from(s, sep, 0) {
            None => (s, None),
            Some(j) => (s.take(j), Some(joined_from(s, sep, j + sep.len()))),
        }
    }
}

/// The characters of a text.
fn chars_of(s: &str) -> (v: Vec<char>)
    ensures
        v@ == s@,
{
    let n = s.unicode_len();
    let mut v: Vec<char> = Vec::new();
    let mut i: usize = 0;
    while i < n
        invariant
            i <= n,
            n == s@.len(),
            v@ == s@.take(i as int),
        decreases n - i,
    {
        v.push(s.get_char(i));
        proof {
            assert(s@.take(i + 1) =~= s@.take(i as int).push(s@[i as int]));
        }
        i = i + 1;
    }
    proof {
        assert(s@.take(n as int) =~= s@);
    }
    v
}

/// Whether `sep` occurs in `s` at position `i`.
fn occurs_at(s: &Vec<char>, sep: &Vec<char>, i: usize) -> (b: bool)
    requires
        i + sep@.len() <= s@.len(),
    ensures
        b == (s@.subrange(i as int, i + sep@.len()) == sep@),
{
    let mut k: usize = 0;
    while k < sep.len()
        invariant
            k <= sep@.len(),
            i + sep@.len() <= s@.len(),
            s@.len() == s.len(),
            forall|t: int| 0 <= t < k ==> s@[i + t] == sep@[t],
        decreases sep@.len() - k,
    {
        if s[i + k] != sep[k] {
            proof {
                assert(s@.subrange(i as int, i + sep@.len())[k as int] != sep@[k as int]);
            }
            return false;
        }
        k = k + 1;
    }
    assert(s@.subrange(i as int, i + sep@.len()) =~= sep@);
    true
}

/// The first position at or after `from` where `sep` occurs in `s`.
fn find_separator(s: &Vec<char>, sep: &Vec<char>, from: usize) -> (r: Option<usize>)
    requires
        sep@.len() > 0,
        from <= s@.len(),
    ensures
        match find_from(s@, sep@, from as int) {
            Some(j) => r == Some(j as usize),
            None => r is None,
        },
{
    let mut i: usize = from;
    while sep.len() <= s.len() - i
        invariant
            from <= i <= s@.len(),
            s@.len() == s.len(),
            sep@.len() > 0,
            find_from(s@, sep@, from as int) == find_from(s@, sep@, i as int),
        decreases s@.len() - i,
    {
        if occurs_at(s, sep, i) {
            return Some(i);
        }
        i = i + 1;
    }
    None
}

/// Splits a category into the category and an optional subcategory at the separator,
/// `::` when none is given: the category is the text before the first separator, and
/// the subcategory, present when a separator occurs, the rest of the text with every
/// separator left out.
pub fn split_category_by_category_separator(category_string: &str, separator: Option<&str>) -> (r: (
    String,
    Option<String>,
))
    ensures
        ({
            let sep = match separator {
                Some(s) => s@,
                None => DEFAULT_CATEGORY_SEPARATOR@,
            };
            let (first, rest) = category_split(category_string@, sep);
            &&& r.0@ == first
            &&& match rest {
                Some(t) => r.1 matches Some(u) && u@ == t,
                None => r.1 is None,
            }
        }),
{
    let sep_text: &str = match separator {
        Some(s) => s,
        None => DEFAULT_CATEGORY_SEPARATOR,
    };
    let s = chars_of(category_string);
    let sep = chars_of(sep_text);
    if sep.len() == 0 {
        return (String::new(), Some(owned(category_string)));
    }
    let first_match = match find_separator(&s, &sep, 0) {
        None => {
            return (owned(category_string), None);
        },
        Some(j) => j,
    };
    proof {
        lemma_find_from(s@, sep@, 0);
        assert(s@.len() == s.len());
    }
    let first = owned(category_string.substring_char(0, first_match));
    proof {
        assert(s@.subrange(0, first_match as int) =~= s@.take(first_match as int));
    }
    let ghost start0 = first_match + sep@.len();
    let mut rest = String::new();
    let mut cur: usize = first_match + sep.len();
    loop
        invariant_except_break
            start0 <= cur <= s@.len(),
            joined_from(s@, sep@, start0) == rest@ + joined_from(s@, sep@, cur as int),
        invariant
            s@ == category_string@,
            sep@.len() > 0,
            s@.len() == s.len(),
        ensures
            rest@ == joined_from(s@, sep@, start0),
        decreases s@.len() - cur,
    {
        proof {
            lemma_find_from(s@, sep@, cur as int);
        }
        match find_separator(&s, &sep, cur) {
            None => {
                let ghost old_rest = rest@;
                rest.append(category_string.substring_char(cur, s.len()));
                proof {
                    assert(old_rest + joined_from(s@, sep@, cur as int) =~= rest@);
                }
                break;
            },
            Some(j) => {
                let ghost old_rest = rest@;
                proof {
                    assert(cur <= j && j + sep@.len() <= s@.len());
                }
                rest.append(category_string.substring_char(cur, j));
                proof {
                    assert(joined_from(s@, sep@, cur as int) == s@.subrange(cur as int, j as int)
                        + joined_from(s@, sep@, j + sep@.len()));
                    assert(old_rest + (s@.subrange(cur as int, j as int) + joined_from(
                        s@,
                        sep@,
                        j + sep@.len(),
                    )) =~= rest@ + joined_from(s@, sep@, j + sep@.len()));
                }
                cur = j + sep.len();
            },
        }
    }
    (first, Some(rest))
}

/// A tag with its identifier, if it has one.
#[derive(Debug, PartialEq, Eq)]
pub struct Tag {
    pub guid: Option<TagGuid>,
    pub text: String,
}

impl Tag {
    pub fn new(guid: Option<TagGuid>, text: String) -> (t: Self)
        ensures
            t.guid == guid,
            t.text == text,
    {
        Tag { guid, text }
    }
}

} // verus!
