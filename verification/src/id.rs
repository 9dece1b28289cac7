//! Unique identifiers, backed by ULIDs.

use vstd::prelude::*;

verus! {

/// The 32 digits of Crockford's base32, as `ulid` writes them.
pub open spec fn crockford_digits() -> Seq<char> {
    seq![
        '0', '1', '2', '3', '4', '5', '6', '7', '8', '9', 'A', 'B', 'C', 'D', 'E', 'F',
        'G', 'H', 'J', 'K', 'M', 'N', 'P', 'Q', 'R', 'S', 'T', 'V', 'W', 'X', 'Y', 'Z',
    ]
}

/// The text of a ULID as `ulid` renders it: 26 digits of Crockford's base32, each for
/// five bits, the most significant first.
pub open spec fn ulid_text(bits: u128) -> Seq<char> {
    Seq::new(
        26,
        |i: int| crockford_digits()[(bits as int / vstd::arithmetic::power2::pow2((5 * (25 - i)) as nat) as int) % 32],
    )
}

/// The value of a digit of Crockford's base32 as `ulid` reads it: the digits of
/// `crockford_digits`, and the lower-case forms of its letters.
pub open spec fn crockford_value(c: char) -> Option<int> {
    let u = if 'a' <= c && c <= 'z' { ((c as int) - 32) as char } else { c };
    if exists|i: int| 0 <= i < 32 && #[trigger] crockford_digits()[i] == u {
        Some(choose|i: int| 0 <= i < 32 && #[trigger] crockford_digits()[i] == u)
    } else {
        None
    }
}

/// The number that a sequence of base32 digits stands for, the most significant first.
pub open spec fn crockford_number(text: Seq<char>) -> int
    decreases text.len(),
{
    if text.len() == 0 {
        0
    } else {
        crockford_number(text.drop_last()) * 32 + match crockford_value(text.last()) {
            Some(v) => v,
            None => 0,
        }
    }
}

/// The ULID that `ulid` decodes from a text: for 26 base32 digits, the number they
/// stand for, keeping its lowest 128 bits; for any other text none.
pub open spec fn ulid_from_text(text: Seq<char>) -> Option<u128> {
    if text.len() == 26 && forall|i: int| 0 <= i < 26 ==> #[trigger] crockford_value(text[i]) is Some {
        Some((crockford_number(text) % vstd::arithmetic::power2::pow2(128) as int) as u128)
    } else {
        None
    }
}

/// `Ulid::new`: a fresh ULID from the current time and random bits. Nothing is
/// stated of its value, which depends on the clock and on chance.
#[verifier::external_body]
pub(crate) fn new_ulid() -> (bits: u128) {
    ulid::Ulid::new().0
}

/// `Ulid::to_string`: the 26 characters of a ULID in Crockford's base32. Decoding
/// them, as `Ulid::from_string` does, gives the same 128 bits back.
#[verifier::external_body]
pub(crate) fn ulid_to_string(bits: u128) -> (s: String)
    ensures
        s@ == ulid_text(bits),
        s@.len() == 26,
        ulid_from_text(s@) == Some(bits),
{
    ulid::Ulid(bits).to_string()
}

/// `Ulid::from_string`: the ULID that a text encodes, if it is one.
#[verifier::external_body]
pub(crate) fn ulid_parse(text: &str) -> (r: Option<u128>)
    ensures
        r == ulid_from_text(text@),
{
    match ulid::Ulid::from_string(text) {
        Ok(u) => Some(u.0),
        Err(_) => None,
    }
}

/// A unique identifier: the 128 bits of a ULID.
#[derive(Debug, Clone, Copy, PartialEq, Eq, PartialOrd, Ord, Hash, Structural)]
pub struct Guid(pub u128);

impl Guid {
    /// A fresh identifier.
    pub fn new() -> (g: Self) {
        Guid(new_ulid())
    }

    /// The identifier written in `text`, if it is one.
    pub fn parse(text: &str) -> (r: Option<Self>)
        ensures
            r == (match ulid_from_text(text@) {
                Some(u) => Some(Guid(u)),
                None => None,
            }),
    {
        match ulid_parse(text) {
            Some(u) => Some(Guid(u)),
            None => None,
        }
    }

    /// The text of the identifier.
    pub fn to_text(&self) -> (s: String)
        ensures
            s@ == ulid_text(self.0),
            s@.len() == 26,
            ulid_from_text(s@) == Some(self.0),
    {
        ulid_to_string(self.0)
    }
}

/// The unique identifier of an activity.
#[derive(Debug, Clone, Copy, PartialEq, Eq, PartialOrd, Ord, Hash, Structural)]
pub struct ActivityGuid(pub Guid);

impl ActivityGuid {
    /// The 128 bits of the identifier.
    pub open spec fn bits(self) -> u128 {
        self.0.0
    }

    /// A fresh identifier.
    pub fn new() -> (g: Self) {
        ActivityGuid(Guid::new())
    }

    pub fn with_id(id: Guid) -> (g: Self)
        ensures
            g.0 == id,
    {
        ActivityGuid(id)
    }

    pub fn inner(&self) -> (g: &Guid)
        ensures
            *g == self.0,
    {
        &self.0
    }
}

/// The unique identifier of a category.
#[derive(Debug, Clone, Copy, PartialEq, Eq, PartialOrd, Ord, Hash, Structural)]
pub struct CategoryGuid(pub Guid);

impl CategoryGuid {
    pub fn new() -> (g: Self) {
        CategoryGuid(Guid::new())
    }

    pub fn with_id(id: Guid) -> (g: Self)
        ensures
            g.0 == id,
    {
        CategoryGuid(id)
    }

    pub fn inner(&self) -> (g: &Guid)
        ensures
            *g == self.0,
    {
        &self.0
    }
}

/// The unique identifier of a description.
#[derive(Debug, Clone, Copy, PartialEq, Eq, PartialOrd, Ord, Hash, Structural)]
pub struct DescriptionGuid(pub Guid);

impl DescriptionGuid {
    pub fn new() -> (g: Self) {
        DescriptionGuid(Guid::new())
    }

    pub fn with_id(id: Guid) -> (g: Self)
        ensures
            g.0 == id,
    {
        DescriptionGuid(id)
    }

    pub fn inner(&self) -> (g: &Guid)
        ensures
            *g == self.0,
    {
        &self.0
    }
}

/// The unique identifier of an activity kind.
#[derive(Debug, Clone, Copy, PartialEq, Eq, PartialOrd, Ord, Hash, Structural)]
pub struct ActivityKindGuid(pub Guid);

impl ActivityKindGuid {
    pub fn new() -> (g: Self) {
        ActivityKindGuid(Guid::new())
    }

    pub fn with_id(id: Guid) -> (g: Self)
        ensures
            g.0 == id,
    {
        ActivityKindGuid(id)
    }

    pub fn inner(&self) -> (g: &Guid)
        ensures
            *g == self.0,
    {
        &self.0
    }
}

/// The unique identifier of an activity status.
#[derive(Debug, Clone, Copy, PartialEq, Eq, PartialOrd, Ord, Hash, Structural)]
pub struct ActivityStatusGuid(pub Guid);

impl ActivityStatusGuid {
    pub fn new() -> (g: Self) {
        ActivityStatusGuid(Guid::new())
    }

    pub fn with_id(id: Guid) -> (g: Self)
        ensures
            g.0 == id,
    {
        ActivityStatusGuid(id)
    }

    pub fn inner(&self) -> (g: &Guid)
        ensures
            *g == self.0,
    {
        &self.0
    }
}

/// The unique identifier of a tag.
#[derive(Debug, Clone, Copy, PartialEq, Eq, PartialOrd, Ord, Hash, Structural)]
pub struct TagGuid(pub Guid);

impl TagGuid {
    pub fn new() -> (g: Self) {
        TagGuid(Guid::new())
    }

    pub fn with_id(id: Guid) -> (g: Self)
        ensures
            g.0 == id,
    {
        TagGuid(id)
    }

    pub fn inner(&self) -> (g: &Guid)
        ensures
            *g == self.0,
    {
        &self.0
    }
}

} // verus!
