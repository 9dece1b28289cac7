//! Kinds of priorities and of output formats for reviews and reflections.

use vstd::prelude::*;

verus! {

/// The priority of an item; `Medium` by default.
#[derive(Debug, Clone, Copy, PartialEq, Eq, PartialOrd, Ord, Hash, Structural)]
pub enum ItemPriorityKind {
    High,
    Medium,
    Low,
}

impl Default for ItemPriorityKind {
    fn default() -> (p: Self)
        ensures
            p == ItemPriorityKind::Medium,
    {
        ItemPriorityKind::Medium
    }
}

/// The format of a reflection; `Console` by default.
#[derive(Debug, Clone, Copy, PartialEq, Eq, Hash, Structural)]
pub enum ReflectionsFormatKind {
    Console,
    Template,
    Json,
    Csv,
}

impl Default for ReflectionsFormatKind {
    fn default() -> (f: Self)
        ensures
            f == ReflectionsFormatKind::Console,
    {
        ReflectionsFormatKind::Console
    }
}

/// The format of a review; `Console` by default.
#[derive(Debug, Clone, Copy, PartialEq, Eq, Hash, Structural)]
pub enum ReviewFormatKind {
    Console,
    Json,
    Html,
    Csv,
    Markdown,
    PlainText,
}

impl Default for ReviewFormatKind {
    fn default() -> (f: Self)
        ensures
            f == ReviewFormatKind::Console,
    {
        ReviewFormatKind::Console
    }
}

} // verus!
