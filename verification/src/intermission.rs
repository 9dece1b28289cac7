//! What to do when an activity that already has a break is held again.

use vstd::prelude::*;

verus! {

/// What to do with an intermission when an activity is held.
#[derive(Debug, Clone, Copy, PartialEq, Eq, Hash, Structural)]
pub enum IntermissionAction {
    /// Extend the current intermission.
    Extend,
    /// Start a new intermission.
    New,
}

impl IntermissionAction {
    /// The default action is to extend.
    pub fn default_action() -> (a: Self)
        ensures
            a == IntermissionAction::Extend,
    {
        IntermissionAction::Extend
    }

    /// `New` when a new intermission is asked for, else `Extend`.
    pub fn from_new(new: bool) -> (a: Self)
        ensures
            a == (if new { IntermissionAction::New } else { IntermissionAction::Extend }),
    {
        if new {
            IntermissionAction::New
        } else {
            IntermissionAction::Extend
        }
    }

    pub fn is_extend(&self) -> (b: bool)
        ensures
            b == (*self == IntermissionAction::Extend),
    {
        matches!(*self, IntermissionAction::Extend)
    }

    pub fn is_new(&self) -> (b: bool)
        ensures
            b == (*self == IntermissionAction::New),
    {
        matches!(*self, IntermissionAction::New)
    }
}

impl From<bool> for IntermissionAction {
    fn from(new: bool) -> Self {
        IntermissionAction::from_new(new)
    }
}

impl vstd::std_specs::convert::FromSpecImpl<bool> for IntermissionAction {
    open spec fn obeys_from_spec() -> bool {
        true
    }

    open spec fn from_spec(v: bool) -> Self {
        if v {
            IntermissionAction::New
        } else {
            IntermissionAction::Extend
        }
    }
}

} // verus!
