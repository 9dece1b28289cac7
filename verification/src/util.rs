//! Small general helpers.

use vstd::prelude::*;

verus! {

/// Overwrites a value with another one, e.g. an activity with an updated one.
pub fn overwrite_left_with_right<T>(left: &mut T, right: T)
    ensures
        *final(left) == right,
{
    *left = right;
}

} // verus!
