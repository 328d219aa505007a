//! Small helpers on vectors and texts.

use vstd::prelude::*;

verus! {

/// The items in the opposite order, so that they can be taken from the back
/// one by one in their first order.
pub fn reversed<T>(items: Vec<T>) -> (turned: Vec<T>)
    ensures
        turned@.len() == items@.len(),
        forall|j: int| 0 <= j < turned@.len() ==> turned@[j] == items@[items@.len() - 1 - j],
{
    let ghost given = items@;
    let mut pending = items;
    let mut turned: Vec<T> = Vec::new();
    while pending.len() > 0
        invariant
            turned@.len() + pending@.len() == given.len(),
            forall|j: int| 0 <= j < pending@.len() ==> pending@[j] == given[j],
            forall|j: int| 0 <= j < turned@.len() ==> turned@[j] == given[given.len() - 1 - j],
        decreases pending@.len(),
    {
        let item = pending.pop().unwrap();
        turned.push(item);
    }
    turned
}

/// Compares two texts character by character.
pub fn same_text(one: &str, other: &str) -> (same: bool)
    ensures
        same == (one@ == other@),
{
    let left = one.to_owned();
    let right = other.to_owned();
    left == right
}

} // verus!
