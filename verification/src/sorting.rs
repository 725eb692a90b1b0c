//! Stable sorting of keyed items.

use itertools::Itertools;
use std::cmp::Ordering;
use vstd::prelude::*;

verus! {

/// Whether the second parts of `items` go up strictly.
pub open spec fn ascending_tags(items: Seq<(u128, usize)>) -> bool {
    forall|i: int, j: int| 0 <= i < j < items.len() ==> (#[trigger] items[i]).1 < (#[trigger] items[j]).1
}

/// Whether `sorted` goes up by first parts and, among equal first parts,
/// strictly by second parts.
pub open spec fn sorted_by_first(sorted: Seq<(u128, usize)>) -> bool {
    forall|i: int, j: int|
        0 <= i < j < sorted.len() ==> (#[trigger] sorted[i]).0 < (#[trigger] sorted[j]).0 || (
        sorted[i].0 == sorted[j].0 && sorted[i].1 < sorted[j].1)
}

/// How the first parts of `a` and `b` compare.
pub fn by_first(a: &(u128, usize), b: &(u128, usize)) -> (o: Ordering)
    ensures
        o == (if a.0 < b.0 {
            Ordering::Less
        } else if a.0 == b.0 {
            Ordering::Equal
        } else {
            Ordering::Greater
        }),
{
    if a.0 < b.0 {
        Ordering::Less
    } else if a.0 == b.0 {
        Ordering::Equal
    } else {
        Ordering::Greater
    }
}

/// Sorts `items` by their first parts with `Itertools::sorted_by`, which
/// sorts stably: the result holds the same items, first parts going up, and
/// items with equal first parts in the order they came in, which is that of
/// their second parts.
#[verifier::external_body]
pub(crate) fn sorted_stably(items: Vec<(u128, usize)>) -> (sorted: Vec<(u128, usize)>)
    requires
        ascending_tags(items@),
    ensures
        sorted@.to_multiset() == items@.to_multiset(),
        sorted_by_first(sorted@),
{
    items.into_iter().sorted_by(|a, b| by_first(a, b)).collect()
}

} // verus!
