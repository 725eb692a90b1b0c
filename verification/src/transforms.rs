//! The order in which statuses move what is drawn.

use crate::sorting::{ascending_tags, sorted_stably};
use crate::statuses::{Status, StatusType};
use vstd::prelude::*;

verus! {

/// The rank of a status type among those that move what is drawn: a wobble
/// is applied before a kill, a move or a fall. Other types have none.
pub open spec fn spec_sort_key(stype: StatusType) -> Option<u8> {
    match stype {
        StatusType::Wobble { .. } => Some(0u8),
        StatusType::Killed { .. } => Some(1u8),
        StatusType::Move { .. } => Some(1u8),
        StatusType::Falling => Some(1u8),
        _ => None,
    }
}

/// Whether `order` lists the indices of the statuses of `statuses` that
/// have a rank, each once, by rank and within one rank as they stand.
pub open spec fn is_display_order(statuses: Seq<Status>, order: Seq<usize>) -> bool {
    &&& forall|j: int|
        0 <= j < order.len() ==> (#[trigger] order[j]) < statuses.len() && spec_sort_key(
            statuses[order[j] as int].stype,
        ) is Some
    &&& forall|i: int|
        0 <= i < statuses.len() && spec_sort_key((#[trigger] statuses[i]).stype) is Some
            ==> order.contains(i as usize)
    &&& forall|a: int, b: int|
        0 <= a < b < order.len() ==> {
            let ka = spec_sort_key(statuses[(#[trigger] order[a]) as int].stype)->0;
            let kb = spec_sort_key(statuses[(#[trigger] order[b]) as int].stype)->0;
            ka < kb || (ka == kb && order[a] < order[b])
        }
}

pub fn sort_key(stype: &StatusType) -> (key: Option<u8>)
    ensures
        key == spec_sort_key(*stype),
{
    match stype {
        StatusType::Wobble { .. } => Some(0),
        StatusType::Killed { .. } => Some(1),
        StatusType::Move { .. } => Some(1),
        StatusType::Falling => Some(1),
        _ => None,
    }
}

/// The order in which the statuses of `statuses` are to be applied to what
/// is drawn, as indices into `statuses`.
pub fn display_order(statuses: &Vec<Status>) -> (order: Vec<usize>)
    ensures
        is_display_order(statuses@, order@),
{
    let mut items: Vec<(u128, usize)> = Vec::new();
    let mut i: usize = 0;
    while i < statuses.len()
        invariant
            i <= statuses.len(),
            ascending_tags(items@),
            forall|m: int|
                0 <= m < items.len() ==> (#[trigger] items@[m]).1 < i && spec_sort_key(
                    statuses@[items@[m].1 as int].stype,
                ) == Some(items@[m].0 as u8) && items@[m].0 <= 1,
            forall|k: int|
                0 <= k < i && spec_sort_key((#[trigger] statuses@[k]).stype) is Some
                    ==> items@.contains(
                    (spec_sort_key(statuses@[k].stype)->0 as u128, k as usize),
                ),
        decreases statuses.len() - i,
    {
        let ghost before = items@;
        if let Some(key) = sort_key(&statuses[i].stype) {
            items.push((key as u128, i));
            assert(items@[before.len() as int] == (key as u128, i));
            assert forall|k: int|
                0 <= k < i + 1 && spec_sort_key(
                    (#[trigger] statuses@[k]).stype,
                ) is Some implies items@.contains(
                (spec_sort_key(statuses@[k].stype)->0 as u128, k as usize),
            ) by {
                let e = (spec_sort_key(statuses@[k].stype)->0 as u128, k as usize);
                if k < i {
                    let m = choose|m: int| 0 <= m < before.len() && before[m] == e;
                    assert(items@[m] == e);
                } else {
                    assert(items@[before.len() as int] == e);
                }
            }
        }
        i = i + 1;
    }
    let sorted = sorted_stably(items);
    proof {
        vstd::seq_lib::to_multiset_len(sorted@);
        vstd::seq_lib::to_multiset_len(items@);
        assert forall|j: int| 0 <= j < sorted.len() implies items@.contains(#[trigger] sorted@[j]) by {
            vstd::seq_lib::to_multiset_contains(sorted@, sorted@[j]);
            vstd::seq_lib::to_multiset_contains(items@, sorted@[j]);
            assert(sorted@.contains(sorted@[j]));
        }
        assert forall|k: int| 0 <= k < items.len() implies sorted@.contains(#[trigger] items@[k]) by {
            vstd::seq_lib::to_multiset_contains(sorted@, items@[k]);
            vstd::seq_lib::to_multiset_contains(items@, items@[k]);
            assert(items@.contains(items@[k]));
        }
    }
    let mut order: Vec<usize> = Vec::new();
    let mut j: usize = 0;
    while j < sorted.len()
        invariant
            j <= sorted.len(),
            order.len() == j,
            forall|m: int| 0 <= m < j ==> (#[trigger] order@[m]) == sorted@[m].1,
        decreases sorted.len() - j,
    {
        order.push(sorted[j].1);
        j = j + 1;
    }
    proof {
        assert forall|j: int| 0 <= j < order.len() implies (#[trigger] order@[j]) < statuses.len()
            && spec_sort_key(statuses@[order@[j] as int].stype) == Some(sorted@[j].0 as u8)
            && sorted@[j].0 <= 1 by {
            assert(items@.contains(sorted@[j]));
            let m = choose|m: int| 0 <= m < items@.len() && items@[m] == sorted@[j];
            assert(items@[m].1 < statuses.len());
        }
        assert forall|i: int|
            0 <= i < statuses.len() && spec_sort_key(
                (#[trigger] statuses@[i]).stype,
            ) is Some implies order@.contains(i as usize) by {
            let e = (spec_sort_key(statuses@[i].stype)->0 as u128, i as usize);
            assert(items@.contains(e));
            let m = choose|m: int| 0 <= m < items@.len() && items@[m] == e;
            assert(sorted@.contains(items@[m]));
            let j = choose|j: int| 0 <= j < sorted@.len() && sorted@[j] == e;
            assert(order@[j] == i as usize);
        }
        assert forall|a: int, b: int| 0 <= a < b < order.len() implies ({
            let ka = spec_sort_key(statuses@[(#[trigger] order@[a]) as int].stype)->0;
            let kb = spec_sort_key(statuses@[(#[trigger] order@[b]) as int].stype)->0;
            ka < kb || (ka == kb && order@[a] < order@[b])
        }) by {
            assert(sorted@[a].0 < sorted@[b].0 || (sorted@[a].0 == sorted@[b].0 && sorted@[a].1
                < sorted@[b].1));
        }
    }
    order
}

} // verus!
