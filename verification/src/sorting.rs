//! Stable sorting by `f32` keys in the order of `f32::total_cmp`: each item
//! carries the bit pattern of its key, and items with equal keys keep their
//! order, as `sort_by` with `total_cmp` leaves them.
use vstd::prelude::*;

verus! {

/// The key by which `f32::total_cmp` orders `f32` values, from their bit
/// patterns: negative values with all bits flipped, others with the sign bit
/// set, compared as unsigned integers.
pub open spec fn total_order_key(bits: u32) -> u32 {
    if bits >= 0x8000_0000u32 {
        !bits
    } else {
        bits | 0x8000_0000u32
    }
}

/// `f32::total_cmp`'s key of an `f32` bit pattern.
pub fn total_order_key_of(bits: u32) -> (key: u32)
    ensures
        key == total_order_key(bits),
{
    if bits >= 0x8000_0000u32 {
        !bits
    } else {
        bits | 0x8000_0000u32
    }
}

/// The position at which an item of `key` goes into `sorted`, from `j` on:
/// before the first item with a greater key, so after every item with an
/// equal one.
pub open spec fn insertion_point<T>(sorted: Seq<(u32, T)>, key: u32, j: int) -> int
    decreases sorted.len() - j,
{
    if j < 0 || j >= sorted.len() {
        sorted.len() as int
    } else if total_order_key(sorted[j].0) > key {
        j
    } else {
        insertion_point(sorted, key, j + 1)
    }
}

/// `sorted` with `item` inserted in order.
pub open spec fn insert_in_order<T>(sorted: Seq<(u32, T)>, item: (u32, T)) -> Seq<(u32, T)> {
    let p = insertion_point(sorted, total_order_key(item.0), 0);
    sorted.take(p) + seq![item] + sorted.skip(p)
}

/// The items sorted by their `f32` keys as `sort_by` with `f32::total_cmp`
/// sorts them: in key order, items with equal keys in their original order.
pub open spec fn sorted_by_key<T>(items: Seq<(u32, T)>) -> Seq<(u32, T)>
    decreases items.len(),
{
    if items.len() == 0 {
        Seq::empty()
    } else {
        insert_in_order(sorted_by_key(items.drop_last()), items.last())
    }
}

/// Whether the items are in order of their keys.
pub open spec fn in_key_order<T>(items: Seq<(u32, T)>) -> bool {
    forall|i: int, j: int|
        0 <= i < j < items.len() ==> total_order_key(#[trigger] items[i].0) <= total_order_key(#[trigger] items[j].0)
}

/// The insertion point lies in `j..=len`, after every item from `j` with a
/// key at most `key`, and before an item with a greater key.
proof fn lemma_insertion_point<T>(sorted: Seq<(u32, T)>, key: u32, j: int)
    requires
        0 <= j <= sorted.len(),
    ensures
        j <= insertion_point(sorted, key, j) <= sorted.len(),
        forall|i: int| j <= i < insertion_point(sorted, key, j) ==> total_order_key(#[trigger] sorted[i].0) <= key,
        insertion_point(sorted, key, j) < sorted.len() ==> total_order_key(
            sorted[insertion_point(sorted, key, j)].0,
        ) > key,
    decreases sorted.len() - j,
{
    if j < sorted.len() && total_order_key(sorted[j].0) <= key {
        lemma_insertion_point(sorted, key, j + 1);
    }
}

/// Sorting puts the items in key order, and keeps them all.
pub proof fn lemma_sorted_by_key<T>(items: Seq<(u32, T)>)
    ensures
        sorted_by_key(items).len() == items.len(),
        in_key_order(sorted_by_key(items)),
    decreases items.len(),
{
    if items.len() > 0 {
        let rest = sorted_by_key(items.drop_last());
        lemma_sorted_by_key(items.drop_last());
        let item = items.last();
        let key = total_order_key(item.0);
        lemma_insertion_point(rest, key, 0);
        let p = insertion_point(rest, key, 0);
        let result = insert_in_order(rest, item);
        assert forall|i: int, j: int| 0 <= i < j < result.len() implies total_order_key(#[trigger] result[i].0)
            <= total_order_key(#[trigger] result[j].0) by {
            if j < p {
                assert(result[i] == rest[i] && result[j] == rest[j]);
            } else if j == p {
                assert(result[i] == rest[i]);
            } else if i < p {
                assert(result[i] == rest[i] && result[j] == rest[j - 1]);
                assert(total_order_key(rest[i].0) <= total_order_key(rest[p].0));
            } else if i == p {
                assert(result[j] == rest[j - 1]);
                assert(total_order_key(rest[p].0) <= total_order_key(rest[j - 1].0));
            } else {
                assert(result[i] == rest[i - 1] && result[j] == rest[j - 1]);
            }
        }
    }
}

/// Sorts items by their `f32` keys in `f32::total_cmp` order, keeping items
/// with equal keys in their original order.
pub fn sort_by_total_order<T: Copy>(items: Vec<(u32, T)>) -> (sorted: Vec<(u32, T)>)
    ensures
        sorted@ == sorted_by_key(items@),
        sorted@.len() == items@.len(),
        in_key_order(sorted@),
{
    let mut sorted: Vec<(u32, T)> = Vec::new();
    let mut i: usize = 0;
    while i < items.len()
        invariant
            i <= items.len(),
            sorted@ == sorted_by_key(items@.take(i as int)),
        decreases items.len() - i,
    {
        let item = items[i];
        let key = total_order_key_of(item.0);
        let mut p: usize = 0;
        while p < sorted.len() && total_order_key_of(sorted[p].0) <= key
            invariant
                p <= sorted.len(),
                insertion_point(sorted@, key, 0) == insertion_point(sorted@, key, p as int),
            decreases sorted.len() - p,
        {
            p += 1;
        }
        proof {
            assert(items@.take(i + 1).drop_last() =~= items@.take(i as int));
            assert(items@.take(i + 1).last() == item);
            assert(p == insertion_point(sorted@, key, 0));
        }
        let ghost before = sorted@;
        sorted.insert(p, item);
        proof {
            assert(sorted@ =~= before.take(p as int) + seq![item] + before.skip(p as int));
        }
        i += 1;
    }
    proof {
        assert(items@.take(items@.len() as int) =~= items@);
        lemma_sorted_by_key(items@);
    }
    sorted
}

} // verus!
