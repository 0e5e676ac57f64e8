//! What it means to pick entries out of a sequence in order.
//!
//! Every stage output is `Seq::filter_map` of the block's log entries. The
//! facts here say of any such output which entries it comes from.

use vstd::prelude::*;

verus! {

/// The positions of the items that `f` keeps, in increasing order.
pub open spec fn kept_indices<A, B>(items: Seq<A>, f: spec_fn(A) -> Option<B>) -> Seq<int>
    decreases items.len(),
{
    if items.len() == 0 {
        Seq::empty()
    } else {
        let rest = kept_indices(items.drop_last(), f);
        if f(items.last()) is Some {
            rest.push(items.len() - 1)
        } else {
            rest
        }
    }
}

/// The output of `filter_map` lines up with the kept positions: it has one
/// element for each kept item and no other, element `k` is what `f` makes of
/// the `k`-th kept item, and the kept positions increase strictly, so the
/// output is in the order of the input. A position is kept exactly if `f`
/// keeps the item there.
pub proof fn lemma_filter_map_in_order<A, B>(items: Seq<A>, f: spec_fn(A) -> Option<B>)
    ensures
        kept_indices(items, f).len() == items.filter_map(f).len(),
        forall|k: int|
            0 <= k < kept_indices(items, f).len() ==> {
                &&& 0 <= #[trigger] kept_indices(items, f)[k] < items.len()
                &&& f(items[kept_indices(items, f)[k]]) == Some(items.filter_map(f)[k])
            },
        forall|k1: int, k2: int|
            0 <= k1 < k2 < kept_indices(items, f).len() ==> #[trigger] kept_indices(items, f)[k1]
                < #[trigger] kept_indices(items, f)[k2],
        forall|i: int|
            0 <= i < items.len() && f(#[trigger] items[i]) is Some ==> kept_indices(
                items,
                f,
            ).contains(i),
        forall|i: int| #[trigger]
            kept_indices(items, f).contains(i) ==> 0 <= i < items.len() && f(items[i]) is Some,
    decreases items.len(),
{
    if items.len() > 0 {
        let front = items.drop_last();
        let last = items.len() - 1;
        lemma_filter_map_in_order(front, f);
        let idx = kept_indices(items, f);
        let idx_front = kept_indices(front, f);
        let out = items.filter_map(f);
        let out_front = front.filter_map(f);
        assert forall|k: int| 0 <= k < idx.len() implies {
            &&& 0 <= #[trigger] idx[k] < items.len()
            &&& f(items[idx[k]]) == Some(out[k])
        } by {
            if k < idx_front.len() {
                assert(idx[k] == idx_front[k]);
                assert(items[idx_front[k]] == front[idx_front[k]]);
                assert(out[k] == out_front[k]);
            }
        }
        assert forall|k1: int, k2: int| 0 <= k1 < k2 < idx.len() implies #[trigger] idx[k1]
            < #[trigger] idx[k2] by {
            assert(idx[k1] == idx_front[k1]);
            if k2 < idx_front.len() {
                assert(idx[k2] == idx_front[k2]);
            }
        }
        assert forall|i: int| 0 <= i < items.len() && f(#[trigger] items[i]) is Some implies idx.contains(
            i,
        ) by {
            if i < last {
                assert(front[i] == items[i]);
                let k = choose|k: int| 0 <= k < idx_front.len() && idx_front[k] == i;
                assert(idx[k] == i);
            } else {
                assert(idx[idx.len() - 1] == i);
            }
        }
    }
}

/// An item that `f` keeps shows up in the output of `filter_map`.
pub proof fn lemma_filter_map_keeps<A, B>(items: Seq<A>, f: spec_fn(A) -> Option<B>, i: int)
    requires
        0 <= i < items.len(),
        f(items[i]) is Some,
    ensures
        items.filter_map(f).contains(f(items[i])->0),
{
    lemma_filter_map_in_order(items, f);
    let idx = kept_indices(items, f);
    assert(idx.contains(i));
    let k = choose|k: int| 0 <= k < idx.len() && idx[k] == i;
    assert(items.filter_map(f)[k] == f(items[i])->0);
}

} // verus!
