//! Ordering items by a count, largest first.
use vstd::prelude::*;
use vstd::multiset::Multiset;

verus! {

/// Items that carry a count to be ranked by.
pub trait Ranked: View + Sized {
    spec fn rank(&self) -> nat;

    fn rank_exec(&self) -> (r: u64)
        ensures
            r == self.rank(),
    ;
}

/// The views of a sequence of items.
pub open spec fn item_views<T: View>(s: Seq<T>) -> Seq<T::V> {
    s.map_values(|x: T| x@)
}

/// Counts never increase along the sequence.
pub open spec fn sorted_desc<T: Ranked>(s: Seq<T>) -> bool {
    forall|i: int, j: int| 0 <= i < j < s.len() ==> s[i].rank() >= s[j].rank()
}

/// Rearranges the items so that their counts never increase; the result
/// holds the same items (as a multiset of views).  Items with equal counts
/// may come in any order.
pub fn sort_desc<T: Ranked>(v: Vec<T>) -> (r: Vec<T>)
    ensures
        item_views(r@).to_multiset() == item_views(v@).to_multiset(),
        r@.to_multiset() == v@.to_multiset(),
        sorted_desc(r@),
        r@.len() == v@.len(),
{
    broadcast use vstd::seq_lib::group_to_multiset_ensures;

    let mut rest = v;
    let ghost orig = item_views(rest@).to_multiset();
    let ghost orig_items = rest@.to_multiset();
    let mut out: Vec<T> = Vec::new();
    assert(item_views(out@) =~= Seq::<T::V>::empty());
    assert(item_views(out@).to_multiset() =~= Multiset::<T::V>::empty());
    assert(out@.to_multiset() =~= Multiset::<T>::empty());
    while rest.len() > 0
        invariant
            item_views(out@).to_multiset().add(item_views(rest@).to_multiset()) == orig,
            out@.to_multiset().add(rest@.to_multiset()) == orig_items,
            sorted_desc(out@),
            out@.len() + rest@.len() == v@.len(),
        decreases rest.len(),
    {
        let ghost rest_before = rest@;
        let x = rest.pop().unwrap();
        assert(rest_before =~= rest@.push(x));
        assert(item_views(rest_before) =~= item_views(rest@).push(x@));
        let kx = x.rank_exec();
        let mut p: usize = 0;
        while p < out.len() && out[p].rank_exec() >= kx
            invariant
                p <= out.len(),
                forall|j: int| 0 <= j < p ==> out@[j].rank() >= kx,
            decreases out.len() - p,
        {
            p = p + 1;
        }
        let ghost out_before = out@;
        out.insert(p, x);
        proof {
            broadcast use vstd::multiset::group_multiset_axioms;
            assert(item_views(out@) =~= item_views(out_before).insert(p as int, x@));
            vstd::seq_lib::to_multiset_insert(item_views(out_before), p as int, x@);
            vstd::seq_lib::to_multiset_build(item_views(rest@), x@);
            vstd::seq_lib::to_multiset_insert(out_before, p as int, x);
            vstd::seq_lib::to_multiset_build(rest@, x);
            assert(out@.to_multiset().add(rest@.to_multiset()) =~= out_before.to_multiset().add(
                rest_before.to_multiset(),
            ));
            assert(item_views(out@).to_multiset().add(item_views(rest@).to_multiset()) =~= item_views(
                out_before,
            ).to_multiset().add(item_views(rest_before).to_multiset()));
            assert forall|i: int, j: int| 0 <= i < j < out@.len() implies out@[i].rank()
                >= out@[j].rank() by {
                if j < p {
                    assert(out@[i] == out_before[i] && out@[j] == out_before[j]);
                } else if j == p {
                    assert(out@[i] == out_before[i]);
                } else if i < p {
                    assert(out@[i] == out_before[i] && out@[j] == out_before[j - 1]);
                    if p < out_before.len() {
                        assert(out_before[p as int].rank() < kx);
                        if j - 1 > p {
                            assert(out_before[p as int].rank() >= out_before[j - 1].rank());
                        }
                    }
                } else if i == p {
                    assert(out@[j] == out_before[j - 1]);
                    assert(out_before[p as int].rank() < kx);
                    if j - 1 > p {
                        assert(out_before[p as int].rank() >= out_before[j - 1].rank());
                    }
                } else {
                    assert(out@[i] == out_before[i - 1] && out@[j] == out_before[j - 1]);
                }
            }
        }
    }
    assert(item_views(rest@) =~= Seq::<T::V>::empty());
    assert(item_views(rest@).to_multiset() =~= Multiset::<T::V>::empty());
    assert(item_views(out@).to_multiset().add(Multiset::<T::V>::empty()) =~= item_views(out@).to_multiset());
    assert(rest@ =~= Seq::<T>::empty());
    assert(rest@.to_multiset() =~= Multiset::<T>::empty());
    assert(out@.to_multiset().add(Multiset::<T>::empty()) =~= out@.to_multiset());
    out
}

} // verus!
