//! A verified insertion sort and the median the round consensus takes.

use vstd::prelude::*;
use vstd::relations::total_ordering;
use vstd::relations::sorted_by;
use vstd::seq_lib::lemma_sorted_unique;

verus! {

/// The usual total order on `u64`.
pub open spec fn u64_leq() -> spec_fn(u64, u64) -> bool {
    |a: u64, b: u64| a <= b
}

pub proof fn lemma_u64_leq_total_ordering()
    ensures
        total_ordering(u64_leq()),
{
    let leq = u64_leq();
    assert forall|a: u64| #[trigger] leq(a, a) by {}
    assert forall|a: u64, b: u64| #[trigger] leq(a, b) && #[trigger] leq(b, a) implies a == b by {}
    assert forall|a: u64, b: u64, c: u64|
        #[trigger] leq(a, b) && #[trigger] leq(b, c) implies leq(a, c) by {}
    assert forall|a: u64, b: u64| #[trigger] leq(a, b) || #[trigger] leq(b, a) by {}
}

/// The ascending reordering of a sequence of numbers.
pub open spec fn spec_sorted_u64(s: Seq<u64>) -> Seq<u64> {
    s.sort_by(u64_leq())
}

/// The median of a non-empty sequence: the lower-indexed middle element
/// of its ascending reordering, so even counts pick deterministically.
pub open spec fn spec_median_u64(s: Seq<u64>) -> u64
    recommends
        s.len() > 0,
{
    spec_sorted_u64(s)[((s.len() - 1) / 2) as int]
}

/// Inserting an element anywhere into a sequence adds it to the
/// sequence's multiset.
pub proof fn lemma_insert_to_multiset<A>(s: Seq<A>, i: int, x: A)
    requires
        0 <= i <= s.len(),
    ensures
        s.insert(i, x).to_multiset() =~= s.to_multiset().insert(x),
    decreases s.len(),
{
    broadcast use vstd::seq_lib::group_to_multiset_ensures;

    let t = s.insert(i, x);
    assert(t.len() == s.len() + 1);
    assert(t[i] == x);
    assert(t.remove(i) =~= s);
    assert(t.remove(i).to_multiset() =~= t.to_multiset().remove(x));
    assert(t.to_multiset().contains(x)) by {
        assert(t[i] == x);
    }
    assert(t.to_multiset().remove(x).insert(x) =~= t.to_multiset());
}

/// Sorts a copy of the input ascending; the result is exactly the
/// canonical ascending reordering of the input.
pub fn sorted_u64_vec(v: &Vec<u64>) -> (r: Vec<u64>)
    ensures
        r@ == spec_sorted_u64(v@),
        r@.to_multiset() == v@.to_multiset(),
        r@.len() == v@.len(),
{
    let ghost leq = u64_leq();
    let mut out: Vec<u64> = Vec::new();
    let mut i: usize = 0;
    proof {
        broadcast use vstd::seq_lib::group_to_multiset_ensures;

        assert(v@.take(0) =~= Seq::<u64>::empty());
    }
    while i < v.len()
        invariant
            i <= v@.len(),
            sorted_by(out@, u64_leq()),
            out@.to_multiset() == v@.take(i as int).to_multiset(),
            out@.len() == i,
        decreases v@.len() - i,
    {
        let x = v[i];
        let mut p: usize = 0;
        while p < out.len() && out[p] <= x
            invariant
                p <= out@.len(),
                forall|j: int| 0 <= j < p ==> out@[j] <= x,
            decreases out@.len() - p,
        {
            p += 1;
        }
        let ghost pre = out@;
        out.insert(p, x);
        proof {
            broadcast use vstd::seq_lib::group_to_multiset_ensures;

            assert(out@ =~= pre.insert(p as int, x));
            lemma_insert_to_multiset(pre, p as int, x);
            assert forall|a: int, b: int| 0 <= a < b < pre.len() implies pre[a] <= pre[b] by {
                assert(u64_leq()(pre[a], pre[b]));
            }
            assert forall|a: int, b: int| 0 <= a < b < out@.len() implies u64_leq()(
                out@[a],
                out@[b],
            ) by {
                if a < p {
                    assert(out@[a] == pre[a]);
                    assert(pre[a] <= x);
                }
                if b > p {
                    assert(out@[b] == pre[b - 1]);
                    assert(p < pre.len());
                    assert(x < pre[p as int]);
                    assert(pre[p as int] <= pre[b - 1]);
                }
            }
            assert(sorted_by(out@, u64_leq()));
            assert(v@.take(i + 1) =~= v@.take(i as int).push(v@[i as int]));
        }
        i += 1;
    }
    proof {
        assert(v@.take(v@.len() as int) =~= v@);
        lemma_u64_leq_total_ordering();
        v@.lemma_sort_by_ensures(u64_leq());
        lemma_sorted_unique(out@, spec_sorted_u64(v@), u64_leq());
        broadcast use vstd::seq_lib::group_to_multiset_ensures;

        assert(out@.len() == out@.to_multiset().len());
        assert(v@.len() == v@.to_multiset().len());
    }
    out
}

/// The lower-middle median of a non-empty list of numbers.
pub fn median_u64(v: &Vec<u64>) -> (r: u64)
    requires
        v@.len() > 0,
    ensures
        r == spec_median_u64(v@),
{
    let sorted = sorted_u64_vec(v);
    sorted[(sorted.len() - 1) / 2]
}

} // verus!
