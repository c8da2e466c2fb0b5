//! Sorting of measurement values, for percentile queries.

use vstd::prelude::*;

verus! {

/// The sequence is in ascending order.
pub open spec fn sorted(s: Seq<i64>) -> bool {
    forall|i: int, j: int| 0 <= i <= j < s.len() ==> s[i] <= s[j]
}

/// A property of individual values survives any reordering: if every
/// value of `orig` satisfies `p`, so does every value of a permutation.
pub proof fn lemma_permutation_preserves_pred(orig: Seq<i64>, perm: Seq<i64>, p: spec_fn(i64) -> bool)
    requires
        perm.to_multiset() == orig.to_multiset(),
        forall|j: int| 0 <= j < orig.len() ==> p(#[trigger] orig[j]),
    ensures
        forall|k: int| 0 <= k < perm.len() ==> p(#[trigger] perm[k]),
{
    broadcast use vstd::seq_lib::group_to_multiset_ensures;

    assert forall|k: int| 0 <= k < perm.len() implies p(perm[k]) by {
        assert(perm.to_multiset().count(perm[k]) > 0);
        assert(orig.contains(perm[k]));
    }
}

/// A multiset of values has exactly one ascending arrangement.
pub proof fn lemma_sort_of_equal(x: Seq<i64>, y: Seq<i64>)
    requires
        sorted(x),
        sorted(y),
        x.to_multiset() == y.to_multiset(),
    ensures
        x == y,
{
    let leq = |a: i64, b: i64| a <= b;
    assert(vstd::relations::sorted_by(x, leq));
    assert(vstd::relations::sorted_by(y, leq));
    assert(vstd::relations::reflexive(leq)) by {
        assert(forall|a: i64| #[trigger] leq(a, a));
    }
    assert(vstd::relations::antisymmetric(leq)) by {
        assert(forall|a: i64, b: i64| #[trigger] leq(a, b) && #[trigger] leq(b, a) ==> a == b);
    }
    assert(vstd::relations::transitive(leq)) by {
        assert(forall|a: i64, b: i64, c: i64|
            #[trigger] leq(a, b) && #[trigger] leq(b, c) ==> leq(a, c));
    }
    assert(vstd::relations::strongly_connected(leq)) by {
        assert(forall|a: i64, b: i64| #[trigger] leq(a, b) || #[trigger] leq(b, a));
    }
    vstd::seq_lib::lemma_sorted_unique(x, y, leq);
    assert(x =~= y);
}

/// Returns an ascending copy of `v` (insertion sort; samples and
/// bootstrap distributions are small enough that a quadratic sort is fine).
pub fn sort_values(v: &Vec<i64>) -> (r: Vec<i64>)
    ensures
        r@.len() == v@.len(),
        sorted(r@),
        r@.to_multiset() == v@.to_multiset(),
{
    broadcast use vstd::seq_lib::group_to_multiset_ensures;

    let mut r: Vec<i64> = Vec::new();
    let ghost whole = v@;
    assert(v@.subrange(0, 0) =~= Seq::<i64>::empty());
    for idx in 0..v.len()
        invariant
            r@.len() == idx,
            sorted(r@),
            r@.to_multiset() == v@.subrange(0, idx as int).to_multiset(),
    {
        let x = v[idx];
        let mut pos: usize = 0;
        while pos < r.len() && r[pos] <= x
            invariant
                pos <= r@.len(),
                forall|k: int| 0 <= k < pos ==> r@[k] <= x,
            decreases r@.len() - pos,
        {
            pos = pos + 1;
        }
        let ghost before = r@;
        r.insert(pos, x);
        proof {
            broadcast use vstd::seq_lib::group_to_multiset_ensures;

            assert(forall|k: int| pos < k < r@.len() ==> r@[k] == before[k - 1]);
            assert forall|i: int, j: int| 0 <= i <= j < r@.len() implies r@[i] <= r@[j] by {
                if i < pos && j == pos {
                    assert(r@[i] == before[i]);
                } else if i == pos && j > pos {
                    assert(before[(pos as int)] > x || pos == before.len());
                    assert(before[j - 1] >= before[(pos as int)] || pos == before.len());
                }
            }
            assert(r@ == before.insert(pos as int, x));
            assert(r@.to_multiset() == before.to_multiset().insert(x));
            assert(v@.subrange(0, idx as int).push(x) =~= v@.subrange(0, idx as int + 1));
            assert(v@.subrange(0, idx as int).push(x).to_multiset() == v@.subrange(
                0,
                idx as int,
            ).to_multiset().insert(x));
            assert(v@.subrange(0, idx as int + 1).to_multiset() == v@.subrange(
                0,
                idx as int,
            ).to_multiset().insert(x));
        }
    }
    proof {
        assert(v@.subrange(0, v@.len() as int) =~= v@);
    }
    r
}

} // verus!
