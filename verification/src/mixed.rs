//! Mixed (pooled) two-sample bootstrap: resampling under the null
//! hypothesis that both samples come from one population.

use vstd::prelude::*;

use crate::compare::{t_fp_spec, t_statistic};
use crate::resample::{lemma_resample_bounded, Resampler};
use crate::sample::{bounded, is_resample_of, valid_values, Sample};
use crate::{DIST_CAP, MAX_LEN, MAX_RESAMPLES, MAX_TIME};

verus! {

/// `v` is the Welch t statistic of the two fragments of one resample of
/// the pooled sample `a + b`, split into a prefix of `a.len()` and a
/// suffix of `b.len()` values (resampling under the null hypothesis).
pub open spec fn t_value_of(v: i64, a: Seq<i64>, b: Seq<i64>) -> bool {
    exists|p: Seq<i64>|
        #![trigger is_resample_of(p, a + b)]
        is_resample_of(p, a + b) && v == t_fp_spec(
            p.subrange(0, a.len() as int),
            p.subrange(a.len() as int, p.len() as int),
        )
}

/// Every value of `vs` is a null-hypothesis t statistic.
pub open spec fn all_t_values(vs: Seq<i64>, a: Seq<i64>, b: Seq<i64>) -> bool {
    forall|k: int| 0 <= k < vs.len() ==> t_value_of(#[trigger] vs[k], a, b)
}

/// Appending one more null t statistic keeps the per-value guarantee.
proof fn lemma_all_t_values_push(a: Seq<i64>, b: Seq<i64>, vs: Seq<i64>, v: i64)
    requires
        all_t_values(vs, a, b),
        t_value_of(v, a, b),
    ensures
        all_t_values(vs.push(v), a, b),
{
    assert forall|k: int| 0 <= k < vs.push(v).len() implies t_value_of(
        #[trigger] vs.push(v)[k],
        a,
        b,
    ) by {
        if k < vs.len() {
            assert(vs.push(v)[k] == vs[k]);
        } else {
            assert(vs.push(v)[k] == v);
        }
    }
}

/// Per-value facts survive the sorting a `Distribution` performs.
pub proof fn lemma_t_values_permuted(a: Seq<i64>, b: Seq<i64>, orig: Seq<i64>, perm: Seq<i64>)
    requires
        perm.to_multiset() == orig.to_multiset(),
        perm.len() == orig.len(),
        all_t_values(orig, a, b),
    ensures
        all_t_values(perm, a, b),
{
    crate::sort::lemma_permutation_preserves_pred(orig, perm, |v: i64| t_value_of(v, a, b));
}

/// Performs a mixed two-sample bootstrap under the null hypothesis that
/// both samples come from one population: pools both samples, draws
/// `nresamples` resamples of the pool, splits each into a prefix of
/// `a.len()` and a suffix of `b.len()` values, and evaluates the Welch t
/// statistic on the fragment pair. Returns one t value (scale `T_SCALE`,
/// saturated at `DIST_CAP`) per resample.
pub fn bootstrap(a: &Sample, b: &Sample, nresamples: usize, resampler: &mut Resampler) -> (r: Vec<
    i64,
>)
    requires
        a.wf(),
        b.wf(),
        a@.len() >= 2,
        b@.len() >= 2,
        a@.len() + b@.len() <= MAX_LEN,
        nresamples <= MAX_RESAMPLES,
    ensures
        r@.len() == nresamples,
        bounded(r@, DIST_CAP as int),
        all_t_values(r@, a@, b@),
{
    let na = a.len();
    let nb = b.len();
    let avs = a.values();
    let bvs = b.values();
    let mut pool: Vec<i64> = Vec::new();
    for i in 0..na
        invariant
            na == a@.len(),
            avs@ == a@,
            pool@ =~= a@.subrange(0, i as int),
    {
        pool.push(avs[i]);
        proof {
            assert(pool@ =~= a@.subrange(0, i as int + 1));
        }
    }
    proof {
        assert(pool@ =~= a@);
    }
    for i in 0..nb
        invariant
            na == a@.len(),
            nb == b@.len(),
            bvs@ == b@,
            pool@ =~= a@ + b@.subrange(0, i as int),
    {
        pool.push(bvs[i]);
        proof {
            assert(pool@ =~= a@ + b@.subrange(0, i as int + 1));
        }
    }
    proof {
        assert(pool@ =~= a@ + b@);
        assert(bounded(pool@, MAX_TIME as int));
    }
    let mut out: Vec<i64> = Vec::new();
    for k in 0..nresamples
        invariant
            out@.len() == k,
            bounded(out@, DIST_CAP as int),
            all_t_values(out@, a@, b@),
            na == a@.len(),
            nb == b@.len(),
            2 <= na,
            2 <= nb,
            na + nb <= MAX_LEN,
            pool@.len() == na + nb,
            pool@ == a@ + b@,
            bounded(pool@, MAX_TIME as int),
    {
        let picked = resampler.resample(&pool);
        proof {
            lemma_resample_bounded(pool@, picked@, MAX_TIME as int);
        }
        let mut frag_a: Vec<i64> = Vec::new();
        for i in 0..na
            invariant
                na <= picked@.len(),
                bounded(picked@, MAX_TIME as int),
                frag_a@ =~= picked@.subrange(0, i as int),
            decreases na - i,
        {
            frag_a.push(picked[i]);
            proof {
                assert(frag_a@ =~= picked@.subrange(0, i as int + 1));
            }
        }
        let mut frag_b: Vec<i64> = Vec::new();
        for i in na..(na + nb)
            invariant
                na + nb == picked@.len(),
                bounded(picked@, MAX_TIME as int),
                frag_b@ =~= picked@.subrange(na as int, i as int),
            decreases na + nb - i,
        {
            frag_b.push(picked[i]);
            proof {
                assert(frag_b@ =~= picked@.subrange(na as int, i as int + 1));
            }
        }
        proof {
            assert(valid_values(frag_a@));
            assert(valid_values(frag_b@));
        }
        let fa = Sample::from_valid(frag_a);
        let fb = Sample::from_valid(frag_b);
        let value: i64 = t_statistic(&fa, &fb);
        proof {
            assert(is_resample_of(picked@, a@ + b@));
            assert(fa@ == picked@.subrange(0, a@.len() as int));
            assert(fb@ == picked@.subrange(a@.len() as int, picked@.len() as int));
            assert(t_value_of(value, a@, b@));
            lemma_all_t_values_push(a@, b@, out@, value);
        }
        out.push(value);
        proof {
            assert(all_t_values(out@, a@, b@));
        }
    }
    out
}

} // verus!
