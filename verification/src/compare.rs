//! Two-sample comparison: Welch t statistic, bootstrapped null
//! distribution, p-value, and relative-change classification.

use vstd::prelude::*;

use crate::dist::Distribution;
use crate::estimate::Estimate;
use crate::frac::Frac;
use crate::isqrt::{
    is_sqrt_floor, isqrt_u128, lemma_sqrt_floor_exists, lemma_sqrt_floor_unique, sqrt_floor,
};
use crate::sample::{
    abs_i, lemma_seq_sq_dev_bounds, lemma_seq_sum_bound, seq_sq_dev, seq_sum, sq_dev_total, Sample,
};
use crate::{DIST_CAP, MAX_LEN, MAX_RESAMPLES, MAX_TIME, REL_SCALE, SE2_SCALE, STD_SCALE, T_SCALE};

verus! {

/// Saturates a value at `[-DIST_CAP, DIST_CAP]`.
pub open spec fn clamp_cap(x: int) -> int {
    if x > DIST_CAP {
        DIST_CAP as int
    } else if x < -DIST_CAP {
        -DIST_CAP as int
    } else {
        x
    }
}

/// The squared pooled standard error of the Welch t statistic,
/// `var(a)/len(a) + var(b)/len(b)`, in fixed point at scale `SE2_SCALE`
/// (each term floored once).
pub open spec fn welch_se2_fp(a: Seq<i64>, b: Seq<i64>) -> int {
    let na = a.len() as int;
    let nb = b.len() as int;
    let va = seq_sq_dev(a, na, seq_sum(a));
    let vb = seq_sq_dev(b, nb, seq_sum(b));
    va * SE2_SCALE / (na * na * (na - 1) * na) + vb * SE2_SCALE / (nb * nb * (nb - 1) * nb)
}

/// The two-sample Welch t statistic
/// `(mean(a) - mean(b)) / sqrt(var(a)/len(a) + var(b)/len(b))` in fixed
/// point at scale `T_SCALE`, saturated at `DIST_CAP`. When both samples
/// have zero variance, the statistic is 0 for equal means and saturates
/// otherwise.
pub open spec fn t_fp_spec(a: Seq<i64>, b: Seq<i64>) -> int {
    let dn = seq_sum(a) * b.len() - seq_sum(b) * a.len();
    let dd = a.len() * b.len();
    let se2 = welch_se2_fp(a, b);
    if se2 == 0 {
        if dn > 0 {
            DIST_CAP as int
        } else if dn < 0 {
            -DIST_CAP as int
        } else {
            0
        }
    } else {
        let se = sqrt_floor(se2);
        let mag = abs_i(dn) * STD_SCALE * T_SCALE / (dd * se);
        if dn >= 0 {
            clamp_cap(mag)
        } else {
            clamp_cap(-mag)
        }
    }
}

/// Computes the Welch t statistic of two samples.
pub fn t_statistic(a: &Sample, b: &Sample) -> (r: i64)
    requires
        a.wf(),
        b.wf(),
        a@.len() >= 2,
        b@.len() >= 2,
    ensures
        r == t_fp_spec(a@, b@),
        -DIST_CAP <= r <= DIST_CAP,
{
    let ghost aseq = a@;
    let ghost bseq = b@;
    let na: i128 = a.len() as i128;
    let nb: i128 = b.len() as i128;
    let sa = a.sum();
    let sb = b.sum();
    proof {
        lemma_seq_sum_bound(aseq, MAX_TIME as int);
        lemma_seq_sum_bound(bseq, MAX_TIME as int);
        assert(-0x400_0000_0000_0000 <= sa * nb <= 0x400_0000_0000_0000 && -0x400_0000_0000_0000
            <= sb * na <= 0x400_0000_0000_0000 && 2 <= na * nb <= 0x10_0000) by (nonlinear_arith)
            requires
                -(na * MAX_TIME) <= sa <= na * MAX_TIME,
                -(nb * MAX_TIME) <= sb <= nb * MAX_TIME,
                2 <= na <= 1024,
                2 <= nb <= 1024,
        ;
    }
    let dn: i128 = (sa as i128) * nb - (sb as i128) * na;
    let dd: i128 = na * nb;
    let va = sq_dev_total(a.values(), sa);
    let vb = sq_dev_total(b.values(), sb);
    proof {
        lemma_seq_sq_dev_bounds(aseq, na as int, sa as int, MAX_TIME as int, na * MAX_TIME);
        lemma_seq_sq_dev_bounds(bseq, nb as int, sb as int, MAX_TIME as int, nb * MAX_TIME);
        lemma_welch_term(na as int, va as int);
        lemma_welch_term(nb as int, vb as int);
        assert(4 <= na * na <= 0x10_0000 && 4 <= na * na * (na - 1) <= 0x4000_0000 && 4 <= nb * nb
            <= 0x10_0000 && 4 <= nb * nb * (nb - 1) <= 0x4000_0000) by (nonlinear_arith)
            requires
                2 <= na <= 1024,
                2 <= nb <= 1024,
        ;
    }
    let den_a: i128 = na * na * (na - 1) * na;
    let den_b: i128 = nb * nb * (nb - 1) * nb;
    let vna: i128 = (va * (SE2_SCALE as i128)) / den_a;
    let vnb: i128 = (vb * (SE2_SCALE as i128)) / den_b;
    let se2: i128 = vna + vnb;
    proof {
        assert(se2 == welch_se2_fp(aseq, bseq));
    }
    if se2 == 0 {
        if dn > 0 {
            DIST_CAP
        } else if dn < 0 {
            -DIST_CAP
        } else {
            0
        }
    } else {
        let se = isqrt_u128(se2 as u128);
        proof {
            lemma_sqrt_floor_exists(se2 as int);
            lemma_sqrt_floor_unique(se2 as int, se as int, sqrt_floor(se2 as int));
            assert(1 <= se && se <= 0x1_0000_0000_0000 && 1 <= dd * se <= 0x1_0000_0000_0000_0000_0)
                by (nonlinear_arith)
                requires
                    se * se <= se2,
                    (se + 1) * (se + 1) > se2,
                    se >= 0,
                    1 <= se2,
                    se2 <= 0x8_0000_0000_0000_0000_0000_00,
                    2 <= dd <= 0x10_0000,
            ;
        }
        let mag_num: i128 = (if dn >= 0 {
            dn
        } else {
            -dn
        }) * (STD_SCALE as i128) * (T_SCALE as i128);
        let mag: i128 = mag_num / (dd * (se as i128));
        proof {
            assert(0 <= (mag_num as int) / ((dd as int) * (se as int)) <= mag_num as int)
                by (nonlinear_arith)
                requires
                    mag_num >= 0,
                    (dd as int) * (se as int) >= 1,
            ;
            assert((mag_num as int) / ((dd as int) * (se as int)) == abs_i(dn as int) * STD_SCALE
                * T_SCALE / ((dd as int) * (se as int)));
        }
        let clamped: i64 = if mag > DIST_CAP as i128 {
            DIST_CAP
        } else {
            mag as i64
        };
        if dn >= 0 {
            clamped
        } else {
            -clamped
        }
    }
}

/// How many values of `s` are at least as extreme as `t` in magnitude
/// (ties count as exceeding).
pub open spec fn count_abs_geq(s: Seq<i64>, t: int) -> int
    decreases s.len(),
{
    if s.len() == 0 {
        0
    } else {
        count_abs_geq(s.drop_last(), t) + if abs_i(s.last() as int) >= abs_i(t) {
            1int
        } else {
            0int
        }
    }
}

/// The two-tailed p-value of `t` against a bootstrapped null distribution:
/// the fraction of null values whose magnitude reaches `|t|`.
pub fn p_value(t: i64, t_distribution: &Distribution) -> (r: Frac)
    requires
        t_distribution.wf(),
        t_distribution@.len() >= 1,
        -DIST_CAP <= t <= DIST_CAP,
    ensures
        r.num == count_abs_geq(t_distribution@, t as int),
        r.den == t_distribution@.len(),
        r.wf(),
        0 <= r.num <= r.den,
{
    let values = t_distribution.values();
    let ta: i64 = if t < 0 {
        -t
    } else {
        t
    };
    let mut count: i64 = 0;
    assert(values@.subrange(0, 0) =~= Seq::<i64>::empty());
    for i in 0..values.len()
        invariant
            values@ == t_distribution@,
            t_distribution.wf(),
            -DIST_CAP <= t <= DIST_CAP,
            ta == abs_i(t as int),
            count == count_abs_geq(values@.subrange(0, i as int), t as int),
            0 <= count <= i,
    {
        proof {
            let pre = values@.subrange(0, i as int);
            let post = values@.subrange(0, i as int + 1);
            assert(post.drop_last() =~= pre);
        }
        let v = values[i];
        let va: i64 = if v < 0 {
            -v
        } else {
            v
        };
        if va >= ta {
            count = count + 1;
        }
    }
    proof {
        assert(values@.subrange(0, values@.len() as int) =~= values@);
    }
    Frac { num: count, den: values.len() as i64 }
}

/// The relative change from `base` to `cur`, `(cur - base) / base`, in
/// fixed point at scale `REL_SCALE` (truncated toward zero) and saturated
/// at `DIST_CAP`. A zero baseline saturates by the sign of the change.
pub open spec fn rel_fp_spec(cur: Frac, base: Frac) -> int {
    let num = cur.num * base.den - base.num * cur.den;
    let den = base.num * cur.den;
    if den == 0 {
        if num > 0 {
            DIST_CAP as int
        } else if num < 0 {
            -DIST_CAP as int
        } else {
            0
        }
    } else {
        let mag = abs_i(num) * REL_SCALE / abs_i(den);
        if (num >= 0) == (den > 0) {
            clamp_cap(mag)
        } else {
            clamp_cap(-mag)
        }
    }
}

/// Computes the relative change from `base` to `cur`.
pub fn rel_change(cur: &Frac, base: &Frac) -> (r: i64)
    requires
        cur.wf(),
        base.wf(),
        -DIST_CAP <= cur.num <= DIST_CAP,
        -DIST_CAP <= base.num <= DIST_CAP,
        cur.den <= 0x10_0000_0000,
        base.den <= 0x10_0000_0000,
    ensures
        r == rel_fp_spec(*cur, *base),
        -DIST_CAP <= r <= DIST_CAP,
{
    proof {
        assert(-0x10_0000_0000_0000_0000_0000 <= (cur.num as int) * (base.den as int)
            <= 0x10_0000_0000_0000_0000_0000 && -0x10_0000_0000_0000_0000_0000 <= (base.num as int)
            * (cur.den as int) <= 0x10_0000_0000_0000_0000_0000) by (nonlinear_arith)
            requires
                -DIST_CAP <= cur.num <= DIST_CAP,
                -DIST_CAP <= base.num <= DIST_CAP,
                1 <= cur.den <= 0x10_0000_0000,
                1 <= base.den <= 0x10_0000_0000,
        ;
    }
    let num: i128 = (cur.num as i128) * (base.den as i128) - (base.num as i128) * (cur.den as i128);
    let den: i128 = (base.num as i128) * (cur.den as i128);
    if den == 0 {
        if num > 0 {
            DIST_CAP
        } else if num < 0 {
            -DIST_CAP
        } else {
            0
        }
    } else {
        let na: i128 = if num < 0 {
            -num
        } else {
            num
        };
        let da: i128 = if den < 0 {
            -den
        } else {
            den
        };
        let mag: i128 = (na * (REL_SCALE as i128)) / da;
        proof {
            assert(0 <= (na as int) * REL_SCALE / (da as int)) by (nonlinear_arith)
                requires
                    na >= 0,
                    da >= 1,
            ;
        }
        let clamped: i64 = if mag > DIST_CAP as i128 {
            DIST_CAP
        } else {
            mag as i64
        };
        if (num >= 0) == (den > 0) {
            clamped
        } else {
            -clamped
        }
    }
}

/// Outcome of holding one relative-change estimate against the noise
/// threshold.
#[derive(Clone, Copy, Debug, PartialEq, Eq, Structural)]
pub enum ComparisonResult {
    Improved,
    Regressed,
    NonSignificant,
}

/// Classification of a relative-change interval `[lb, ub]` against the
/// noise threshold: improved when the whole interval lies below `-noise`,
/// regressed when it lies above `noise`, within noise otherwise.
pub open spec fn threshold_class(lb: Frac, ub: Frac, noise: Frac) -> ComparisonResult {
    if lb.num * noise.den < -(noise.num * lb.den) && ub.num * noise.den < -(noise.num * ub.den) {
        ComparisonResult::Improved
    } else if lb.num * noise.den > noise.num * lb.den && ub.num * noise.den > noise.num * ub.den {
        ComparisonResult::Regressed
    } else {
        ComparisonResult::NonSignificant
    }
}

/// Holds one estimate's confidence interval against the noise threshold.
pub fn compare_to_threshold(estimate: &Estimate, noise: &Frac) -> (r: ComparisonResult)
    requires
        estimate.wf(),
        noise.wf(),
        0 <= noise.num,
    ensures
        r == threshold_class(
            estimate.confidence_interval.lower_bound,
            estimate.confidence_interval.upper_bound,
            *noise,
        ),
{
    let lb = &estimate.confidence_interval.lower_bound;
    let ub = &estimate.confidence_interval.upper_bound;
    proof {
        crate::frac::lemma_i64_mul_fits(lb.num as int, noise.den as int);
        crate::frac::lemma_i64_mul_fits(noise.num as int, lb.den as int);
        crate::frac::lemma_i64_mul_fits(ub.num as int, noise.den as int);
        crate::frac::lemma_i64_mul_fits(noise.num as int, ub.den as int);
    }
    let lbn = (lb.num as i128) * (noise.den as i128);
    let ubn = (ub.num as i128) * (noise.den as i128);
    let nlb = (noise.num as i128) * (lb.den as i128);
    let nub = (noise.num as i128) * (ub.den as i128);
    if lbn < -nlb && ubn < -nub {
        ComparisonResult::Improved
    } else if lbn > nlb && ubn > nub {
        ComparisonResult::Regressed
    } else {
        ComparisonResult::NonSignificant
    }
}

/// The statistics whose relative change the comparison bootstraps.
#[derive(Clone, Copy, Debug, PartialEq, Eq, Structural)]
pub enum RelStatistic {
    Mean,
    Median,
}

/// `v` is the relative change of the chosen statistic between the two
/// resamples `rc` and `rb`.
pub open spec fn rel_of_pair(v: i64, statistic: RelStatistic, rc: Seq<i64>, rb: Seq<i64>) -> bool {
    match statistic {
        RelStatistic::Mean => v == rel_fp_spec(
            crate::sample::mean_frac(rc),
            crate::sample::mean_frac(rb),
        ),
        RelStatistic::Median => exists|tc: Seq<i64>, tb: Seq<i64>|
            #![trigger crate::sample::is_sort_of(rc, tc), crate::sample::is_sort_of(rb, tb)]
            crate::sample::is_sort_of(rc, tc) && crate::sample::is_sort_of(rb, tb) && v
                == rel_fp_spec(crate::sample::median_frac(tc), crate::sample::median_frac(tb)),
    }
}

/// `v` is the relative change of the statistic between one resample of the
/// current sample and one independent resample of the baseline sample.
pub open spec fn rel_value_of(v: i64, statistic: RelStatistic, cur: Seq<i64>, base: Seq<i64>) -> bool {
    exists|rc: Seq<i64>, rb: Seq<i64>|
        #![trigger crate::sample::is_resample_of(rc, cur), crate::sample::is_resample_of(rb, base)]
        crate::sample::is_resample_of(rc, cur) && crate::sample::is_resample_of(rb, base)
            && rel_of_pair(v, statistic, rc, rb)
}

/// Every value of `vs` is such a relative change.
pub open spec fn all_rel_values(
    vs: Seq<i64>,
    statistic: RelStatistic,
    cur: Seq<i64>,
    base: Seq<i64>,
) -> bool {
    forall|k: int| 0 <= k < vs.len() ==> rel_value_of(#[trigger] vs[k], statistic, cur, base)
}

/// Appending one more relative change keeps the per-value guarantee.
proof fn lemma_all_rel_values_push(
    statistic: RelStatistic,
    cur: Seq<i64>,
    base: Seq<i64>,
    vs: Seq<i64>,
    v: i64,
)
    requires
        all_rel_values(vs, statistic, cur, base),
        rel_value_of(v, statistic, cur, base),
    ensures
        all_rel_values(vs.push(v), statistic, cur, base),
{
    assert forall|k: int| 0 <= k < vs.push(v).len() implies rel_value_of(
        #[trigger] vs.push(v)[k],
        statistic,
        cur,
        base,
    ) by {
        if k < vs.len() {
            assert(vs.push(v)[k] == vs[k]);
        } else {
            assert(vs.push(v)[k] == v);
        }
    }
}

/// Per-value facts survive the sorting a `Distribution` performs.
pub proof fn lemma_rel_values_permuted(
    statistic: RelStatistic,
    cur: Seq<i64>,
    base: Seq<i64>,
    orig: Seq<i64>,
    perm: Seq<i64>,
)
    requires
        perm.to_multiset() == orig.to_multiset(),
        perm.len() == orig.len(),
        all_rel_values(orig, statistic, cur, base),
    ensures
        all_rel_values(perm, statistic, cur, base),
{
    crate::sort::lemma_permutation_preserves_pred(
        orig,
        perm,
        |v: i64| rel_value_of(v, statistic, cur, base),
    );
}

/// Bootstraps the relative change of a statistic: draws independent
/// resamples of the current and the baseline sample, and evaluates
/// `(stat(current resample) - stat(baseline resample)) / stat(baseline
/// resample)` on each pair. Returns one value (scale `REL_SCALE`,
/// saturated at `DIST_CAP`) per resample pair.
pub fn bootstrap_rel(
    current: &Sample,
    baseline: &Sample,
    statistic: RelStatistic,
    nresamples: usize,
    resampler: &mut crate::resample::Resampler,
) -> (r: Vec<i64>)
    requires
        current.wf(),
        baseline.wf(),
        nresamples <= crate::MAX_RESAMPLES,
    ensures
        r@.len() == nresamples,
        crate::sample::bounded(r@, DIST_CAP as int),
        all_rel_values(r@, statistic, current@, baseline@),
{
    let mut out: Vec<i64> = Vec::new();
    for k in 0..nresamples
        invariant
            current.wf(),
            baseline.wf(),
            out@.len() == k,
            crate::sample::bounded(out@, DIST_CAP as int),
            all_rel_values(out@, statistic, current@, baseline@),
    {
        let ra = resampler.resample(current.values());
        let rb = resampler.resample(baseline.values());
        proof {
            crate::resample::lemma_resample_bounded(current@, ra@, MAX_TIME as int);
            crate::resample::lemma_resample_bounded(baseline@, rb@, MAX_TIME as int);
            assert(crate::sample::valid_values(ra@));
            assert(crate::sample::valid_values(rb@));
        }
        let fa = Sample::from_valid(ra);
        let fb = Sample::from_valid(rb);
        let value: i64 = match statistic {
            RelStatistic::Mean => {
                proof {
                    lemma_seq_sum_bound(fa@, MAX_TIME as int);
                    lemma_seq_sum_bound(fb@, MAX_TIME as int);
                    assert(fa@.len() * MAX_TIME <= DIST_CAP && fb@.len() * MAX_TIME <= DIST_CAP)
                        by (nonlinear_arith)
                        requires
                            fa@.len() <= 1024,
                            fb@.len() <= 1024,
                    ;
                }
                let ma = fa.mean();
                let mb = fb.mean();
                let v = rel_change(&ma, &mb);
                proof {
                    assert(ma == crate::sample::mean_frac(fa@));
                    assert(mb == crate::sample::mean_frac(fb@));
                    assert(rel_of_pair(v, statistic, fa@, fb@));
                }
                v
            },
            RelStatistic::Median => {
                let pa = fa.percentiles();
                let pb = fb.percentiles();
                let ma = pa.median();
                let mb = pb.median();
                let v = rel_change(&ma, &mb);
                proof {
                    assert(ma == crate::sample::median_frac(pa@));
                    assert(mb == crate::sample::median_frac(pb@));
                    assert(crate::sample::is_sort_of(fa@, pa@) && crate::sample::is_sort_of(
                        fb@,
                        pb@,
                    ));
                    assert(rel_of_pair(v, statistic, fa@, fb@));
                }
                v
            },
        };
        proof {
            assert(crate::sample::is_resample_of(fa@, current@) && crate::sample::is_resample_of(
                fb@,
                baseline@,
            ));
            assert(rel_value_of(value, statistic, current@, baseline@));
            lemma_all_rel_values_push(statistic, current@, baseline@, out@, value);
        }
        out.push(value);
        proof {
            assert(all_rel_values(out@, statistic, current@, baseline@));
        }
    }
    out
}

/// Everything a comparison against a stored baseline yields.
#[derive(Debug)]
pub struct ComparisonData {
    /// The Welch t statistic of current against baseline (scale `T_SCALE`).
    pub t_value: i64,
    /// Its bootstrapped null distribution.
    pub t_distribution: Distribution,
    /// Two-tailed p-value of `t_value` against the null distribution.
    pub p_value: Frac,
    /// Bootstrapped relative change of the mean.
    pub relative_mean: Estimate,
    /// Bootstrapped relative change of the median.
    pub relative_median: Estimate,
    /// The bootstrap distribution behind `relative_mean`.
    pub relative_mean_distribution: Distribution,
    /// The bootstrap distribution behind `relative_median`.
    pub relative_median_distribution: Distribution,
    /// The baseline sample the comparison ran against. (Its estimates live
    /// with the persistence layer that loaded them, not here.)
    pub base_avg_times: Sample,
    /// `relative_mean`'s interval against the noise threshold.
    pub mean_outcome: ComparisonResult,
    /// `relative_median`'s interval against the noise threshold.
    pub median_outcome: ComparisonResult,
    /// True exactly when the t-test rejects the null and every tracked
    /// relative change classifies as regressed.
    pub regressed: bool,
    /// The configured significance level.
    pub significance_level: Frac,
    /// The configured noise threshold.
    pub noise_threshold: Frac,
}

/// Compares the current sample against a stored baseline: t-test with a
/// mixed-bootstrap null distribution, plus bootstrapped relative-change
/// estimates of mean and median classified against the noise threshold.
///
/// The run is judged regressed exactly when the p-value is below the
/// significance level and both relative changes classify as regressed.
///
/// Fails with `InvalidInput` when either sample has fewer than two points,
/// the pooled sample exceeds `MAX_LEN`, or `nresamples` exceeds
/// `MAX_RESAMPLES`; with `InsufficientResamples` when the interval ranks
/// do not fit in `nresamples` values. A zero baseline statistic does not
/// fail: its relative change saturates at `DIST_CAP`.
pub fn compare(
    current: &Sample,
    baseline: &Sample,
    config: &crate::Config,
    resampler: &mut crate::resample::Resampler,
) -> (r: Result<ComparisonData, crate::Error>)
    requires
        current.wf(),
        baseline.wf(),
        config.wf(),
    ensures
        r is Ok <==> (current@.len() >= 2 && baseline@.len() >= 2 && current@.len()
            + baseline@.len() <= crate::MAX_LEN && config.nresamples <= crate::MAX_RESAMPLES
            && crate::dist::ranks_ok(config.nresamples as int, config.confidence_level)),
        match r {
            Ok(c) => {
                &&& c.t_value == t_fp_spec(current@, baseline@)
                &&& c.t_distribution@.len() == config.nresamples
                &&& c.t_distribution.spec_den() == T_SCALE
                &&& c.p_value.num == count_abs_geq(c.t_distribution@, c.t_value as int)
                &&& c.p_value.den == config.nresamples
                &&& c.relative_mean.point_estimate == (Frac {
                    num: rel_fp_spec(
                        Frac {
                            num: seq_sum(current@) as i64,
                            den: current@.len() as i64,
                        },
                        Frac { num: seq_sum(baseline@) as i64, den: baseline@.len() as i64 },
                    ) as i64,
                    den: REL_SCALE,
                })
                &&& exists|tc: Seq<i64>, tb: Seq<i64>|
                    crate::sample::is_sort_of(current@, tc) && crate::sample::is_sort_of(
                        baseline@,
                        tb,
                    ) && c.relative_median.point_estimate == (Frac {
                        num: rel_fp_spec(
                            Frac { num: crate::sample::quartile_num(tc, 2) as i64, den: 4 },
                            Frac { num: crate::sample::quartile_num(tb, 2) as i64, den: 4 },
                        ) as i64,
                        den: REL_SCALE,
                    })
                &&& c.relative_mean.confidence_interval.confidence_level == config.confidence_level
                &&& c.relative_median.confidence_interval.confidence_level
                    == config.confidence_level
                &&& c.mean_outcome == threshold_class(
                    c.relative_mean.confidence_interval.lower_bound,
                    c.relative_mean.confidence_interval.upper_bound,
                    config.noise_threshold,
                )
                &&& c.median_outcome == threshold_class(
                    c.relative_median.confidence_interval.lower_bound,
                    c.relative_median.confidence_interval.upper_bound,
                    config.noise_threshold,
                )
                &&& c.regressed == (c.p_value.spec_lt(config.significance_level) && c.mean_outcome
                    == ComparisonResult::Regressed && c.median_outcome
                    == ComparisonResult::Regressed)
                &&& crate::mixed::all_t_values(c.t_distribution@, current@, baseline@)
                &&& c.relative_mean_distribution@.len() == config.nresamples
                &&& c.relative_mean_distribution.spec_den() == REL_SCALE
                &&& c.relative_mean_distribution.wf()
                &&& all_rel_values(
                    c.relative_mean_distribution@,
                    RelStatistic::Mean,
                    current@,
                    baseline@,
                )
                &&& crate::estimate::built_from(
                    c.relative_mean,
                    c.relative_mean_distribution@,
                    REL_SCALE as int,
                    config.confidence_level,
                )
                &&& c.relative_median_distribution@.len() == config.nresamples
                &&& c.relative_median_distribution.spec_den() == REL_SCALE
                &&& c.relative_median_distribution.wf()
                &&& all_rel_values(
                    c.relative_median_distribution@,
                    RelStatistic::Median,
                    current@,
                    baseline@,
                )
                &&& crate::estimate::built_from(
                    c.relative_median,
                    c.relative_median_distribution@,
                    REL_SCALE as int,
                    config.confidence_level,
                )
                &&& c.base_avg_times@ == baseline@
                &&& c.base_avg_times.wf()
                &&& c.significance_level == config.significance_level
                &&& c.noise_threshold == config.noise_threshold
                &&& c.p_value.wf()
                &&& 0 <= c.p_value.num <= c.p_value.den
                &&& c.relative_mean.wf()
                &&& c.relative_median.wf()
                &&& c.t_distribution.wf()
            },
            Err(e) => {
                if current@.len() < 2 || baseline@.len() < 2 || current@.len() + baseline@.len()
                    > crate::MAX_LEN || config.nresamples > crate::MAX_RESAMPLES {
                    e == crate::Error::InvalidInput
                } else {
                    e == crate::Error::InsufficientResamples && !crate::dist::ranks_ok(
                        config.nresamples as int,
                        config.confidence_level,
                    )
                }
            },
        },
{
    let na = current.len();
    let nb = baseline.len();
    if na < 2 || nb < 2 || na > MAX_LEN - nb || config.nresamples > MAX_RESAMPLES {
        return Err(crate::Error::InvalidInput);
    }
    let t_vals = crate::mixed::bootstrap(current, baseline, config.nresamples, resampler);
    let ghost raw_t = t_vals@;
    let t_distribution = Distribution::from_valid(t_vals, T_SCALE);
    let rel_mean_vals = bootstrap_rel(
        current,
        baseline,
        RelStatistic::Mean,
        config.nresamples,
        resampler,
    );
    let ghost raw_rm = rel_mean_vals@;
    let rel_mean_dist = Distribution::from_valid(rel_mean_vals, REL_SCALE);
    let rel_median_vals = bootstrap_rel(
        current,
        baseline,
        RelStatistic::Median,
        config.nresamples,
        resampler,
    );
    let ghost raw_rd = rel_median_vals@;
    let rel_median_dist = Distribution::from_valid(rel_median_vals, REL_SCALE);
    proof {
        crate::mixed::lemma_t_values_permuted(current@, baseline@, raw_t, t_distribution@);
        lemma_rel_values_permuted(
            RelStatistic::Mean,
            current@,
            baseline@,
            raw_rm,
            rel_mean_dist@,
        );
        lemma_rel_values_permuted(
            RelStatistic::Median,
            current@,
            baseline@,
            raw_rd,
            rel_median_dist@,
        );
    }
    let base_copy = crate::bootstrap::clone_values(baseline.values());
    let base_avg_times = Sample::from_valid(base_copy);
    let t_value = t_statistic(current, baseline);
    proof {
        lemma_seq_sum_bound(current@, MAX_TIME as int);
        lemma_seq_sum_bound(baseline@, MAX_TIME as int);
        assert(current@.len() * MAX_TIME <= DIST_CAP && baseline@.len() * MAX_TIME <= DIST_CAP)
            by (nonlinear_arith)
            requires
                current@.len() <= 1024,
                baseline@.len() <= 1024,
        ;
    }
    let mean_cur = current.mean();
    let mean_base = baseline.mean();
    let rel_mean_point = rel_change(&mean_cur, &mean_base);
    let pct_cur = current.percentiles();
    let pct_base = baseline.percentiles();
    let med_cur = pct_cur.median();
    let med_base = pct_base.median();
    let rel_median_point = rel_change(&med_cur, &med_base);
    let relative_mean = match Estimate::new(
        Frac { num: rel_mean_point, den: REL_SCALE },
        &rel_mean_dist,
        config.confidence_level,
    ) {
        Ok(e) => e,
        Err(er) => {
            return Err(er);
        },
    };
    let relative_median = match Estimate::new(
        Frac { num: rel_median_point, den: REL_SCALE },
        &rel_median_dist,
        config.confidence_level,
    ) {
        Ok(e) => e,
        Err(er) => {
            return Err(er);
        },
    };
    let p = p_value(t_value, &t_distribution);
    let mean_outcome = compare_to_threshold(&relative_mean, &config.noise_threshold);
    let median_outcome = compare_to_threshold(&relative_median, &config.noise_threshold);
    let significant = p.lt(&config.significance_level);
    let regressed = significant && matches!(mean_outcome, ComparisonResult::Regressed) && matches!(
        median_outcome,
        ComparisonResult::Regressed,
    );
    Ok(
        ComparisonData {
            t_value,
            t_distribution,
            p_value: p,
            relative_mean,
            relative_median,
            relative_mean_distribution: rel_mean_dist,
            relative_median_distribution: rel_median_dist,
            base_avg_times,
            mean_outcome,
            median_outcome,
            regressed,
            significance_level: config.significance_level,
            noise_threshold: config.noise_threshold,
        },
    )
}

/// Bounds of one Welch variance term: nonnegative, and small enough that
/// scaling by `SE2_SCALE` stays well inside 128 bits.
proof fn lemma_welch_term(n: int, v: int)
    by (nonlinear_arith)
    requires
        2 <= n <= 1024,
        0 <= v,
        v <= n * ((n * MAX_TIME + n * MAX_TIME) * (n * MAX_TIME + n * MAX_TIME)),
    ensures
        8 <= n * n * (n - 1) * n,
        n * n * (n - 1) * n <= 0x100_0000_0000,
        0 <= v * SE2_SCALE <= 0x100_0000_0000_0000_0000_0000_0000_0000,
        0 <= v * SE2_SCALE / (n * n * (n - 1) * n),
        v * SE2_SCALE / (n * n * (n - 1) * n) <= 0x4_0000_0000_0000_0000_0000_00,
{
}

} // verus!
