//! The bootstrap engine: resampling a sample and accumulating one
//! distribution per tracked statistic.

use vstd::prelude::*;

use crate::dist::{ranks_ok, valid_level, Distribution};
use crate::estimate::{Distributions, Estimate, Estimates};
use crate::frac::Frac;
use crate::isqrt::is_sqrt_floor;
use crate::resample::{lemma_resample_bounded, Resampler};
use crate::sample::{
    bounded, is_mad_of, is_resample_of, is_sort_of, lemma_seq_sum_bound, quartile_num, seq_sq_dev,
    seq_sum, valid_values, Sample,
};
use crate::{Error, DIST_CAP, MAX_RESAMPLES, MAX_TIME, STD_SCALE};

verus! {

/// The four numerators at index `k` of the raw distributions are the four
/// absolute statistics of the one resample `rs`: its sum (the mean at
/// denominator `len`), its standard deviation at scale `STD_SCALE`, its
/// median at denominator 4 and its median absolute deviation at
/// denominator 16.
pub open spec fn abs_stats_of(
    rs: Seq<i64>,
    mean_v: i64,
    std_v: i64,
    median_v: i64,
    mad_v: i64,
) -> bool {
    &&& mean_v == seq_sum(rs)
    &&& is_sqrt_floor(
        seq_sq_dev(rs, rs.len() as int, seq_sum(rs)) * STD_SCALE * STD_SCALE / (rs.len() * rs.len()
            * (rs.len() - 1)),
        std_v as int,
    )
    &&& exists|t: Seq<i64>|
        is_sort_of(rs, t) && median_v == quartile_num(t, 2) && is_mad_of(
            rs,
            quartile_num(t, 2),
            Frac { num: mad_v, den: 16 },
        )
}

/// The first `n` entries of the four raw distributions are, row by row,
/// the four absolute statistics of one resample each.
pub open spec fn abs_rows_of(
    s: Seq<i64>,
    mean_vs: Seq<i64>,
    std_vs: Seq<i64>,
    median_vs: Seq<i64>,
    mad_vs: Seq<i64>,
    n: int,
) -> bool {
    forall|k: int|
        #![trigger mean_vs[k]]
        0 <= k < n ==> exists|rs: Seq<i64>|
            #![trigger is_resample_of(rs, s)]
            is_resample_of(rs, s) && abs_stats_of(rs, mean_vs[k], std_vs[k], median_vs[k], mad_vs[k])
}

/// `v` is the sum (mean numerator) of some resample of `s`.
pub open spec fn mean_value_of(v: i64, s: Seq<i64>) -> bool {
    exists|rs: Seq<i64>| is_resample_of(rs, s) && v == seq_sum(rs)
}

/// `v` is the scaled standard deviation of some resample of `s`.
pub open spec fn std_value_of(v: i64, s: Seq<i64>) -> bool {
    exists|rs: Seq<i64>|
        is_resample_of(rs, s) && is_sqrt_floor(
            seq_sq_dev(rs, rs.len() as int, seq_sum(rs)) * STD_SCALE * STD_SCALE / (rs.len()
                * rs.len() * (rs.len() - 1)),
            v as int,
        )
}

/// `v` is the median numerator (denominator 4) of some resample of `s`.
pub open spec fn median_value_of(v: i64, s: Seq<i64>) -> bool {
    exists|rs: Seq<i64>, t: Seq<i64>|
        is_resample_of(rs, s) && is_sort_of(rs, t) && v == quartile_num(t, 2)
}

/// `v` is the median-absolute-deviation numerator (denominator 16) of
/// some resample of `s`.
pub open spec fn mad_value_of(v: i64, s: Seq<i64>) -> bool {
    exists|rs: Seq<i64>, t: Seq<i64>|
        is_resample_of(rs, s) && is_sort_of(rs, t) && is_mad_of(
            rs,
            quartile_num(t, 2),
            Frac { num: v, den: 16 },
        )
}

/// Every value of `vs` is the mean numerator of some resample of `s`.
pub open spec fn all_mean_values(vs: Seq<i64>, s: Seq<i64>) -> bool {
    forall|k: int| 0 <= k < vs.len() ==> mean_value_of(#[trigger] vs[k], s)
}

/// Every value of `vs` is the scaled standard deviation of some resample.
pub open spec fn all_std_values(vs: Seq<i64>, s: Seq<i64>) -> bool {
    forall|k: int| 0 <= k < vs.len() ==> std_value_of(#[trigger] vs[k], s)
}

/// Every value of `vs` is the median numerator of some resample.
pub open spec fn all_median_values(vs: Seq<i64>, s: Seq<i64>) -> bool {
    forall|k: int| 0 <= k < vs.len() ==> median_value_of(#[trigger] vs[k], s)
}

/// Every value of `vs` is the MAD numerator of some resample.
pub open spec fn all_mad_values(vs: Seq<i64>, s: Seq<i64>) -> bool {
    forall|k: int| 0 <= k < vs.len() ==> mad_value_of(#[trigger] vs[k], s)
}

/// Unpacks the engine's per-row guarantee into one per-value fact per
/// distribution.
pub proof fn lemma_rows_to_values(
    s: Seq<i64>,
    a: Seq<i64>,
    b: Seq<i64>,
    c: Seq<i64>,
    d: Seq<i64>,
    n: int,
)
    requires
        abs_rows_of(s, a, b, c, d, n),
        a.len() == n,
        b.len() == n,
        c.len() == n,
        d.len() == n,
    ensures
        all_mean_values(a, s),
        all_std_values(b, s),
        all_median_values(c, s),
        all_mad_values(d, s),
{
    assert forall|k: int| 0 <= k < n implies mean_value_of(#[trigger] a[k], s) by {
        let rs = choose|rs: Seq<i64>|
            #![trigger is_resample_of(rs, s)]
            is_resample_of(rs, s) && abs_stats_of(rs, a[k], b[k], c[k], d[k]);
        assert(mean_value_of(a[k], s));
    }
    assert forall|k: int| 0 <= k < n implies std_value_of(#[trigger] b[k], s) by {
        assert(a[k] == a[k]);
        let rs = choose|rs: Seq<i64>|
            #![trigger is_resample_of(rs, s)]
            is_resample_of(rs, s) && abs_stats_of(rs, a[k], b[k], c[k], d[k]);
        assert(std_value_of(b[k], s));
    }
    assert forall|k: int| 0 <= k < n implies median_value_of(#[trigger] c[k], s) by {
        assert(a[k] == a[k]);
        let rs = choose|rs: Seq<i64>|
            #![trigger is_resample_of(rs, s)]
            is_resample_of(rs, s) && abs_stats_of(rs, a[k], b[k], c[k], d[k]);
        let t = choose|t: Seq<i64>|
            is_sort_of(rs, t) && c[k] == quartile_num(t, 2) && is_mad_of(
                rs,
                quartile_num(t, 2),
                Frac { num: d[k], den: 16 },
            );
        assert(median_value_of(c[k], s));
    }
    assert forall|k: int| 0 <= k < n implies mad_value_of(#[trigger] d[k], s) by {
        assert(a[k] == a[k]);
        let rs = choose|rs: Seq<i64>|
            #![trigger is_resample_of(rs, s)]
            is_resample_of(rs, s) && abs_stats_of(rs, a[k], b[k], c[k], d[k]);
        let t = choose|t: Seq<i64>|
            is_sort_of(rs, t) && c[k] == quartile_num(t, 2) && is_mad_of(
                rs,
                quartile_num(t, 2),
                Frac { num: d[k], den: 16 },
            );
        assert(mad_value_of(d[k], s));
    }
}

/// Per-value facts survive the sorting a `Distribution` performs.
pub proof fn lemma_mean_values_permuted(s: Seq<i64>, orig: Seq<i64>, perm: Seq<i64>)
    requires
        perm.to_multiset() == orig.to_multiset(),
        perm.len() == orig.len(),
        all_mean_values(orig, s),
    ensures
        all_mean_values(perm, s),
{
    crate::sort::lemma_permutation_preserves_pred(orig, perm, |v: i64| mean_value_of(v, s));
}

/// Per-value facts survive the sorting a `Distribution` performs.
pub proof fn lemma_std_values_permuted(s: Seq<i64>, orig: Seq<i64>, perm: Seq<i64>)
    requires
        perm.to_multiset() == orig.to_multiset(),
        perm.len() == orig.len(),
        all_std_values(orig, s),
    ensures
        all_std_values(perm, s),
{
    crate::sort::lemma_permutation_preserves_pred(orig, perm, |v: i64| std_value_of(v, s));
}

/// Per-value facts survive the sorting a `Distribution` performs.
pub proof fn lemma_median_values_permuted(s: Seq<i64>, orig: Seq<i64>, perm: Seq<i64>)
    requires
        perm.to_multiset() == orig.to_multiset(),
        perm.len() == orig.len(),
        all_median_values(orig, s),
    ensures
        all_median_values(perm, s),
{
    crate::sort::lemma_permutation_preserves_pred(orig, perm, |v: i64| median_value_of(v, s));
}

/// Per-value facts survive the sorting a `Distribution` performs.
pub proof fn lemma_mad_values_permuted(s: Seq<i64>, orig: Seq<i64>, perm: Seq<i64>)
    requires
        perm.to_multiset() == orig.to_multiset(),
        perm.len() == orig.len(),
        all_mad_values(orig, s),
    ensures
        all_mad_values(perm, s),
{
    crate::sort::lemma_permutation_preserves_pred(orig, perm, |v: i64| mad_value_of(v, s));
}

/// Applies the four absolute statistics (mean, standard deviation, median,
/// median absolute deviation) to `nresamples` independent resamples of the
/// sample. Returns the four raw distributions as numerators at
/// denominators `len`, `STD_SCALE`, 4 and 16 respectively; the values at
/// index `k` of the four vectors are the statistics of the `k`-th
/// resample.
pub fn bootstrap(sample: &Sample, nresamples: usize, resampler: &mut Resampler) -> (r: (
    Vec<i64>,
    Vec<i64>,
    Vec<i64>,
    Vec<i64>,
))
    requires
        sample.wf(),
        sample@.len() >= 2,
        nresamples <= MAX_RESAMPLES,
    ensures
        r.0@.len() == nresamples,
        r.1@.len() == nresamples,
        r.2@.len() == nresamples,
        r.3@.len() == nresamples,
        bounded(r.0@, DIST_CAP as int),
        bounded(r.1@, DIST_CAP as int),
        bounded(r.2@, DIST_CAP as int),
        bounded(r.3@, DIST_CAP as int),
        abs_rows_of(sample@, r.0@, r.1@, r.2@, r.3@, nresamples as int),
{
    let mut mean_vals: Vec<i64> = Vec::new();
    let mut std_vals: Vec<i64> = Vec::new();
    let mut median_vals: Vec<i64> = Vec::new();
    let mut mad_vals: Vec<i64> = Vec::new();
    let mut k: usize = 0;
    while k < nresamples
        invariant
            k <= nresamples,
            nresamples <= MAX_RESAMPLES,
            sample.wf(),
            sample@.len() >= 2,
            mean_vals@.len() == k,
            std_vals@.len() == k,
            median_vals@.len() == k,
            mad_vals@.len() == k,
            bounded(mean_vals@, DIST_CAP as int),
            bounded(std_vals@, DIST_CAP as int),
            bounded(median_vals@, DIST_CAP as int),
            bounded(mad_vals@, DIST_CAP as int),
            abs_rows_of(sample@, mean_vals@, std_vals@, median_vals@, mad_vals@, k as int),
        decreases nresamples - k,
    {
        let picked = resampler.resample(sample.values());
        proof {
            lemma_resample_bounded(sample@, picked@, MAX_TIME as int);
            assert(valid_values(picked@));
        }
        let rs = Sample::from_valid(picked);
        proof {
            lemma_seq_sum_bound(rs@, MAX_TIME as int);
            assert(rs@.len() * MAX_TIME <= DIST_CAP) by (nonlinear_arith)
                requires
                    rs@.len() <= 1024,
            ;
        }
        let mean = rs.mean();
        let std_dev = rs.std_dev();
        let pct = rs.percentiles();
        let median = pct.median();
        let mad = rs.median_abs_dev();
        proof {
            // The median and MAD postconditions each name a sorted
            // arrangement of the resample; those arrangements coincide.
            let t0 = choose|t: Seq<i64>|
                is_sort_of(rs@, t) && is_mad_of(rs@, quartile_num(t, 2), mad);
            crate::sort::lemma_sort_of_equal(t0, pct@);
            assert(is_sort_of(rs@, pct@) && median.num == quartile_num(pct@, 2) && is_mad_of(
                rs@,
                quartile_num(pct@, 2),
                Frac { num: mad.num, den: 16 },
            ));
            assert(abs_stats_of(rs@, mean.num, std_dev.num, median.num, mad.num));
            assert(is_resample_of(rs@, sample@));
        }
        let ghost om = mean_vals@;
        let ghost os = std_vals@;
        let ghost od = median_vals@;
        let ghost oa = mad_vals@;
        mean_vals.push(mean.num);
        std_vals.push(std_dev.num);
        median_vals.push(median.num);
        mad_vals.push(mad.num);
        proof {
            assert forall|m: int|
                #![trigger mean_vals@[m], std_vals@[m], median_vals@[m], mad_vals@[m]]
                0 <= m < k + 1 implies exists|rs2: Seq<i64>|
                #![trigger is_resample_of(rs2, sample@)]
                is_resample_of(rs2, sample@) && abs_stats_of(
                    rs2,
                    mean_vals@[m],
                    std_vals@[m],
                    median_vals@[m],
                    mad_vals@[m],
                ) by {
                assert(abs_rows_of(sample@, om, os, od, oa, k as int));
                if m < k {
                    assert(mean_vals@[m] == om[m] && std_vals@[m] == os[m] && median_vals@[m]
                        == od[m] && mad_vals@[m] == oa[m]);
                    assert(exists|rs2: Seq<i64>|
                        #![trigger is_resample_of(rs2, sample@)]
                        is_resample_of(rs2, sample@) && abs_stats_of(
                            rs2,
                            om[m],
                            os[m],
                            od[m],
                            oa[m],
                        ));
                    let rs2 = choose|rs2: Seq<i64>|
                        #![trigger is_resample_of(rs2, sample@)]
                        is_resample_of(rs2, sample@) && abs_stats_of(
                            rs2,
                            om[m],
                            os[m],
                            od[m],
                            oa[m],
                        );
                    assert(is_resample_of(rs2, sample@) && abs_stats_of(
                        rs2,
                        mean_vals@[m],
                        std_vals@[m],
                        median_vals@[m],
                        mad_vals@[m],
                    ));
                } else {
                    assert(mean_vals@[m] == mean.num && std_vals@[m] == std_dev.num
                        && median_vals@[m] == median.num && mad_vals@[m] == mad.num);
                    assert(is_resample_of(rs@, sample@) && abs_stats_of(
                        rs@,
                        mean_vals@[m],
                        std_vals@[m],
                        median_vals@[m],
                        mad_vals@[m],
                    ));
                }
            }
            assert(abs_rows_of(
                sample@,
                mean_vals@,
                std_vals@,
                median_vals@,
                mad_vals@,
                k + 1,
            ));
        }
        k = k + 1;
    }
    let ghost gm = mean_vals@;
    let ghost gs = std_vals@;
    let ghost gd = median_vals@;
    let ghost ga = mad_vals@;
    proof {
        assert(abs_rows_of(sample@, gm, gs, gd, ga, nresamples as int));
    }
    let r = (mean_vals, std_vals, median_vals, mad_vals);
    proof {
        assert(r.0@ == gm && r.1@ == gs && r.2@ == gd && r.3@ == ga);
        assert(abs_rows_of(sample@, r.0@, r.1@, r.2@, r.3@, nresamples as int));
    }
    r
}

/// Computes the point estimates of mean, median, standard deviation and
/// median absolute deviation, bootstraps their distributions, and packages
/// point, interval and standard error per statistic. The slope entry is
/// filled with the mean (callers doing a regression replace it).
///
/// Fails with `DegenerateInput` when the sample has fewer than two points
/// (the variance-based statistics need two), `InvalidInput` when
/// `nresamples` exceeds `MAX_RESAMPLES`, and `InsufficientResamples` when
/// the interval ranks at this level do not fit in `nresamples` values.
pub fn compute_point_estimates(
    sample: &Sample,
    confidence_level: Frac,
    nresamples: usize,
    resampler: &mut Resampler,
) -> (r: Result<(Distributions, Estimates), Error>)
    requires
        sample.wf(),
        valid_level(confidence_level),
    ensures
        r is Ok <==> (sample@.len() >= 2 && nresamples <= MAX_RESAMPLES && ranks_ok(
            nresamples as int,
            confidence_level,
        )),
        match r {
            Ok((d, e)) => {
                &&& d.wf()
                &&& e.wf()
                &&& d.mean@.len() == nresamples
                &&& d.std_dev@.len() == nresamples
                &&& d.median@.len() == nresamples
                &&& d.median_abs_dev@.len() == nresamples
                &&& d.slope@.len() == nresamples
                &&& d.mean.spec_den() == sample@.len()
                &&& d.std_dev.spec_den() == STD_SCALE
                &&& d.median.spec_den() == 4
                &&& d.median_abs_dev.spec_den() == 16
                &&& d.slope@ == d.mean@
                &&& d.slope.spec_den() == d.mean.spec_den()
                &&& e.mean.point_estimate == (Frac {
                    num: crate::sample::seq_sum(sample@) as i64,
                    den: sample@.len() as i64,
                })
                &&& e.std_dev.point_estimate.den == STD_SCALE
                &&& crate::isqrt::is_sqrt_floor(
                    crate::sample::seq_sq_dev(
                        sample@,
                        sample@.len() as int,
                        crate::sample::seq_sum(sample@),
                    ) * STD_SCALE * STD_SCALE / (sample@.len() * sample@.len() * (sample@.len()
                        - 1)),
                    e.std_dev.point_estimate.num as int,
                )
                &&& e.median.point_estimate.den == 4
                &&& exists|t: Seq<i64>|
                    crate::sample::is_sort_of(sample@, t) && e.median.point_estimate.num
                        == crate::sample::quartile_num(t, 2) && crate::sample::is_mad_of(
                        sample@,
                        crate::sample::quartile_num(t, 2),
                        e.median_abs_dev.point_estimate,
                    )
                &&& e.median_abs_dev.point_estimate.den == 16
                &&& e.slope.point_estimate == e.mean.point_estimate
                &&& all_mean_values(d.mean@, sample@)
                &&& all_std_values(d.std_dev@, sample@)
                &&& all_median_values(d.median@, sample@)
                &&& all_mad_values(d.median_abs_dev@, sample@)
                &&& all_mean_values(d.slope@, sample@)
                &&& crate::estimate::built_from(e.mean, d.mean@, d.mean.spec_den(), confidence_level)
                &&& crate::estimate::built_from(
                    e.std_dev,
                    d.std_dev@,
                    d.std_dev.spec_den(),
                    confidence_level,
                )
                &&& crate::estimate::built_from(
                    e.median,
                    d.median@,
                    d.median.spec_den(),
                    confidence_level,
                )
                &&& crate::estimate::built_from(
                    e.median_abs_dev,
                    d.median_abs_dev@,
                    d.median_abs_dev.spec_den(),
                    confidence_level,
                )
                &&& crate::estimate::built_from(
                    e.slope,
                    d.slope@,
                    d.slope.spec_den(),
                    confidence_level,
                )
            },
            Err(er) => {
                if sample@.len() < 2 {
                    er == Error::DegenerateInput
                } else if nresamples > MAX_RESAMPLES {
                    er == Error::InvalidInput
                } else {
                    er == Error::InsufficientResamples && !ranks_ok(
                        nresamples as int,
                        confidence_level,
                    )
                }
            },
        },
{
    if sample.len() < 2 {
        return Err(Error::DegenerateInput);
    }
    if nresamples > MAX_RESAMPLES {
        return Err(Error::InvalidInput);
    }
    let (mean_vals, std_vals, median_vals, mad_vals) = bootstrap(sample, nresamples, resampler);
    let slope_vals = clone_values(&mean_vals);
    let n = sample.len();
    let ghost raw_m = mean_vals@;
    let ghost raw_s = std_vals@;
    let ghost raw_d = median_vals@;
    let ghost raw_a = mad_vals@;
    proof {
        lemma_rows_to_values(sample@, raw_m, raw_s, raw_d, raw_a, nresamples as int);
    }
    let dist_mean = Distribution::from_valid(mean_vals, n as i64);
    let dist_std = Distribution::from_valid(std_vals, STD_SCALE);
    let dist_median = Distribution::from_valid(median_vals, 4);
    let dist_mad = Distribution::from_valid(mad_vals, 16);
    let dist_slope = Distribution::from_valid(slope_vals, n as i64);
    proof {
        crate::sort::lemma_sort_of_equal(dist_mean@, dist_slope@);
        lemma_mean_values_permuted(sample@, raw_m, dist_mean@);
        lemma_std_values_permuted(sample@, raw_s, dist_std@);
        lemma_median_values_permuted(sample@, raw_d, dist_median@);
        lemma_mad_values_permuted(sample@, raw_a, dist_mad@);
        assert(all_mean_values(dist_slope@, sample@));
    }
    let mean = sample.mean();
    let std_dev = sample.std_dev();
    let pct = sample.percentiles();
    let median = pct.median();
    let mad = sample.median_abs_dev();
    let est_mean = match Estimate::new(mean, &dist_mean, confidence_level) {
        Ok(e) => e,
        Err(er) => {
            return Err(er);
        },
    };
    let est_std = match Estimate::new(std_dev, &dist_std, confidence_level) {
        Ok(e) => e,
        Err(er) => {
            return Err(er);
        },
    };
    let est_median = match Estimate::new(median, &dist_median, confidence_level) {
        Ok(e) => e,
        Err(er) => {
            return Err(er);
        },
    };
    let est_mad = match Estimate::new(mad, &dist_mad, confidence_level) {
        Ok(e) => e,
        Err(er) => {
            return Err(er);
        },
    };
    let est_slope = match Estimate::new(mean, &dist_slope, confidence_level) {
        Ok(e) => e,
        Err(er) => {
            return Err(er);
        },
    };
    proof {
        let t0 = choose|t: Seq<i64>|
            crate::sample::is_sort_of(sample@, t) && crate::sample::is_mad_of(
                sample@,
                crate::sample::quartile_num(t, 2),
                mad,
            );
        crate::sort::lemma_sort_of_equal(t0, pct@);
        assert(crate::sample::is_sort_of(sample@, pct@) && est_median.point_estimate.num
            == crate::sample::quartile_num(pct@, 2) && crate::sample::is_mad_of(
            sample@,
            crate::sample::quartile_num(pct@, 2),
            est_mad.point_estimate,
        ));
    }
    let distributions = Distributions {
        mean: dist_mean,
        median: dist_median,
        median_abs_dev: dist_mad,
        slope: dist_slope,
        std_dev: dist_std,
    };
    let estimates = Estimates {
        mean: est_mean,
        median: est_median,
        median_abs_dev: est_mad,
        slope: est_slope,
        std_dev: est_std,
    };
    Ok((distributions, estimates))
}

/// A plain copy of a vector of values.
pub(crate) fn clone_values(v: &Vec<i64>) -> (r: Vec<i64>)
    ensures
        r@ == v@,
{
    let mut r: Vec<i64> = Vec::new();
    for i in 0..v.len()
        invariant
            r@ =~= v@.subrange(0, i as int),
    {
        r.push(v[i]);
        proof {
            assert(r@ =~= v@.subrange(0, i as int + 1));
        }
    }
    proof {
        assert(r@ =~= v@);
    }
    r
}

} // verus!
