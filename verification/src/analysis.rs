//! The analysis pipeline run once per benchmark: average the raw
//! measurements, classify outliers, fit and bootstrap the regression,
//! bootstrap the absolute statistics, and compare against a baseline when
//! one is present.

use vstd::prelude::*;

use crate::bootstrap::compute_point_estimates;
use crate::compare::{compare, t_fp_spec, ComparisonData};
use crate::dist::{ranks_ok, Distribution};
use crate::estimate::{Distributions, Estimate, Estimates};
use crate::frac::{div_trunc, div_trunc_i128, Frac};
use crate::regress::{bootstrap_slope, fit_slope, seq_xx, seq_xy};
use crate::resample::Resampler;
use crate::sample::{valid_values, Sample};
use crate::tukey::{classify, LabeledSample};
use crate::{Config, Error, AVG_SCALE, MAX_ITERS, MAX_LEN, MAX_RESAMPLES, MAX_TIME, MAX_XY, SLOPE_SCALE};

verus! {

/// The average time per iteration of one measurement, in thousandths of a
/// tick, truncated toward zero.
pub open spec fn avg_of(iters: u64, time: i64) -> int {
    div_trunc(time * AVG_SCALE, iters as int)
}

/// The per-measurement average times.
pub open spec fn avg_seq(iters: Seq<u64>, times: Seq<i64>) -> Seq<i64> {
    Seq::new(iters.len(), |i: int| avg_of(iters[i], times[i]) as i64)
}

/// A raw measurement series the analysis accepts: paired sequences of
/// equal length, iteration counts in `[1, MAX_ITERS]`, elapsed times and
/// the derived average times within `MAX_TIME`.
pub open spec fn valid_measurements(iters: Seq<u64>, times: Seq<i64>) -> bool {
    &&& iters.len() == times.len()
    &&& 1 <= iters.len() <= MAX_LEN
    &&& forall|i: int| 0 <= i < iters.len() ==> 1 <= #[trigger] iters[i] <= MAX_ITERS
    &&& forall|i: int| 0 <= i < times.len() ==> -MAX_TIME <= #[trigger] times[i] <= MAX_TIME
    &&& forall|i: int|
        0 <= i < iters.len() ==> -MAX_XY <= #[trigger] crate::regress::pair_area(
            iters[i],
            times[i],
        ) <= MAX_XY
    &&& forall|i: int|
        0 <= i < iters.len() ==> -MAX_TIME <= #[trigger] avg_of(iters[i], times[i]) <= MAX_TIME
}

/// Computes the average time per iteration of each measurement.
///
/// Fails with `InvalidInput` exactly when the series is out of the
/// accepted domain.
pub fn average_times(iters: &Vec<u64>, times: &Vec<i64>) -> (r: Result<Vec<i64>, Error>)
    ensures
        match r {
            Ok(v) => {
                &&& valid_measurements(iters@, times@)
                &&& v@ == avg_seq(iters@, times@)
                &&& valid_values(v@)
            },
            Err(e) => e == Error::InvalidInput && !valid_measurements(iters@, times@),
        },
{
    if iters.len() != times.len() || iters.len() < 1 || iters.len() > MAX_LEN {
        return Err(Error::InvalidInput);
    }
    let mut avg: Vec<i64> = Vec::new();
    let n = iters.len();
    assert(avg@ =~= avg_seq(iters@, times@).subrange(0, 0));
    for i in 0..n
        invariant
            n == iters@.len(),
            iters@.len() == times@.len(),
            1 <= n <= MAX_LEN,
            avg@ =~= avg_seq(iters@, times@).subrange(0, i as int),
            forall|k: int| 0 <= k < i ==> 1 <= #[trigger] iters@[k] <= MAX_ITERS,
            forall|k: int| 0 <= k < i ==> -MAX_TIME <= #[trigger] times@[k] <= MAX_TIME,
            forall|k: int|
                0 <= k < i ==> -MAX_XY <= #[trigger] crate::regress::pair_area(
                    iters@[k],
                    times@[k],
                ) <= MAX_XY,
            forall|k: int|
                0 <= k < i ==> -MAX_TIME <= #[trigger] avg_of(iters@[k], times@[k]) <= MAX_TIME,
    {
        let it = iters[i];
        let t = times[i];
        if it < 1 || it > MAX_ITERS || t < -MAX_TIME || t > MAX_TIME {
            return Err(Error::InvalidInput);
        }
        proof {
            assert(-0x4000_0000_0000_0000 <= (iters@[i as int] as int) * (times@[i as int] as int)
                <= 0x4000_0000_0000_0000) by (nonlinear_arith)
                requires
                    0 <= iters@[i as int] <= MAX_ITERS,
                    -MAX_TIME <= times@[i as int] <= MAX_TIME,
            ;
        }
        let prod: i128 = (it as i128) * (t as i128);
        if prod < -MAX_XY as i128 || prod > MAX_XY as i128 {
            proof {
                assert(crate::regress::pair_area(iters@[i as int], times@[i as int])
                    == prod as int);
            }
            return Err(Error::InvalidInput);
        }
        proof {
            assert(AVG_SCALE == 1000);
            assert(-0x4_0000_0000_0000 <= (times@[i as int] as int) * 1000 <= 0x4_0000_0000_0000)
                by (nonlinear_arith)
                requires
                    -MAX_TIME <= times@[i as int] <= MAX_TIME,
            ;
        }
        let scaled: i128 = (t as i128) * (AVG_SCALE as i128);
        let a = div_trunc_i128(scaled, it as i128);
        if a < -MAX_TIME as i128 || a > MAX_TIME as i128 {
            proof {
                assert(avg_of(iters@[i as int], times@[i as int]) == a as int);
            }
            return Err(Error::InvalidInput);
        }
        avg.push(a as i64);
        proof {
            assert(avg@ =~= avg_seq(iters@, times@).subrange(0, i as int + 1));
        }
    }
    proof {
        assert(avg@ =~= avg_seq(iters@, times@));
    }
    Ok(avg)
}

/// How many iterations to measure so that a batch lasts about `want`
/// ticks, given that `iters` iterations took `took` ticks: the original
/// ratio `want * iters / took`, at least 1, saturated at `u64::MAX`.
pub open spec fn extrapolated_iters(iters: u64, took: u64, want: u64) -> int {
    let e = want * iters / (took as int);
    if e < 1 {
        1
    } else if e > u64::MAX {
        u64::MAX as int
    } else {
        e
    }
}

/// Scales a measured iteration count to the wanted measurement time.
pub fn extrapolate_iters(iters: u64, took: u64, want: u64) -> (r: u64)
    requires
        took >= 1,
    ensures
        r == extrapolated_iters(iters, took, want),
{
    proof {
        assert((want as int) * (iters as int) < 0x1_0000_0000_0000_0000_0000_0000_0000_0000)
            by (nonlinear_arith)
            requires
                want <= u64::MAX,
                iters <= u64::MAX,
        ;
    }
    let e: u128 = (want as u128) * (iters as u128) / (took as u128);
    if e < 1 {
        1
    } else if e > u64::MAX as u128 {
        u64::MAX
    } else {
        e as u64
    }
}

/// How one benchmark run was requested.
#[derive(Clone, Copy, Debug, PartialEq, Eq, Structural)]
pub enum Mode {
    /// Only list the benchmark id.
    List,
    /// Run the routine exactly once, without analysis.
    Test,
    /// Hand the routine to a profiler, without analysis.
    Profile,
    /// Measure and analyze.
    Full,
}

/// The stages one run performs. Each run follows a linear pipeline with no
/// retries; a stage is either performed in full or skipped in full.
#[derive(Clone, Copy, Debug, PartialEq, Eq, Structural)]
pub struct RunPlan {
    /// Print the id and stop.
    pub emit_id_only: bool,
    /// Execute the routine once and stop.
    pub run_once: bool,
    /// Delegate to the profiler and stop.
    pub profile: bool,
    /// Measure, classify outliers, fit the regression and bootstrap the
    /// estimates.
    pub measure: bool,
    /// Compare against the stored baseline.
    pub compare: bool,
    /// Persist this run's results.
    pub persist: bool,
}

/// Decides which stages a run performs. List, test and profile modes stop
/// before any analysis; a full run always measures, compares exactly when
/// a baseline exists (a missing baseline skips the stage, it is no error),
/// and persists unless the measurements themselves were loaded from a
/// baseline.
pub fn plan_run(mode: Mode, baseline_exists: bool, loading_baseline: bool) -> (r: RunPlan)
    ensures
        r.emit_id_only == (mode == Mode::List),
        r.run_once == (mode == Mode::Test),
        r.profile == (mode == Mode::Profile),
        r.measure == (mode == Mode::Full),
        r.compare == (mode == Mode::Full && baseline_exists),
        r.persist == (mode == Mode::Full && !loading_baseline),
{
    let full = matches!(mode, Mode::Full);
    RunPlan {
        emit_id_only: matches!(mode, Mode::List),
        run_once: matches!(mode, Mode::Test),
        profile: matches!(mode, Mode::Profile),
        measure: full,
        compare: full && baseline_exists,
        persist: full && !loading_baseline,
    }
}

/// Everything one analyzed benchmark run yields.
#[derive(Debug)]
pub struct MeasurementData {
    /// The average times, labeled by outlier severity.
    pub avg_times: LabeledSample,
    /// Point, interval and standard-error estimates per statistic.
    pub absolute_estimates: Estimates,
    /// The bootstrap distributions behind the estimates.
    pub distributions: Distributions,
    /// The comparison against the baseline; absent when no baseline was
    /// given (that is not an error).
    pub comparison: Option<ComparisonData>,
}

/// The analysis accepts this run: valid raw measurements, at least two
/// points, an in-range resample count whose interval ranks fit, and a
/// comparable baseline when one is given.
pub open spec fn analyze_ok(
    iters: Seq<u64>,
    times: Seq<i64>,
    config: Config,
    baseline: Option<Seq<i64>>,
) -> bool {
    &&& valid_measurements(iters, times)
    &&& iters.len() >= 2
    &&& config.nresamples <= MAX_RESAMPLES
    &&& ranks_ok(config.nresamples as int, config.confidence_level)
    &&& match baseline {
        Some(b) => b.len() >= 2 && iters.len() + b.len() <= MAX_LEN,
        None => true,
    }
}

/// Analyzes one benchmark run: averages the measurements, labels outliers,
/// fits and bootstraps the regression slope, bootstraps the absolute
/// statistics, and, when a baseline sample is given, compares against it.
/// A missing baseline skips the comparison and is not an error.
///
/// The resampling generator is seeded from `config.seed` when present
/// (reproducible runs) and from OS randomness otherwise.
pub fn analyze(
    iters: &Vec<u64>,
    times: &Vec<i64>,
    config: &Config,
    baseline_avg: Option<&Sample>,
) -> (r: Result<MeasurementData, Error>)
    requires
        config.wf(),
        match baseline_avg {
            Some(b) => b.wf(),
            None => true,
        },
    ensures
        r is Ok <==> analyze_ok(
            iters@,
            times@,
            *config,
            match baseline_avg {
                Some(b) => Some(b@),
                None => None,
            },
        ),
        match r {
            Ok(m) => {
                &&& m.avg_times.spec_values() == avg_seq(iters@, times@)
                &&& m.avg_times.wf()
                &&& m.absolute_estimates.wf()
                &&& m.distributions.wf()
                &&& m.absolute_estimates.mean.point_estimate == (Frac {
                    num: crate::sample::seq_sum(avg_seq(iters@, times@)) as i64,
                    den: iters@.len() as i64,
                })
                &&& m.absolute_estimates.slope.point_estimate == (Frac {
                    num: seq_xy(iters@, times@) as i64,
                    den: seq_xx(iters@) as i64,
                })
                &&& m.distributions.slope@.len() == config.nresamples
                &&& m.distributions.slope.spec_den() == SLOPE_SCALE
                &&& crate::regress::all_slope_values(m.distributions.slope@, iters@, times@)
                &&& crate::estimate::built_from(
                    m.absolute_estimates.slope,
                    m.distributions.slope@,
                    SLOPE_SCALE as int,
                    config.confidence_level,
                )
                &&& crate::bootstrap::all_mean_values(
                    m.distributions.mean@,
                    avg_seq(iters@, times@),
                )
                &&& crate::bootstrap::all_std_values(
                    m.distributions.std_dev@,
                    avg_seq(iters@, times@),
                )
                &&& crate::bootstrap::all_median_values(
                    m.distributions.median@,
                    avg_seq(iters@, times@),
                )
                &&& crate::bootstrap::all_mad_values(
                    m.distributions.median_abs_dev@,
                    avg_seq(iters@, times@),
                )
                &&& crate::estimate::built_from(
                    m.absolute_estimates.mean,
                    m.distributions.mean@,
                    m.distributions.mean.spec_den(),
                    config.confidence_level,
                )
                &&& crate::estimate::built_from(
                    m.absolute_estimates.std_dev,
                    m.distributions.std_dev@,
                    m.distributions.std_dev.spec_den(),
                    config.confidence_level,
                )
                &&& crate::estimate::built_from(
                    m.absolute_estimates.median,
                    m.distributions.median@,
                    m.distributions.median.spec_den(),
                    config.confidence_level,
                )
                &&& crate::estimate::built_from(
                    m.absolute_estimates.median_abs_dev,
                    m.distributions.median_abs_dev@,
                    m.distributions.median_abs_dev.spec_den(),
                    config.confidence_level,
                )
                &&& match (baseline_avg, &m.comparison) {
                    (Some(b), Some(c)) => {
                        &&& c.t_value == t_fp_spec(avg_seq(iters@, times@), b@)
                        &&& c.regressed == (c.p_value.spec_lt(config.significance_level)
                            && c.mean_outcome == crate::compare::ComparisonResult::Regressed
                            && c.median_outcome == crate::compare::ComparisonResult::Regressed)
                        &&& c.p_value.num == crate::compare::count_abs_geq(
                            c.t_distribution@,
                            c.t_value as int,
                        )
                        &&& c.p_value.den == config.nresamples
                        &&& c.mean_outcome == crate::compare::threshold_class(
                            c.relative_mean.confidence_interval.lower_bound,
                            c.relative_mean.confidence_interval.upper_bound,
                            config.noise_threshold,
                        )
                        &&& c.median_outcome == crate::compare::threshold_class(
                            c.relative_median.confidence_interval.lower_bound,
                            c.relative_median.confidence_interval.upper_bound,
                            config.noise_threshold,
                        )
                        &&& crate::mixed::all_t_values(
                            c.t_distribution@,
                            avg_seq(iters@, times@),
                            b@,
                        )
                        &&& crate::compare::all_rel_values(
                            c.relative_mean_distribution@,
                            crate::compare::RelStatistic::Mean,
                            avg_seq(iters@, times@),
                            b@,
                        )
                        &&& crate::compare::all_rel_values(
                            c.relative_median_distribution@,
                            crate::compare::RelStatistic::Median,
                            avg_seq(iters@, times@),
                            b@,
                        )
                        &&& crate::estimate::built_from(
                            c.relative_mean,
                            c.relative_mean_distribution@,
                            crate::REL_SCALE as int,
                            config.confidence_level,
                        )
                        &&& crate::estimate::built_from(
                            c.relative_median,
                            c.relative_median_distribution@,
                            crate::REL_SCALE as int,
                            config.confidence_level,
                        )
                        &&& c.base_avg_times@ == b@
                    },
                    (None, None) => true,
                    _ => false,
                }
            },
            Err(e) => {
                if !valid_measurements(iters@, times@) {
                    e == Error::InvalidInput
                } else if iters@.len() < 2 {
                    e == Error::DegenerateInput
                } else if config.nresamples > MAX_RESAMPLES || (match baseline_avg {
                    Some(b) => b@.len() < 2 || iters@.len() + b@.len() > MAX_LEN,
                    None => false,
                }) {
                    e == Error::InvalidInput
                } else {
                    e == Error::InsufficientResamples && !ranks_ok(
                        config.nresamples as int,
                        config.confidence_level,
                    )
                }
            },
        },
{
    let avg = match average_times(iters, times) {
        Ok(v) => v,
        Err(e) => {
            return Err(e);
        },
    };
    if avg.len() < 2 {
        return Err(Error::DegenerateInput);
    }
    if config.nresamples > MAX_RESAMPLES {
        return Err(Error::InvalidInput);
    }
    match baseline_avg {
        Some(b) => {
            if b.len() < 2 || avg.len() + b.len() > MAX_LEN {
                return Err(Error::InvalidInput);
            }
        },
        None => {},
    }
    let mut resampler = match config.seed {
        Some(s) => Resampler::seeded(s),
        None => Resampler::fresh(),
    };
    let sample = Sample::from_valid(avg);
    let avg_times = classify(&sample);
    proof {
        assert(crate::regress::counts_bounded(iters@, 1));
        crate::regress::lemma_all_positive_xx(iters@);
    }
    let slope_point = match fit_slope(iters, times) {
        Ok(s) => s,
        Err(e) => {
            return Err(e);
        },
    };
    let slope_vals = match bootstrap_slope(iters, times, config.nresamples, &mut resampler) {
        Ok(v) => v,
        Err(e) => {
            return Err(e);
        },
    };
    let ghost raw_slope = slope_vals@;
    let slope_dist = Distribution::from_valid(slope_vals, SLOPE_SCALE);
    proof {
        crate::regress::lemma_slope_values_permuted(iters@, times@, raw_slope, slope_dist@);
    }
    let (dists, ests) = match compute_point_estimates(
        &sample,
        config.confidence_level,
        config.nresamples,
        &mut resampler,
    ) {
        Ok(de) => de,
        Err(e) => {
            return Err(e);
        },
    };
    let slope_estimate = match Estimate::new(slope_point, &slope_dist, config.confidence_level) {
        Ok(e) => e,
        Err(e) => {
            return Err(e);
        },
    };
    let mut distributions = dists;
    let mut absolute_estimates = ests;
    distributions.slope = slope_dist;
    absolute_estimates.slope = slope_estimate;
    let comparison = match baseline_avg {
        Some(b) => {
            match compare(&sample, b, config, &mut resampler) {
                Ok(c) => Some(c),
                Err(e) => {
                    return Err(e);
                },
            }
        },
        None => None,
    };
    Ok(MeasurementData { avg_times, absolute_estimates, distributions, comparison })
}

} // verus!
