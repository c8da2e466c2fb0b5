//! Statistics core for benchmark timing analysis.
//!
//! Measurements are integer tick counts (for wall-clock time, a tick is
//! typically one picosecond or one nanosecond; the library never interprets
//! the unit). Statistics that are intrinsically fractional are exact
//! rationals represented as a numerator/denominator pair, or fixed-point
//! values with a documented scale. All arithmetic is exact 128-bit integer
//! arithmetic, which is why samples carry explicit magnitude and length
//! bounds.

pub mod analysis;
pub mod bootstrap;
pub mod compare;
pub mod data;
pub mod dist;
pub mod estimate;
pub mod frac;
pub mod isqrt;
pub mod laws;
pub mod mixed;
pub mod plot;
pub mod regress;
pub mod resample;
pub mod sample;
pub mod sort;
pub mod tukey;

use vstd::prelude::*;

verus! {

/// Largest magnitude a sample value (a tick count) may have.
pub const MAX_TIME: i64 = 0x10_0000_0000; // 1 << 36

/// Largest number of points a sample may hold.
pub const MAX_LEN: usize = 1024;

/// Fixed-point scale of standard deviations and standard errors.
pub const STD_SCALE: i64 = 256;

/// Largest number of bootstrap resamples a distribution may hold.
pub const MAX_RESAMPLES: usize = 16384;

/// Magnitude cap on the values a bootstrap distribution holds. Statistics
/// whose exact value could exceed it (a relative change against a tiny
/// baseline, an extreme t statistic or slope) saturate here.
pub const DIST_CAP: i64 = 0x4000_0000_0000; // 1 << 46

/// Largest denominator accepted for a confidence or significance level.
pub const MAX_LEVEL_DEN: i64 = 1_000_000;

/// Fixed-point scale of the t statistic.
pub const T_SCALE: i64 = 1_048_576;

/// Fixed-point scale of bootstrapped slope values.
pub const SLOPE_SCALE: i64 = 1_048_576;

/// Fixed-point scale of the coefficient of determination.
pub const R2_SCALE: i64 = 65_536;

/// Largest iteration count a regression accepts per data point.
pub const MAX_ITERS: u64 = 67_108_864;

/// Largest magnitude of one `iterations * elapsed` product a regression
/// accepts (so that the exact 64-bit dot products cannot overflow for any
/// resample).
pub const MAX_XY: i64 = 0x10_0000_0000_0000;

/// Scale applied when averaging elapsed time over iterations: average
/// times are in thousandths of a tick.
pub const AVG_SCALE: i64 = 1000;

/// Fixed-point scale of relative changes: parts per billion.
pub const REL_SCALE: i64 = 1_000_000_000;

/// Fixed-point scale of the squared pooled standard error inside the t
/// statistic (the square of `STD_SCALE`).
pub const SE2_SCALE: i64 = 65_536;

/// Configuration of one benchmark analysis.
#[derive(Clone, Copy, Debug, PartialEq, Eq, Structural)]
pub struct Config {
    /// Level of the confidence intervals, in (0, 1).
    pub confidence_level: crate::frac::Frac,
    /// Two-tailed p-value below which the t-test rejects the null.
    pub significance_level: crate::frac::Frac,
    /// Smallest relative change counted as a real difference.
    pub noise_threshold: crate::frac::Frac,
    /// Number of bootstrap resamples per statistic.
    pub nresamples: usize,
    /// Seed of the resampling generator; `None` draws fresh OS randomness
    /// (runs are then not reproducible).
    pub seed: Option<u64>,
}

impl Config {
    pub open spec fn wf(self) -> bool {
        &&& crate::dist::valid_level(self.confidence_level)
        &&& crate::dist::valid_level(self.significance_level)
        &&& self.noise_threshold.wf()
        &&& self.noise_threshold.num >= 0
    }
}

/// Errors of the statistics core.
#[derive(Clone, Copy, Debug, PartialEq, Eq, Structural)]
pub enum Error {
    /// A sample was empty, oversized, out of magnitude bounds, or two paired
    /// sequences had mismatched lengths.
    InvalidInput,
    /// The resample count is too small to form the requested interval.
    InsufficientResamples,
    /// A statistic's defining formula divides by zero on this input: a
    /// variance over fewer than two points, an all-zero regressor, or an
    /// all-equal response in the coefficient of determination.
    DegenerateInput,
    /// Persisted baseline data exists but could not be decoded.
    BaselineLoadFailure,
}

} // verus!
