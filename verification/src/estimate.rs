//! Point estimates paired with bootstrap intervals, and the closed set of
//! tracked statistics.

use vstd::prelude::*;

use crate::dist::{rank_lo, rank_up, ranks_ok, ConfidenceInterval, Distribution, valid_level};
use crate::frac::{div_trunc, Frac};
use crate::isqrt::is_sqrt_floor;
use crate::sample::{seq_sq_dev, seq_sum};
use crate::{Error, STD_SCALE};

verus! {

/// The statistics this crate tracks per benchmark.
#[derive(Clone, Copy, Debug, PartialEq, Eq, Structural)]
pub enum Statistic {
    Mean,
    Median,
    MedianAbsDev,
    Slope,
    StdDev,
}

impl Statistic {
    /// The short name each statistic is reported under.
    pub open spec fn spec_label(self) -> Seq<char> {
        match self {
            Statistic::Mean => "mean"@,
            Statistic::Median => "median"@,
            Statistic::MedianAbsDev => "MAD"@,
            Statistic::Slope => "slope"@,
            Statistic::StdDev => "SD"@,
        }
    }

    pub fn label(&self) -> (r: String)
        ensures
            r@ == self.spec_label(),
    {
        proof {
            reveal_strlit("mean");
            reveal_strlit("median");
            reveal_strlit("MAD");
            reveal_strlit("slope");
            reveal_strlit("SD");
        }
        match self {
            Statistic::Mean => String::from_str("mean"),
            Statistic::Median => String::from_str("median"),
            Statistic::MedianAbsDev => String::from_str("MAD"),
            Statistic::Slope => String::from_str("slope"),
            Statistic::StdDev => String::from_str("SD"),
        }
    }
}

/// The estimate's interval and standard error come from the distribution
/// whose sorted values are `values` at common denominator `den`: the
/// interval bounds are the values at the percentile ranks of `level`, and
/// the standard error is the distribution's standard deviation (about its
/// floored mean, at scale `STD_SCALE`).
pub open spec fn built_from(e: Estimate, values: Seq<i64>, den: int, level: Frac) -> bool {
    &&& e.confidence_interval.confidence_level == level
    &&& e.confidence_interval.lower_bound == (Frac {
        num: values[rank_lo(values.len() as int, level)],
        den: den as i64,
    })
    &&& e.confidence_interval.upper_bound == (Frac {
        num: values[rank_up(values.len() as int, level)],
        den: den as i64,
    })
    &&& e.standard_error.den == den * STD_SCALE
    &&& is_sqrt_floor(
        seq_sq_dev(values, 1, div_trunc(seq_sum(values), values.len() as int)) * STD_SCALE
            * STD_SCALE / (values.len() - 1),
        e.standard_error.num as int,
    )
}

/// A point estimate with its standard error and confidence interval.
#[derive(Clone, Copy, Debug, PartialEq, Eq, Structural)]
pub struct Estimate {
    pub point_estimate: Frac,
    pub standard_error: Frac,
    pub confidence_interval: ConfidenceInterval,
}

impl Estimate {
    pub open spec fn wf(self) -> bool {
        &&& self.point_estimate.wf()
        &&& self.standard_error.wf()
        &&& self.confidence_interval.wf()
    }

    /// Packages a point estimate with the interval and standard error of
    /// its bootstrap distribution.
    ///
    /// Returns `InsufficientResamples` exactly when the distribution is too
    /// small for the interval ranks at this level.
    pub fn new(point: Frac, distribution: &Distribution, level: Frac) -> (r: Result<
        Estimate,
        Error,
    >)
        requires
            point.wf(),
            distribution.wf(),
            valid_level(level),
        ensures
            match r {
                Ok(e) => {
                    &&& ranks_ok(distribution@.len() as int, level)
                    &&& e.point_estimate == point
                    &&& built_from(e, distribution@, distribution.spec_den(), level)
                    &&& e.wf()
                },
                Err(e) => {
                    &&& e == Error::InsufficientResamples
                    &&& !ranks_ok(distribution@.len() as int, level)
                },
            },
    {
        let confidence_interval = match distribution.confidence_interval(level) {
            Ok(ci) => ci,
            Err(e) => {
                return Err(e);
            },
        };
        let standard_error = distribution.standard_error();
        Ok(Estimate { point_estimate: point, standard_error, confidence_interval })
    }
}

/// One estimate per tracked statistic; the domain is closed and small, so
/// the record has one named field per statistic.
#[derive(Clone, Copy, Debug, PartialEq, Eq, Structural)]
pub struct Estimates {
    pub mean: Estimate,
    pub median: Estimate,
    pub median_abs_dev: Estimate,
    pub slope: Estimate,
    pub std_dev: Estimate,
}

impl Estimates {
    pub open spec fn wf(self) -> bool {
        &&& self.mean.wf()
        &&& self.median.wf()
        &&& self.median_abs_dev.wf()
        &&& self.slope.wf()
        &&& self.std_dev.wf()
    }

    /// The estimate tracked for `statistic`.
    pub fn get(&self, statistic: Statistic) -> (r: &Estimate)
        ensures
            r == match statistic {
                Statistic::Mean => self.mean,
                Statistic::Median => self.median,
                Statistic::MedianAbsDev => self.median_abs_dev,
                Statistic::Slope => self.slope,
                Statistic::StdDev => self.std_dev,
            },
    {
        match statistic {
            Statistic::Mean => &self.mean,
            Statistic::Median => &self.median,
            Statistic::MedianAbsDev => &self.median_abs_dev,
            Statistic::Slope => &self.slope,
            Statistic::StdDev => &self.std_dev,
        }
    }
}

/// One bootstrap distribution per tracked statistic.
#[derive(Debug)]
pub struct Distributions {
    pub mean: Distribution,
    pub median: Distribution,
    pub median_abs_dev: Distribution,
    pub slope: Distribution,
    pub std_dev: Distribution,
}

impl Distributions {
    pub open spec fn wf(self) -> bool {
        &&& self.mean.wf()
        &&& self.median.wf()
        &&& self.median_abs_dev.wf()
        &&& self.slope.wf()
        &&& self.std_dev.wf()
    }
}

} // verus!
