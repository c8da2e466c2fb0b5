//! Bootstrap distributions and their interval queries.

use vstd::prelude::*;

use crate::frac::{div_trunc, div_trunc_i128, Frac};
use crate::isqrt::{is_sqrt_floor, isqrt_u128};
use crate::sample::{bounded, is_sort_of, seq_sq_dev, seq_sum};
use crate::sort::{sort_values, sorted};
use crate::{Error, DIST_CAP, MAX_LEVEL_DEN, MAX_RESAMPLES, STD_SCALE};

verus! {

/// A confidence level (or significance level): a rational in (0, 1) with a
/// bounded denominator.
pub open spec fn valid_level(level: Frac) -> bool {
    0 < level.num < level.den <= MAX_LEVEL_DEN
}

/// Index of the lower interval bound in a sorted distribution of `n`
/// values: `floor(n * (1 - level) / 2)`.
pub open spec fn rank_lo(n: int, level: Frac) -> int {
    n * (level.den - level.num) / (2 * level.den)
}

/// Index of the upper interval bound: `ceil(n * (1 - (1 - level) / 2))`.
pub open spec fn rank_up(n: int, level: Frac) -> int {
    (n * (level.den + level.num) + 2 * level.den - 1) / (2 * level.den)
}

/// The distribution is large enough that both ranks are distinct, in-bounds
/// indices.
pub open spec fn ranks_ok(n: int, level: Frac) -> bool {
    &&& n >= 2
    &&& rank_lo(n, level) < rank_up(n, level)
    &&& rank_up(n, level) <= n - 1
}

/// The bootstrap outputs of one statistic: one value per resample, all at
/// one common denominator, kept in ascending order.
#[derive(Debug)]
pub struct Distribution {
    values: Vec<i64>,
    den: i64,
}

impl View for Distribution {
    type V = Seq<i64>;

    closed spec fn view(&self) -> Seq<i64> {
        self.values@
    }
}

impl Distribution {
    /// Common denominator of the stored numerators.
    pub closed spec fn spec_den(&self) -> int {
        self.den as int
    }

    pub open spec fn wf(self) -> bool {
        &&& 1 <= self.spec_den() <= 0x10_0000_0000
        &&& self@.len() <= MAX_RESAMPLES
        &&& bounded(self@, DIST_CAP as int)
        &&& sorted(self@)
    }

    /// Packages bootstrap outputs (numerators at the common denominator
    /// `den`), sorting them once for all later percentile queries.
    ///
    /// Returns `InvalidInput` exactly when there are too many values, a
    /// value exceeds `DIST_CAP`, or the denominator is out of range.
    pub fn new(values: Vec<i64>, den: i64) -> (r: Result<Distribution, Error>)
        ensures
            match r {
                Ok(d) => {
                    &&& d.wf()
                    &&& is_sort_of(values@, d@)
                    &&& d.spec_den() == den
                    &&& values@.len() <= MAX_RESAMPLES
                    &&& bounded(values@, DIST_CAP as int)
                    &&& 1 <= den <= 0x10_0000_0000
                },
                Err(e) => {
                    &&& e == Error::InvalidInput
                    &&& !(values@.len() <= MAX_RESAMPLES && bounded(values@, DIST_CAP as int) && 1
                        <= den <= 0x10_0000_0000)
                },
            },
    {
        if den < 1 || den > 0x10_0000_0000 || values.len() > MAX_RESAMPLES {
            return Err(Error::InvalidInput);
        }
        let mut i: usize = 0;
        while i < values.len()
            invariant
                i <= values@.len(),
                forall|k: int| 0 <= k < i ==> -DIST_CAP <= #[trigger] values@[k] <= DIST_CAP,
            decreases values@.len() - i,
        {
            if values[i] < -DIST_CAP || values[i] > DIST_CAP {
                return Err(Error::InvalidInput);
            }
            i = i + 1;
        }
        let sorted_values = sort_values(&values);
        proof {
            broadcast use vstd::seq_lib::group_to_multiset_ensures;

            assert forall|k: int| 0 <= k < sorted_values@.len() implies -DIST_CAP
                <= #[trigger] sorted_values@[k] <= DIST_CAP by {
                assert(sorted_values@.to_multiset().count(sorted_values@[k]) > 0);
                assert(values@.contains(sorted_values@[k]));
            }
        }
        Ok(Distribution { values: sorted_values, den })
    }

    /// Packages bootstrap outputs already known to be in bounds.
    pub fn from_valid(values: Vec<i64>, den: i64) -> (r: Distribution)
        requires
            values@.len() <= MAX_RESAMPLES,
            bounded(values@, DIST_CAP as int),
            1 <= den <= 0x10_0000_0000,
        ensures
            r.wf(),
            is_sort_of(values@, r@),
            r.spec_den() == den,
    {
        let sorted_values = sort_values(&values);
        proof {
            broadcast use vstd::seq_lib::group_to_multiset_ensures;

            assert forall|k: int| 0 <= k < sorted_values@.len() implies -DIST_CAP
                <= #[trigger] sorted_values@[k] <= DIST_CAP by {
                assert(sorted_values@.to_multiset().count(sorted_values@[k]) > 0);
                assert(values@.contains(sorted_values@[k]));
            }
        }
        Distribution { values: sorted_values, den }
    }

    pub fn len(&self) -> (r: usize)
        ensures
            r == self@.len(),
    {
        self.values.len()
    }

    pub fn den(&self) -> (r: i64)
        ensures
            r == self.spec_den(),
    {
        self.den
    }

    /// The sorted values.
    pub fn values(&self) -> (r: &Vec<i64>)
        ensures
            r@ == self@,
    {
        &self.values
    }

    /// The percentile-method confidence interval at the given level: the
    /// sorted values at ranks `rank_lo` and `rank_up`.
    ///
    /// Returns `InsufficientResamples` exactly when the distribution is too
    /// small for those ranks to be distinct, in-bounds indices.
    pub fn confidence_interval(&self, level: Frac) -> (r: Result<
        ConfidenceInterval,
        Error,
    >)
        requires
            self.wf(),
            valid_level(level),
        ensures
            match r {
                Ok(ci) => {
                    &&& ranks_ok(self@.len() as int, level)
                    &&& ci.confidence_level == level
                    &&& ci.lower_bound == (Frac {
                        num: self@[rank_lo(self@.len() as int, level)],
                        den: self.spec_den() as i64,
                    })
                    &&& ci.upper_bound == (Frac {
                        num: self@[rank_up(self@.len() as int, level)],
                        den: self.spec_den() as i64,
                    })
                    &&& ci.wf()
                },
                Err(e) => {
                    &&& e == Error::InsufficientResamples
                    &&& !ranks_ok(self@.len() as int, level)
                },
            },
    {
        let n = self.values.len();
        if n < 2 {
            return Err(Error::InsufficientResamples);
        }
        let n64 = n as u64;
        let ln = level.num as u64;
        let ld = level.den as u64;
        proof {
            assert(n64 * (ld - ln) <= 16384 * 1_000_000 && n64 * (ld + ln) <= 16384 * 2_000_000)
                by (nonlinear_arith)
                requires
                    n64 <= 16384,
                    0 < ln < ld <= 1_000_000,
            ;
        }
        let lo64 = (n64 * (ld - ln)) / (2 * ld);
        let up64 = (n64 * (ld + ln) + 2 * ld - 1) / (2 * ld);
        proof {
            assert(n64 * (ld - ln) <= n64 * ld && n64 * (ld + ln) <= 2 * (n64 * ld) && n64 * ld
                <= 16384 * 1_000_000) by (nonlinear_arith)
                requires
                    0 < ln < ld <= 1_000_000,
                    0 <= n64 <= 16384,
            ;
            assert(lo64 <= n64 && up64 <= n64 + 1) by (nonlinear_arith)
                requires
                    lo64 == (n64 * (ld - ln)) / (2 * ld),
                    up64 == (n64 * (ld + ln) + 2 * ld - 1) / (2 * ld),
                    0 < ln < ld <= 1_000_000,
                    n64 * (ld - ln) <= n64 * ld,
                    n64 * (ld + ln) <= 2 * (n64 * ld),
                    n64 * ld <= 16384 * 1_000_000,
            ;
            assert(lo64 == rank_lo(n as int, level) && up64 == rank_up(n as int, level));
        }
        let lo = lo64 as usize;
        let up = up64 as usize;
        if up > n - 1 || lo >= up {
            return Err(Error::InsufficientResamples);
        }
        let lower_bound = Frac { num: self.values[lo], den: self.den };
        let upper_bound = Frac { num: self.values[up], den: self.den };
        proof {
            crate::frac::lemma_frac_le_of_same_den(lower_bound, upper_bound);
        }
        Ok(ConfidenceInterval { confidence_level: level, lower_bound, upper_bound })
    }

    /// The standard error of the statistic: the sample standard deviation
    /// of the distribution, computed about the floored mean and returned at
    /// fixed-point scale `STD_SCALE` over the common denominator.
    pub fn standard_error(&self) -> (r: Frac)
        requires
            self.wf(),
            self@.len() >= 2,
        ensures
            r.den == self.spec_den() * STD_SCALE,
            is_sqrt_floor(
                seq_sq_dev(self@, 1, div_trunc(seq_sum(self@), self@.len() as int)) * STD_SCALE
                    * STD_SCALE / (self@.len() - 1),
                r.num as int,
            ),
            r.wf(),
    {
        let n = self.values.len();
        let s = sum_dist_values(&self.values);
        let q: i128 = div_trunc_i128(s, n as i128);
        proof {
            assert(-DIST_CAP <= q <= DIST_CAP) by (nonlinear_arith)
                requires
                    s >= 0 ==> q == s as int / n as int,
                    s < 0 ==> q == -((-(s as int)) / n as int),
                    2 <= n <= MAX_RESAMPLES,
                    -((n as int) * DIST_CAP) <= s <= (n as int) * DIST_CAP,
            ;
        }
        let dev_total = sq_dev_about(&self.values, q);
        proof {
            assert(0 <= dev_total * STD_SCALE * STD_SCALE <= 16384 * (9 * DIST_CAP * DIST_CAP)
                * STD_SCALE * STD_SCALE) by (nonlinear_arith)
                requires
                    0 <= dev_total <= (self@.len() as int) * (9 * DIST_CAP * DIST_CAP),
                    self@.len() <= 16384,
            ;
        }
        let scaled: i128 = dev_total * (STD_SCALE as i128) * (STD_SCALE as i128);
        let var: i128 = scaled / ((n - 1) as i128);
        let root = isqrt_u128(var as u128);
        proof {
            assert(var <= 18 * DIST_CAP * DIST_CAP * STD_SCALE * STD_SCALE) by (nonlinear_arith)
                requires
                    var == scaled / ((n - 1) as i128),
                    scaled == dev_total * STD_SCALE * STD_SCALE,
                    2 <= n <= MAX_RESAMPLES,
                    0 <= dev_total <= (n as i128) * (9 * DIST_CAP * DIST_CAP),
            ;
            assert(root * root <= var && var < (5 * DIST_CAP * STD_SCALE + 1) * (5 * DIST_CAP
                * STD_SCALE + 1) ==> root <= 5 * DIST_CAP * STD_SCALE) by (nonlinear_arith)
                requires
                    root >= 0,
            ;
            assert(18 * DIST_CAP * DIST_CAP * STD_SCALE * STD_SCALE < (5 * DIST_CAP * STD_SCALE + 1)
                * (5 * DIST_CAP * STD_SCALE + 1)) by (nonlinear_arith);
            assert(self.spec_den() * STD_SCALE <= 0x10_0000_0000 * STD_SCALE) by (nonlinear_arith)
                requires
                    1 <= self.spec_den() <= 0x10_0000_0000,
            ;
        }
        Frac { num: root as i64, den: self.den * STD_SCALE }
    }
}

/// Sum of distribution values, in 128-bit arithmetic.
fn sum_dist_values(v: &Vec<i64>) -> (r: i128)
    requires
        v@.len() <= MAX_RESAMPLES,
        bounded(v@, DIST_CAP as int),
    ensures
        r == seq_sum(v@),
        -(v@.len() * DIST_CAP) <= r <= v@.len() * DIST_CAP,
{
    let mut acc: i128 = 0;
    assert(v@.subrange(0, 0) =~= Seq::<i64>::empty());
    for i in 0..v.len()
        invariant
            v@.len() <= MAX_RESAMPLES,
            bounded(v@, DIST_CAP as int),
            acc == seq_sum(v@.subrange(0, i as int)),
            -(i as int) * DIST_CAP <= acc <= (i as int) * DIST_CAP,
    {
        proof {
            let pre = v@.subrange(0, i as int);
            let post = v@.subrange(0, i as int + 1);
            assert(post.drop_last() =~= pre);
            assert((i as int + 1) * DIST_CAP == (i as int) * DIST_CAP + DIST_CAP)
                by (nonlinear_arith);
            assert((i as int) * DIST_CAP <= 16384 * DIST_CAP) by (nonlinear_arith)
                requires
                    0 <= i as int <= 16384,
            ;
        }
        acc = acc + (v[i] as i128);
    }
    proof {
        assert(v@.subrange(0, v@.len() as int) =~= v@);
    }
    acc
}

/// Sum of squared deviations of distribution values about `q`.
fn sq_dev_about(v: &Vec<i64>, q: i128) -> (r: i128)
    requires
        v@.len() <= MAX_RESAMPLES,
        bounded(v@, DIST_CAP as int),
        -DIST_CAP <= q <= DIST_CAP,
    ensures
        r == seq_sq_dev(v@, 1, q as int),
        0 <= r <= v@.len() * (9 * DIST_CAP * DIST_CAP),
{
    let mut acc: i128 = 0;
    assert(v@.subrange(0, 0) =~= Seq::<i64>::empty());
    for i in 0..v.len()
        invariant
            v@.len() <= MAX_RESAMPLES,
            bounded(v@, DIST_CAP as int),
            -DIST_CAP <= q <= DIST_CAP,
            acc == seq_sq_dev(v@.subrange(0, i as int), 1, q as int),
            0 <= acc <= (i as int) * (9 * DIST_CAP * DIST_CAP),
    {
        let d: i128 = (v[i] as i128) - q;
        proof {
            assert(0 <= d * d <= 9 * DIST_CAP * DIST_CAP) by (nonlinear_arith)
                requires
                    -(2 * DIST_CAP) <= d <= 2 * DIST_CAP,
            ;
            assert((i as int + 1) * (9 * DIST_CAP * DIST_CAP) == (i as int) * (9 * DIST_CAP
                * DIST_CAP) + 9 * DIST_CAP * DIST_CAP) by (nonlinear_arith);
            assert((i as int) * (9 * DIST_CAP * DIST_CAP) <= 16384 * (9 * DIST_CAP * DIST_CAP))
                by (nonlinear_arith)
                requires
                    0 <= i as int <= 16384,
            ;
            let pre = v@.subrange(0, i as int);
            let post = v@.subrange(0, i as int + 1);
            assert(post.drop_last() =~= pre);
            assert(1 * post.last() == post.last()) by (nonlinear_arith);
        }
        acc = acc + d * d;
    }
    proof {
        assert(v@.subrange(0, v@.len() as int) =~= v@);
    }
    acc
}

/// A two-sided interval at a stated confidence level.
#[derive(Clone, Copy, Debug, PartialEq, Eq, Structural)]
pub struct ConfidenceInterval {
    pub confidence_level: Frac,
    pub lower_bound: Frac,
    pub upper_bound: Frac,
}

impl ConfidenceInterval {
    pub open spec fn wf(self) -> bool {
        &&& self.confidence_level.wf()
        &&& self.lower_bound.wf()
        &&& self.upper_bound.wf()
        &&& self.lower_bound.spec_le(self.upper_bound)
    }
}

} // verus!
