//! Samples of measurements and their descriptive statistics.

use vstd::prelude::*;

use crate::frac::Frac;
use crate::isqrt::{is_sqrt_floor, isqrt_u128};
use crate::sort::{sort_values, sorted};
use crate::{Error, MAX_LEN, MAX_TIME, STD_SCALE};

verus! {

/// Magnitude of `x`.
pub open spec fn abs_i(x: int) -> int {
    if x < 0 {
        -x
    } else {
        x
    }
}

/// Every value of `s` lies in `[-b, b]`.
pub open spec fn bounded(s: Seq<i64>, b: int) -> bool {
    forall|i: int| 0 <= i < s.len() ==> -b <= #[trigger] s[i] <= b
}

/// Sum of the values of `s`.
pub open spec fn seq_sum(s: Seq<i64>) -> int
    decreases s.len(),
{
    if s.len() == 0 {
        0
    } else {
        seq_sum(s.drop_last()) + s.last()
    }
}

/// Sum of the squared deviations `(scale * x - center)^2` over `s`.
pub open spec fn seq_sq_dev(s: Seq<i64>, scale: int, center: int) -> int
    decreases s.len(),
{
    if s.len() == 0 {
        0
    } else {
        seq_sq_dev(s.drop_last(), scale, center) + (scale * s.last() - center) * (scale * s.last()
            - center)
    }
}

pub proof fn lemma_seq_sum_bound(s: Seq<i64>, b: int)
    requires
        bounded(s, b),
        b >= 0,
    ensures
        -(s.len() * b) <= seq_sum(s) <= s.len() * b,
    decreases s.len(),
{
    if s.len() > 0 {
        assert(bounded(s.drop_last(), b));
        lemma_seq_sum_bound(s.drop_last(), b);
        assert(s.len() * b == (s.len() - 1) * b + b) by (nonlinear_arith);
    }
}

pub proof fn lemma_seq_sq_dev_bounds(s: Seq<i64>, scale: int, center: int, b: int, m: int)
    requires
        bounded(s, b),
        b >= 0,
        m >= 0,
        scale >= 0,
        -m <= center <= m,
    ensures
        0 <= seq_sq_dev(s, scale, center),
        seq_sq_dev(s, scale, center) <= s.len() * ((scale * b + m) * (scale * b + m)),
    decreases s.len(),
{
    if s.len() > 0 {
        assert(bounded(s.drop_last(), b));
        lemma_seq_sq_dev_bounds(s.drop_last(), scale, center, b, m);
        let d = scale * s.last() - center;
        assert(0 <= d * d <= (scale * b + m) * (scale * b + m)) by (nonlinear_arith)
            requires
                -b <= s.last() <= b,
                b >= 0,
                m >= 0,
                scale >= 0,
                -m <= center <= m,
                d == scale * s.last() - center,
        ;
        assert(s.len() * ((scale * b + m) * (scale * b + m)) == (s.len() - 1) * ((scale * b + m) * (
        scale * b + m)) + (scale * b + m) * (scale * b + m)) by (nonlinear_arith);
    }
}

/// `|4 * x - m|`, the absolute deviation of `x` from the rational `m / 4`,
/// scaled by 4.
pub open spec fn dev_abs(x: i64, m: int) -> i64 {
    (if 4 * x - m < 0 {
        m - 4 * x
    } else {
        4 * x - m
    }) as i64
}

/// The per-point absolute deviations of `s` from the rational `m / 4`.
pub open spec fn dev_seq(s: Seq<i64>, m: int) -> Seq<i64> {
    Seq::new(s.len(), |i: int| dev_abs(s[i], m))
}

/// `r` is the median absolute deviation of `s` around the median `m / 4`:
/// the median of the sorted deviations, at denominator 16.
pub open spec fn is_mad_of(s: Seq<i64>, m: int, r: Frac) -> bool {
    exists|d: Seq<i64>|
        is_sort_of(dev_seq(s, m), d) && r.num == quartile_num(d, 2) && r.den == 16
}

/// A sample fit for the exact-arithmetic statistics of this crate.
pub open spec fn valid_values(s: Seq<i64>) -> bool {
    &&& 1 <= s.len() <= MAX_LEN
    &&& bounded(s, MAX_TIME as int)
}

/// `r` is one bootstrap resample of `s`: as many values as the source,
/// each drawn from the source. (Randomness decides which; this is all
/// that holds of every outcome.)
pub open spec fn is_resample_of(r: Seq<i64>, s: Seq<i64>) -> bool {
    &&& r.len() == s.len()
    &&& forall|j: int| 0 <= j < r.len() ==> s.contains(#[trigger] r[j])
}

/// The mean of `s` as a rational (the numerator cast is exact whenever
/// the sum fits, which every bounded sample guarantees).
pub open spec fn mean_frac(s: Seq<i64>) -> Frac {
    Frac { num: seq_sum(s) as i64, den: s.len() as i64 }
}

/// The median of the sorted sequence `t` as a rational with denominator 4.
pub open spec fn median_frac(t: Seq<i64>) -> Frac {
    Frac { num: quartile_num(t, 2) as i64, den: 4 }
}

/// `t` is the ascending reordering of `s`.
pub open spec fn is_sort_of(s: Seq<i64>, t: Seq<i64>) -> bool {
    &&& sorted(t)
    &&& t.to_multiset() == s.to_multiset()
    &&& t.len() == s.len()
}

/// An immutable, ordered sequence of measurements (tick counts).
#[derive(Debug)]
pub struct Sample {
    values: Vec<i64>,
}

impl View for Sample {
    type V = Seq<i64>;

    closed spec fn view(&self) -> Seq<i64> {
        self.values@
    }
}

impl Sample {
    /// Every sample this crate hands out satisfies this.
    pub open spec fn wf(self) -> bool {
        valid_values(self@)
    }

    /// Wraps measurements as a sample.
    ///
    /// Returns `InvalidInput` exactly when the sequence is empty, longer
    /// than `MAX_LEN`, or holds a value out of `[-MAX_TIME, MAX_TIME]`.
    pub fn new(values: Vec<i64>) -> (r: Result<Sample, Error>)
        ensures
            match r {
                Ok(s) => s@ == values@ && valid_values(values@),
                Err(e) => e == Error::InvalidInput && !valid_values(values@),
            },
    {
        if values.len() < 1 || values.len() > MAX_LEN {
            return Err(Error::InvalidInput);
        }
        let mut i: usize = 0;
        while i < values.len()
            invariant
                i <= values@.len(),
                forall|k: int| 0 <= k < i ==> -MAX_TIME <= #[trigger] values@[k] <= MAX_TIME,
            decreases values@.len() - i,
        {
            if values[i] < -MAX_TIME || values[i] > MAX_TIME {
                return Err(Error::InvalidInput);
            }
            i = i + 1;
        }
        Ok(Sample { values })
    }

    /// Wraps values already known to be valid (a resample of a valid
    /// sample, for instance).
    pub fn from_valid(values: Vec<i64>) -> (r: Sample)
        requires
            valid_values(values@),
        ensures
            r@ == values@,
            r.wf(),
    {
        Sample { values }
    }

    pub fn len(&self) -> (r: usize)
        ensures
            r == self@.len(),
    {
        self.values.len()
    }

    pub fn get(&self, i: usize) -> (r: i64)
        requires
            i < self@.len(),
        ensures
            r == self@[i as int],
    {
        self.values[i]
    }

    /// The values in their original order.
    pub fn values(&self) -> (r: &Vec<i64>)
        ensures
            r@ == self@,
    {
        &self.values
    }

    /// Sum of all values.
    pub fn sum(&self) -> (r: i64)
        requires
            self.wf(),
        ensures
            r == seq_sum(self@),
    {
        sum_values(&self.values)
    }

    /// The mean, as the exact rational `sum / len`.
    pub fn mean(&self) -> (r: Frac)
        requires
            self.wf(),
        ensures
            r.num == seq_sum(self@),
            r.den == self@.len(),
            r.wf(),
    {
        let s = self.sum();
        Frac { num: s, den: self.values.len() as i64 }
    }

    /// The sample standard deviation, as a fixed-point value at scale
    /// `STD_SCALE` (the numerator is `floor(sqrt(variance * STD_SCALE^2))`,
    /// with the variance floored once when divided by its denominator).
    pub fn std_dev(&self) -> (r: Frac)
        requires
            self.wf(),
            self@.len() >= 2,
        ensures
            r.den == STD_SCALE,
            is_sqrt_floor(
                seq_sq_dev(self@, self@.len() as int, seq_sum(self@)) * STD_SCALE * STD_SCALE / (
                self@.len() * self@.len() * (self@.len() - 1)),
                r.num as int,
            ),
            0 <= r.num <= 3 * MAX_TIME * STD_SCALE,
            r.wf(),
    {
        let ghost se = self@;
        let n128 = self.values.len() as i128;
        let s = self.sum();
        proof {
            lemma_seq_sum_bound(se, MAX_TIME as int);
        }
        let dev_total = sq_dev_total(&self.values, s);
        proof {
            lemma_seq_sq_dev_bounds(
                se,
                se.len() as int,
                seq_sum(se),
                MAX_TIME as int,
                se.len() * MAX_TIME,
            );
            assert(se.len() * ((se.len() * MAX_TIME + se.len() * MAX_TIME) * (se.len() * MAX_TIME
                + se.len() * MAX_TIME)) <= 4 * 1024 * 1024 * 1024 * MAX_TIME * MAX_TIME)
                by (nonlinear_arith)
                requires
                    1 <= se.len() <= 1024,
                    MAX_TIME >= 1,
            ;
        }
        let scaled: i128 = dev_total * (STD_SCALE as i128) * (STD_SCALE as i128);
        proof {
            assert(2 <= n128 * n128 <= 0x10_0000 && n128 * n128 * (n128 - 1) >= 2 && n128 * n128 * (
            n128 - 1) <= 0x4000_0000_0000_0000) by (nonlinear_arith)
                requires
                    2 <= n128 <= 1024,
            ;
        }
        let den: i128 = n128 * n128 * (n128 - 1);
        let q: i128 = scaled / den;
        let root = isqrt_u128(q as u128);
        proof {
            // variance <= 8 * MAX_TIME^2, so the scaled root stays below 3 * MAX_TIME * STD_SCALE.
            assert(q <= 8 * MAX_TIME * MAX_TIME * STD_SCALE * STD_SCALE) by (nonlinear_arith)
                requires
                    q == scaled / den,
                    scaled == dev_total * STD_SCALE * STD_SCALE,
                    den == n128 * n128 * (n128 - 1),
                    2 <= n128 <= 1024,
                    n128 == se.len(),
                    0 <= dev_total,
                    dev_total <= se.len() * ((se.len() * MAX_TIME + se.len() * MAX_TIME) * (
                    se.len() * MAX_TIME + se.len() * MAX_TIME)),
            ;
            assert(root * root <= q && q < (3 * MAX_TIME * STD_SCALE + 1) * (3 * MAX_TIME
                * STD_SCALE + 1) ==> root <= 3 * MAX_TIME * STD_SCALE) by (nonlinear_arith)
                requires
                    root >= 0,
            ;
            assert(8 * MAX_TIME * MAX_TIME * STD_SCALE * STD_SCALE < (3 * MAX_TIME * STD_SCALE + 1)
                * (3 * MAX_TIME * STD_SCALE + 1)) by (nonlinear_arith);
        }
        Frac { num: root as i64, den: STD_SCALE }
    }

    /// The median absolute deviation: the median of `|x - median|` over the
    /// sample, as an exact rational with denominator 16.
    pub fn median_abs_dev(&self) -> (r: Frac)
        requires
            self.wf(),
        ensures
            exists|t: Seq<i64>|
                is_sort_of(self@, t) && is_mad_of(self@, quartile_num(t, 2), r),
            r.den == 16,
            r.wf(),
            -32 * MAX_TIME <= r.num <= 32 * MAX_TIME,
    {
        let pct = self.percentiles();
        let med = pct.median();
        let ghost m = med.num as int;
        let mut devs: Vec<i64> = Vec::new();
        let n = self.values.len();
        assert(devs@ =~= dev_seq(self@, m).subrange(0, 0));
        for i in 0..n
            invariant
                n == self@.len(),
                self.wf(),
                med.num == m,
                -4 * MAX_TIME <= m <= 4 * MAX_TIME,
                devs@ =~= dev_seq(self@, m).subrange(0, i as int),
                bounded(devs@, 8 * MAX_TIME),
        {
            let x = self.values[i];
            let d = 4 * x - med.num;
            let a = if d < 0 {
                -d
            } else {
                d
            };
            devs.push(a);
            proof {
                assert(devs@ =~= dev_seq(self@, m).subrange(0, i as int + 1));
            }
        }
        proof {
            assert(devs@ =~= dev_seq(self@, m));
        }
        let ds = sort_values(&devs);
        proof {
            broadcast use vstd::seq_lib::group_to_multiset_ensures;

            assert forall|i: int| 0 <= i < ds@.len() implies -8 * MAX_TIME <= #[trigger] ds@[i]
                <= 8 * MAX_TIME by {
                assert(ds@.to_multiset().count(ds@[i]) > 0);
                assert(devs@.contains(ds@[i]));
            }
        }
        let num = quartile_sorted(&ds, 2, Ghost(8 * MAX_TIME as int));
        proof {
            let t = pct@;
            assert(is_sort_of(self@, t));
            assert(is_sort_of(dev_seq(self@, quartile_num(t, 2)), ds@));
        }
        Frac { num, den: 16 }
    }

    /// The ascending reordering of the sample, for percentile queries.
    pub fn percentiles(&self) -> (r: Percentiles)
        requires
            self.wf(),
        ensures
            is_sort_of(self@, r@),
            r.wf(),
    {
        let sorted_values = sort_values(&self.values);
        proof {
            broadcast use vstd::seq_lib::group_to_multiset_ensures;

            assert forall|i: int| 0 <= i < sorted_values@.len() implies -MAX_TIME
                <= #[trigger] sorted_values@[i] <= MAX_TIME by {
                assert(sorted_values@.to_multiset().count(sorted_values@[i]) > 0);
                assert(self@.contains(sorted_values@[i]));
            }
        }
        Percentiles { sorted_values }
    }
}

/// Sum of a vector of bounded values.
pub fn sum_values(v: &Vec<i64>) -> (r: i64)
    requires
        v@.len() <= MAX_LEN,
        bounded(v@, MAX_TIME as int),
    ensures
        r == seq_sum(v@),
{
    let mut acc: i64 = 0;
    let ghost whole = v@;
    for i in 0..v.len()
        invariant
            v@.len() <= MAX_LEN,
            bounded(v@, MAX_TIME as int),
            acc == seq_sum(v@.subrange(0, i as int)),
            -(i as int) * MAX_TIME <= acc <= (i as int) * MAX_TIME,
    {
        proof {
            let pre = v@.subrange(0, i as int);
            let post = v@.subrange(0, i as int + 1);
            assert(post.drop_last() =~= pre);
            assert(bounded(pre, MAX_TIME as int));
            lemma_seq_sum_bound(pre, MAX_TIME as int);
            assert((i + 1) * MAX_TIME == i * MAX_TIME + MAX_TIME) by (nonlinear_arith);
        }
        acc = acc + v[i];
    }
    proof {
        assert(v@.subrange(0, v@.len() as int) =~= v@);
    }
    acc
}

/// Numerator (at denominator 4) of the `q`-th quartile of a sorted vector
/// whose values lie in `[-b, b]`.
pub(crate) fn quartile_sorted(v: &Vec<i64>, q: usize, Ghost(b): Ghost<int>) -> (r: i64)
    requires
        sorted(v@),
        1 <= v@.len() <= MAX_LEN,
        1 <= q <= 3,
        bounded(v@, b),
        0 <= b <= 0x200_0000_0000,
    ensures
        r == quartile_num(v@, q as int),
        -4 * b <= r <= 4 * b,
{
    let n = v.len();
    proof {
        assert((n - 1) * q <= 3 * MAX_LEN) by (nonlinear_arith)
            requires
                1 <= n <= MAX_LEN,
                1 <= q <= 3,
        ;
    }
    let k = (n - 1) * q;
    let lo = k / 4;
    let f = k % 4;
    proof {
        assert(k <= 4 * (n - 1)) by (nonlinear_arith)
            requires
                k == (n - 1) * q,
                1 <= q <= 3,
                n >= 1,
        ;
        assert(lo < n && (f != 0 ==> lo + 1 < n)) by (nonlinear_arith)
            requires
                k <= 4 * (n - 1),
                lo == k / 4,
                f == k % 4,
                n >= 1,
                k >= 0,
        ;
    }
    if f == 0 {
        4 * v[lo]
    } else {
        let fi = f as i64;
        let a = v[lo];
        let c = v[lo + 1];
        proof {
            assert(-4 * b <= (4 - f) * a <= 4 * b && -4 * b <= f * c <= 4 * b && -4 * b <= (4 - f)
                * a + f * c <= 4 * b) by (nonlinear_arith)
                requires
                    0 < f < 4,
                    -b <= a <= b,
                    -b <= c <= b,
                    b >= 0,
            ;
        }
        (4 - fi) * a + fi * c
    }
}

/// Sum of the squared deviations `(n * x - s)^2` over a vector, in exact
/// 128-bit arithmetic.
pub(crate) fn sq_dev_total(v: &Vec<i64>, s: i64) -> (r: i128)
    requires
        1 <= v@.len() <= MAX_LEN,
        bounded(v@, MAX_TIME as int),
        -(v@.len() * MAX_TIME) <= s <= v@.len() * MAX_TIME,
    ensures
        r == seq_sq_dev(v@, v@.len() as int, s as int),
        r >= 0,
{
    let n: i128 = v.len() as i128;
    let mut acc: i128 = 0;
    assert(v@.subrange(0, 0) =~= Seq::<i64>::empty());
    for i in 0..v.len()
        invariant
            n == v@.len(),
            1 <= v@.len() <= MAX_LEN,
            bounded(v@, MAX_TIME as int),
            -(v@.len() * MAX_TIME) <= s <= v@.len() * MAX_TIME,
            acc == seq_sq_dev(v@.subrange(0, i as int), n as int, s as int),
            0 <= acc <= (i as int) * (4 * n * n * MAX_TIME * MAX_TIME),
    {
        let x = v[i];
        proof {
            assert(-(n * MAX_TIME) <= n * x <= n * MAX_TIME) by (nonlinear_arith)
                requires
                    -MAX_TIME <= x <= MAX_TIME,
                    1 <= n <= 1024,
            ;
        }
        let d: i128 = n * (x as i128) - (s as i128);
        proof {
            assert(0 <= d * d <= 4 * n * n * MAX_TIME * MAX_TIME && d * d <= 4 * 1024 * 1024
                * MAX_TIME * MAX_TIME) by (nonlinear_arith)
                requires
                    d == n * x - s,
                    -MAX_TIME <= x <= MAX_TIME,
                    -(n * MAX_TIME) <= s <= n * MAX_TIME,
                    1 <= n <= 1024,
            ;
            assert((i as int + 1) * (4 * n * n * MAX_TIME * MAX_TIME) == (i as int) * (4 * n * n
                * MAX_TIME * MAX_TIME) + 4 * n * n * MAX_TIME * MAX_TIME) by (nonlinear_arith);
            assert((i as int) * (4 * n * n * MAX_TIME * MAX_TIME) <= 1024 * (4 * 1024 * 1024
                * MAX_TIME * MAX_TIME)) by (nonlinear_arith)
                requires
                    0 <= i as int <= 1024,
                    1 <= n <= 1024,
            ;
            let pre = v@.subrange(0, i as int);
            let post = v@.subrange(0, i as int + 1);
            assert(post.drop_last() =~= pre);
        }
        acc = acc + d * d;
    }
    proof {
        assert(v@.subrange(0, v@.len() as int) =~= v@);
    }
    acc
}

/// The sorted view of a sample, answering interpolated quartile queries.
pub struct Percentiles {
    sorted_values: Vec<i64>,
}

impl View for Percentiles {
    type V = Seq<i64>;

    closed spec fn view(&self) -> Seq<i64> {
        self.sorted_values@
    }
}

/// Numerator (at denominator 4) of the `q`-th quartile of the sorted
/// sequence `s`, by the linear-interpolation percentile method: the value at
/// position `(len - 1) * q / 4`, interpolating between the two neighbouring
/// points when the position is fractional.
pub open spec fn quartile_num(s: Seq<i64>, q: int) -> int {
    let k = (s.len() - 1) * q;
    let lo = k / 4;
    let f = k % 4;
    if f == 0 {
        4 * s[lo]
    } else {
        (4 - f) * s[lo] + f * s[lo + 1]
    }
}

impl Percentiles {
    pub open spec fn wf(self) -> bool {
        &&& sorted(self@)
        &&& 1 <= self@.len() <= MAX_LEN
        &&& bounded(self@, MAX_TIME as int)
    }

    pub fn len(&self) -> (r: usize)
        ensures
            r == self@.len(),
    {
        self.sorted_values.len()
    }

    /// The `q`-th quartile (`q` in 1..=3), as an exact rational with
    /// denominator 4.
    pub fn quartile(&self, q: usize) -> (r: Frac)
        requires
            self.wf(),
            1 <= q <= 3,
        ensures
            r.num == quartile_num(self@, q as int),
            r.den == 4,
            r.wf(),
            -4 * MAX_TIME <= r.num <= 4 * MAX_TIME,
    {
        let num = quartile_sorted(&self.sorted_values, q, Ghost(MAX_TIME as int));
        Frac { num, den: 4 }
    }

    /// The median: second quartile.
    pub fn median(&self) -> (r: Frac)
        requires
            self.wf(),
        ensures
            r.num == quartile_num(self@, 2),
            r.den == 4,
            r.wf(),
            -4 * MAX_TIME <= r.num <= 4 * MAX_TIME,
    {
        self.quartile(2)
    }
}

} // verus!
