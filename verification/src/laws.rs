//! Cross-cutting properties of the statistics core, stated and proved
//! once, for every input.

use vstd::prelude::*;

use crate::compare::{
    count_abs_geq, rel_fp_spec, rel_of_pair, rel_value_of, t_fp_spec, welch_se2_fp,
    ComparisonData, ComparisonResult, RelStatistic,
};
use crate::estimate::{built_from, Estimate};
use crate::regress::{is_joint_resample, slope_fp_of, slope_value_of};
use crate::dist::valid_level;
use crate::frac::{div_trunc, Frac};
use crate::regress::{r2_fp_spec, seq_res_sq, seq_xx, seq_xy, seq_y, seq_yy};
use crate::sample::{
    abs_i, is_resample_of, is_sort_of, mean_frac, median_frac, quartile_num, seq_sum,
};
use crate::sort::{lemma_sort_of_equal, sorted};
use crate::tukey::{fences_of, label_of, LabeledSample};
use crate::{Config, DIST_CAP, MAX_LEN, MAX_TIME, R2_SCALE, REL_SCALE, SLOPE_SCALE, STD_SCALE};

verus! {

/// Outlier classification is idempotent: two classifications of the same
/// sample carry the same fences and the same labels, because the fences
/// are a function of the unique ascending reordering of the sample.
pub proof fn lemma_classification_idempotent(s: Seq<i64>, a: LabeledSample, b: LabeledSample)
    requires
        a.wf(),
        b.wf(),
        a.spec_values() == s,
        b.spec_values() == s,
        exists|t: Seq<i64>| is_sort_of(s, t) && a.spec_fences() == fences_of(t),
        exists|t: Seq<i64>| is_sort_of(s, t) && b.spec_fences() == fences_of(t),
    ensures
        a.spec_fences() == b.spec_fences(),
        a.spec_labels() == b.spec_labels(),
{
    let ta = choose|t: Seq<i64>| is_sort_of(s, t) && a.spec_fences() == fences_of(t);
    let tb = choose|t: Seq<i64>| is_sort_of(s, t) && b.spec_fences() == fences_of(t);
    lemma_sort_of_equal(ta, tb);
    assert forall|i: int| 0 <= i < s.len() implies a.spec_labels()[i] == b.spec_labels()[i] by {
        assert(a.spec_labels()[i] == label_of(s[i], a.spec_fences()));
        assert(b.spec_labels()[i] == label_of(s[i], b.spec_fences()));
    }
    assert(a.spec_labels() =~= b.spec_labels());
}

/// The quartile fences of every non-degenerate sample are ordered:
/// `far_low <= near_low <= near_high <= far_high` as rationals.
#[verifier::rlimit(50)]
pub proof fn lemma_fence_ordering(t: Seq<i64>)
    requires
        sorted(t),
        1 <= t.len() <= crate::MAX_LEN,
        crate::sample::bounded(t, crate::MAX_TIME as int),
    ensures
        fences_of(t).far_low.spec_le(fences_of(t).near_low),
        fences_of(t).near_low.spec_le(fences_of(t).near_high),
        fences_of(t).near_high.spec_le(fences_of(t).far_high),
{
    crate::tukey::lemma_quartile_monotone(t, 1, 3);
    crate::tukey::lemma_quartile_bounds(t, 1);
    crate::tukey::lemma_quartile_bounds(t, 3);
    let f = fences_of(t);
    let q1 = quartile_num(t, 1);
    let q3 = quartile_num(t, 3);
    let iqr = q3 - q1;
    assert(f.far_low.num == 2 * q1 - 6 * iqr && f.near_low.num == 2 * q1 - 3 * iqr
        && f.near_high.num == 2 * q3 + 3 * iqr && f.far_high.num == 2 * q3 + 6 * iqr);
    assert(f.far_low.num <= f.near_low.num && f.near_low.num <= f.near_high.num
        && f.near_high.num <= f.far_high.num);
    crate::frac::lemma_frac_le_of_same_den(f.far_low, f.near_low);
    crate::frac::lemma_frac_le_of_same_den(f.near_low, f.near_high);
    crate::frac::lemma_frac_le_of_same_den(f.near_high, f.far_high);
}

/// On exact synthetic data `y_i = k * x_i` the fitted slope recovers `k`:
/// `sum(x*y) = k * sum(x^2)`, so the fitted fraction equals the integer
/// `k` exactly.
pub proof fn lemma_exact_fit_recovers_slope(xs: Seq<u64>, ys: Seq<i64>, k: int)
    requires
        xs.len() == ys.len(),
        forall|i: int| 0 <= i < ys.len() ==> #[trigger] ys[i] == k * xs[i],
    ensures
        seq_xy(xs, ys) == k * seq_xx(xs),
    decreases xs.len(),
{
    if xs.len() == 0 {
        assert(k * 0 == 0) by (nonlinear_arith);
    } else {
        assert(forall|i: int|
            0 <= i < ys.len() - 1 ==> #[trigger] ys.drop_last()[i] == k * xs.drop_last()[i]);
        lemma_exact_fit_recovers_slope(xs.drop_last(), ys.drop_last(), k);
        assert(ys.last() == k * xs.last());
        assert(xs.last() * (k * xs.last()) == k * (xs.last() * xs.last()) && k * (seq_xx(
            xs.drop_last(),
        ) + xs.last() * xs.last()) == k * seq_xx(xs.drop_last()) + k * (xs.last() * xs.last()))
            by (nonlinear_arith);
    }
}

/// On exact synthetic data the coefficient of determination is exactly 1:
/// the residual sum vanishes and `r2_fp_spec` returns the full scale.
pub proof fn lemma_exact_fit_r2(slope: Frac, xs: Seq<u64>, ys: Seq<i64>)
    requires
        xs.len() == ys.len(),
        forall|i: int| 0 <= i < ys.len() ==> slope.den * #[trigger] ys[i] == slope.num * xs[i],
        1 <= slope.den,
        1 <= xs.len() * seq_yy(ys) - seq_y(ys) * seq_y(ys),
        xs.len() * seq_yy(ys) - seq_y(ys) * seq_y(ys) <= 0x1000_0000_0000_0000_0000,
        slope.den * slope.den <= 0x1_0000_0000,
    ensures
        r2_fp_spec(slope, xs, ys) == R2_SCALE,
{
    lemma_exact_fit_residuals_vanish(slope, xs, ys);
    let tot = xs.len() * seq_yy(ys) - seq_y(ys) * seq_y(ys);
    let dres = slope.den * slope.den * tot;
    assert(xs.len() * 0 == 0) by (nonlinear_arith);
    assert(1 <= slope.den * slope.den) by (nonlinear_arith)
        requires
            1 <= slope.den,
    ;
    assert(1 <= dres <= 0x1000_0000_0000_0000_0000_0000_0000) by (nonlinear_arith)
        requires
            dres == slope.den * slope.den * tot,
            1 <= slope.den * slope.den <= 0x1_0000_0000,
            1 <= tot <= 0x1000_0000_0000_0000_0000,
    ;
    assert(div_trunc((dres - 0) * R2_SCALE, dres) == R2_SCALE) by {
        assert(dres * R2_SCALE >= 0) by (nonlinear_arith)
            requires
                dres >= 1,
        ;
        assert(dres * R2_SCALE / dres == R2_SCALE) by (nonlinear_arith)
            requires
                dres >= 1,
        ;
    }
}

/// With an exact linear relation, every residual `b*y - a*x` is zero.
proof fn lemma_exact_fit_residuals_vanish(slope: Frac, xs: Seq<u64>, ys: Seq<i64>)
    requires
        xs.len() == ys.len(),
        forall|i: int| 0 <= i < ys.len() ==> slope.den * #[trigger] ys[i] == slope.num * xs[i],
    ensures
        seq_res_sq(slope, xs, ys) == 0,
    decreases xs.len(),
{
    if xs.len() > 0 {
        assert(forall|i: int|
            0 <= i < ys.len() - 1 ==> slope.den * #[trigger] ys.drop_last()[i] == slope.num
                * xs.drop_last()[i]);
        lemma_exact_fit_residuals_vanish(slope, xs.drop_last(), ys.drop_last());
        assert(slope.den * ys.last() == slope.num * xs.last());
    }
}

/// Both Welch variance terms are nonnegative, so the squared pooled
/// standard error is too, and the scaled magnitude divisor is positive.
proof fn lemma_welch_se2_nonneg(a: Seq<i64>, b: Seq<i64>)
    requires
        a.len() >= 2,
        b.len() >= 2,
    ensures
        welch_se2_fp(a, b) >= 0,
        welch_se2_fp(a, b) != 0 ==> a.len() * b.len() * crate::isqrt::sqrt_floor(
            welch_se2_fp(a, b),
        ) >= 1,
{
    let na = a.len() as int;
    let nb = b.len() as int;
    lemma_sq_dev_nonneg(a, na, seq_sum(a));
    lemma_sq_dev_nonneg(b, nb, seq_sum(b));
    let va = crate::sample::seq_sq_dev(a, na, seq_sum(a));
    let vb = crate::sample::seq_sq_dev(b, nb, seq_sum(b));
    assert(va * crate::SE2_SCALE >= 0 && vb * crate::SE2_SCALE >= 0 && na * na * (na - 1) * na >= 8
        && nb * nb * (nb - 1) * nb >= 8) by (nonlinear_arith)
        requires
            va >= 0,
            vb >= 0,
            na >= 2,
            nb >= 2,
    ;
    lemma_div_nonneg(va * crate::SE2_SCALE, na * na * (na - 1) * na);
    lemma_div_nonneg(vb * crate::SE2_SCALE, nb * nb * (nb - 1) * nb);
    let se2 = welch_se2_fp(a, b);
    if se2 != 0 {
        crate::isqrt::lemma_sqrt_floor_exists(se2);
        let se = crate::isqrt::sqrt_floor(se2);
        assert(se >= 1) by (nonlinear_arith)
            requires
                se * se <= se2,
                (se + 1) * (se + 1) > se2,
                se >= 0,
                se2 >= 1,
        ;
        assert(na * nb * se >= 1) by (nonlinear_arith)
            requires
                se >= 1,
                na >= 2,
                nb >= 2,
        ;
    }
}

/// A nonnegative value divided by a positive one stays nonnegative.
proof fn lemma_div_nonneg(x: int, d: int)
    by (nonlinear_arith)
    requires
        x >= 0,
        d >= 1,
    ensures
        x / d >= 0,
{
}

/// Zero divided by a positive value is zero.
proof fn lemma_zero_div(d: int)
    by (nonlinear_arith)
    requires
        d >= 1,
    ensures
        0int / d == 0,
{
}

/// Sums of squared deviations are nonnegative.
proof fn lemma_sq_dev_nonneg(s: Seq<i64>, scale: int, center: int)
    ensures
        crate::sample::seq_sq_dev(s, scale, center) >= 0,
    decreases s.len(),
{
    if s.len() > 0 {
        lemma_sq_dev_nonneg(s.drop_last(), scale, center);
        let d = scale * s.last() - center;
        assert(d * d >= 0) by (nonlinear_arith);
    }
}

/// t-test antisymmetry: swapping the two samples negates the t statistic.
pub proof fn lemma_t_antisymmetric(a: Seq<i64>, b: Seq<i64>)
    requires
        a.len() >= 2,
        b.len() >= 2,
    ensures
        t_fp_spec(a, b) == -t_fp_spec(b, a),
{
    assert(welch_se2_fp(a, b) == welch_se2_fp(b, a));
    lemma_welch_se2_nonneg(a, b);
    let dn = seq_sum(a) * b.len() - seq_sum(b) * a.len();
    let se2 = welch_se2_fp(a, b);
    assert(b.len() * a.len() == a.len() * b.len()) by (nonlinear_arith);
    assert(seq_sum(b) * a.len() - seq_sum(a) * b.len() == -dn);
    if se2 != 0 {
        let se = crate::isqrt::sqrt_floor(se2);
        let dd = a.len() * b.len();
        let mag = abs_i(dn) * crate::STD_SCALE * crate::T_SCALE / (dd * se);
        assert(abs_i(-dn) == abs_i(dn));
        if dn == 0 {
            assert(abs_i(0int) * crate::STD_SCALE * crate::T_SCALE == 0);
            assert(mag == 0) by {
                lemma_zero_div(dd * se);
            }
        }
    }
}

/// The two-tailed p-value depends on the t statistic only through its
/// magnitude: negating t leaves the exceedance count unchanged. With
/// antisymmetry above, swapping the samples leaves the p-value unchanged.
pub proof fn lemma_p_value_even(s: Seq<i64>, t: int)
    ensures
        count_abs_geq(s, t) == count_abs_geq(s, -t),
    decreases s.len(),
{
    if s.len() > 0 {
        lemma_p_value_even(s.drop_last(), t);
    }
}

/// Comparing a sample against itself gives a t statistic of exactly zero.
pub proof fn lemma_self_comparison_t_zero(a: Seq<i64>)
    requires
        a.len() >= 2,
    ensures
        t_fp_spec(a, a) == 0,
{
    let dn = seq_sum(a) * a.len() - seq_sum(a) * a.len();
    assert(dn == 0);
    lemma_welch_se2_nonneg(a, a);
    let se2 = welch_se2_fp(a, a);
    if se2 != 0 {
        let se = crate::isqrt::sqrt_floor(se2);
        let dd = a.len() * a.len();
        assert(abs_i(0int) * crate::STD_SCALE * crate::T_SCALE == 0);
        lemma_zero_div(dd * se);
    }
}

/// A zero t statistic is never exceeded strictly: every null value ties or
/// exceeds it, so the two-tailed p-value is exactly 1.
pub proof fn lemma_zero_t_full_p(s: Seq<i64>)
    ensures
        count_abs_geq(s, 0) == s.len(),
    decreases s.len(),
{
    if s.len() > 0 {
        lemma_zero_t_full_p(s.drop_last());
    }
}

/// A p-value of 1 is never below a significance level below 1.
pub proof fn lemma_full_p_not_significant(p: Frac, level: Frac)
    by (nonlinear_arith)
    requires
        p.wf(),
        p.num == p.den,
        valid_level(level),
    ensures
        !p.spec_lt(level),
{
}

/// Comparing a sample against itself is never judged a regression: the t
/// statistic is zero, so the whole null distribution ties with it, the
/// p-value is 1, and the t-test cannot reject the null. (Which outcome the
/// random relative-change intervals show does not matter: the overall
/// judgement is a conjunction.)
pub proof fn lemma_self_comparison_not_regressed(c: ComparisonData, s: Seq<i64>, config: Config)
    requires
        s.len() >= 2,
        config.wf(),
        c.t_value == t_fp_spec(s, s),
        c.p_value.num == count_abs_geq(c.t_distribution@, c.t_value as int),
        c.p_value.den == c.t_distribution@.len(),
        c.p_value.wf(),
        c.regressed == (c.p_value.spec_lt(config.significance_level) && c.mean_outcome
            == ComparisonResult::Regressed && c.median_outcome == ComparisonResult::Regressed),
    ensures
        !c.regressed,
{
    lemma_self_comparison_t_zero(s);
    lemma_zero_t_full_p(c.t_distribution@);
    lemma_full_p_not_significant(c.p_value, config.significance_level);
}

/// The sum of a constant sequence.
proof fn lemma_constant_seq_sum(s: Seq<i64>, c: i64)
    requires
        forall|i: int| 0 <= i < s.len() ==> s[i] == c,
    ensures
        seq_sum(s) == s.len() * c,
    decreases s.len(),
{
    if s.len() == 0 {
        assert(0int * c == 0) by (nonlinear_arith);
    } else {
        lemma_constant_seq_sum(s.drop_last(), c);
        assert(s.len() * c == (s.len() - 1) * c + c) by (nonlinear_arith);
    }
}

/// A constant sequence has no squared deviation about its value.
proof fn lemma_constant_sq_dev(s: Seq<i64>, c: i64)
    requires
        forall|i: int| 0 <= i < s.len() ==> s[i] == c,
    ensures
        crate::sample::seq_sq_dev(s, 1, c as int) == 0,
    decreases s.len(),
{
    if s.len() > 0 {
        lemma_constant_sq_dev(s.drop_last(), c);
        assert(1 * s.last() - c == 0);
    }
}

/// The interpolated median of a constant sequence is the constant.
proof fn lemma_constant_quartile(t: Seq<i64>, c: i64)
    requires
        1 <= t.len(),
        forall|i: int| 0 <= i < t.len() ==> t[i] == c,
    ensures
        quartile_num(t, 2) == 4 * c,
{
    let n = t.len() as int;
    let k = (n - 1) * 2;
    let lo = k / 4;
    let f = k % 4;
    assert(0 <= k <= 4 * (n - 1)) by (nonlinear_arith)
        requires
            n >= 1,
            k == (n - 1) * 2,
    ;
    assert(0 <= lo < n && 0 <= f < 4 && (f != 0 ==> lo + 1 < n)) by (nonlinear_arith)
        requires
            0 <= k <= 4 * (n - 1),
            lo == k / 4,
            f == k % 4,
            n >= 1,
    ;
    if f != 0 {
        assert((4 - f) * c + f * c == 4 * c) by (nonlinear_arith);
    }
}

/// Every value drawn from a constant sequence is the constant.
proof fn lemma_constant_members(s: Seq<i64>, c: i64, r: Seq<i64>)
    requires
        forall|i: int| 0 <= i < s.len() ==> s[i] == c,
        forall|j: int| 0 <= j < r.len() ==> s.contains(#[trigger] r[j]),
    ensures
        forall|j: int| 0 <= j < r.len() ==> #[trigger] r[j] == c,
{
    assert forall|j: int| 0 <= j < r.len() implies #[trigger] r[j] == c by {
        let i = choose|i: int| 0 <= i < s.len() && s[i] == r[j];
    }
}

/// The relative change is invariant under scaling the cross products by
/// one positive factor: two representations of the same pair of rationals
/// give the same fixed-point result.
proof fn lemma_rel_fp_spec_scale(s: int, u: Frac, w: Frac, u2: Frac, w2: Frac)
    requires
        s >= 1,
        u2.num * w2.den == s * (u.num * w.den),
        w2.num * u2.den == s * (w.num * u.den),
    ensures
        rel_fp_spec(u2, w2) == rel_fp_spec(u, w),
{
    let num = u.num * w.den - w.num * u.den;
    let den = w.num * u.den;
    let num2 = u2.num * w2.den - w2.num * u2.den;
    let den2 = w2.num * u2.den;
    assert(num2 == s * num && den2 == s * den) by (nonlinear_arith)
        requires
            u2.num * w2.den == s * (u.num * w.den),
            w2.num * u2.den == s * (w.num * u.den),
            num == u.num * w.den - w.num * u.den,
            den == w.num * u.den,
            num2 == u2.num * w2.den - w2.num * u2.den,
            den2 == w2.num * u2.den,
    ;
    assert((den2 == 0) == (den == 0) && (num2 > 0) == (num > 0) && (num2 < 0) == (num < 0) && (
    num2 >= 0) == (num >= 0) && (den2 > 0) == (den > 0)) by (nonlinear_arith)
        requires
            s >= 1,
            num2 == s * num,
            den2 == s * den,
    ;
    if den != 0 {
        assert(abs_i(num2) == s * abs_i(num) && abs_i(den2) == s * abs_i(den) && abs_i(den) >= 1)
            by (nonlinear_arith)
            requires
                s >= 1,
                num2 == s * num,
                den2 == s * den,
                den != 0,
        ;
        assert(abs_i(num2) * REL_SCALE == s * (abs_i(num) * REL_SCALE)) by (nonlinear_arith)
            requires
                abs_i(num2) == s * abs_i(num),
        ;
        assert(abs_i(num) * REL_SCALE >= 0) by (nonlinear_arith)
            requires
                abs_i(num) >= 0,
        ;
        crate::frac::lemma_div_scale(s, abs_i(num) * REL_SCALE, abs_i(den));
    }
}

/// On exact synthetic data `y_i = k * x_i`, every bootstrapped slope is
/// exactly `k`: each joint resample keeps the exact linear relation, so
/// each refit recovers `k` at the slope scale.
pub proof fn lemma_exact_fit_slope_values(v: i64, xs: Seq<u64>, ys: Seq<i64>, k: int)
    requires
        slope_value_of(v, xs, ys),
        forall|i: int| 0 <= i < ys.len() ==> #[trigger] ys[i] == k * xs[i],
        xs.len() == ys.len(),
        1 <= xs.len(),
        crate::regress::counts_bounded(xs, 1),
        -DIST_CAP <= k * SLOPE_SCALE <= DIST_CAP,
    ensures
        v == k * SLOPE_SCALE,
{
    let (rx, ry) = choose|rx: Seq<u64>, ry: Seq<i64>|
        #![trigger is_joint_resample(xs, ys, rx, ry)]
        is_joint_resample(xs, ys, rx, ry) && v == slope_fp_of(rx, ry);
    let ix = choose|ix: Seq<int>|
        #![trigger ix.len()]
        ix.len() == xs.len() && forall|j: int|
            0 <= j < ix.len() ==> (0 <= #[trigger] ix[j] < xs.len() && rx[j] == xs[ix[j]] && ry[j]
                == ys[ix[j]]);
    assert forall|j: int| 0 <= j < ry.len() implies #[trigger] ry[j] == k * rx[j] by {
        assert(0 <= ix[j] < xs.len());
    }
    assert forall|j: int| 0 <= j < rx.len() implies 1 <= #[trigger] rx[j] <= crate::MAX_ITERS by {
        assert(0 <= ix[j] < xs.len());
        assert(xs[ix[j]] == xs[ix[j]]);
    }
    assert(crate::regress::counts_bounded(rx, 1));
    crate::regress::lemma_all_positive_xx(rx);
    lemma_exact_fit_recovers_slope(rx, ry, k);
    let q = seq_xx(rx);
    assert(seq_xy(rx, ry) * SLOPE_SCALE == (k * SLOPE_SCALE) * q) by (nonlinear_arith)
        requires
            seq_xy(rx, ry) == k * q,
    ;
    crate::frac::lemma_div_trunc_multiple(k * SLOPE_SCALE, q);
}

/// An estimate built from a distribution of one repeated value has that
/// value as both interval bounds and a standard error of exactly zero.
pub proof fn lemma_constant_distribution_estimate(
    e: Estimate,
    values: Seq<i64>,
    den: int,
    level: Frac,
    c: i64,
)
    requires
        built_from(e, values, den, level),
        crate::dist::ranks_ok(values.len() as int, level),
        valid_level(level),
        forall|i: int| 0 <= i < values.len() ==> values[i] == c,
        2 <= values.len(),
        den >= 1,
    ensures
        e.confidence_interval.lower_bound == (Frac { num: c, den: den as i64 }),
        e.confidence_interval.upper_bound == (Frac { num: c, den: den as i64 }),
        e.standard_error.num == 0,
{
    let n = values.len() as int;
    let lo = crate::dist::rank_lo(n, level);
    let up = crate::dist::rank_up(n, level);
    assert(lo >= 0) by (nonlinear_arith)
        requires
            lo == n * (level.den - level.num) / (2 * level.den),
            n >= 0,
            0 < level.num < level.den,
    ;
    assert(values[lo] == c && values[up] == c);
    lemma_constant_seq_sum(values, c);
    assert(n * c == c * n) by (nonlinear_arith);
    crate::frac::lemma_div_trunc_multiple(c as int, n);
    lemma_constant_sq_dev(values, c);
    assert(0int * STD_SCALE * STD_SCALE == 0) by (nonlinear_arith);
    lemma_zero_div(n - 1);
    assert(crate::isqrt::is_sqrt_floor(0, e.standard_error.num as int));
    assert(e.standard_error.num == 0) by (nonlinear_arith)
        requires
            crate::isqrt::is_sqrt_floor(0, e.standard_error.num as int),
    ;
}

/// When both samples are constant, every bootstrapped relative change is
/// the one relative change of the two constants: every resample of a
/// constant sample is that same constant sample.
pub proof fn lemma_constant_samples_relative_change(
    v: i64,
    statistic: RelStatistic,
    cur: Seq<i64>,
    base: Seq<i64>,
    a: i64,
    b: i64,
)
    requires
        rel_value_of(v, statistic, cur, base),
        forall|i: int| 0 <= i < cur.len() ==> cur[i] == a,
        forall|i: int| 0 <= i < base.len() ==> base[i] == b,
        1 <= cur.len() <= MAX_LEN,
        1 <= base.len() <= MAX_LEN,
        -MAX_TIME <= a <= MAX_TIME,
        -MAX_TIME <= b <= MAX_TIME,
    ensures
        v == rel_fp_spec(Frac { num: a, den: 1 }, Frac { num: b, den: 1 }),
{
    let (rc, rb) = choose|rc: Seq<i64>, rb: Seq<i64>|
        #![trigger is_resample_of(rc, cur), is_resample_of(rb, base)]
        is_resample_of(rc, cur) && is_resample_of(rb, base) && rel_of_pair(v, statistic, rc, rb);
    lemma_constant_members(cur, a, rc);
    lemma_constant_members(base, b, rb);
    let na = rc.len() as int;
    let nb = rb.len() as int;
    let u = Frac { num: a, den: 1 };
    let w = Frac { num: b, den: 1 };
    match statistic {
        RelStatistic::Mean => {
            lemma_constant_seq_sum(rc, a);
            lemma_constant_seq_sum(rb, b);
            assert(-0x10_0000_0000_0000 <= na * a <= 0x10_0000_0000_0000 && -0x10_0000_0000_0000
                <= nb * b <= 0x10_0000_0000_0000) by (nonlinear_arith)
                requires
                    1 <= na <= 1024,
                    1 <= nb <= 1024,
                    -MAX_TIME <= a <= MAX_TIME,
                    -MAX_TIME <= b <= MAX_TIME,
            ;
            let u2 = mean_frac(rc);
            let w2 = mean_frac(rb);
            assert(u2.num == na * a && u2.den == na && w2.num == nb * b && w2.den == nb);
            assert(na * nb >= 1 && u2.num * w2.den == (na * nb) * (u.num * w.den) && w2.num
                * u2.den == (na * nb) * (w.num * u.den)) by (nonlinear_arith)
                requires
                    u2.num == na * a && u2.den == na && w2.num == nb * b && w2.den == nb,
                    u.num == a && u.den == 1 && w.num == b && w.den == 1,
                    na >= 1,
                    nb >= 1,
            ;
            lemma_rel_fp_spec_scale(na * nb, u, w, u2, w2);
        },
        RelStatistic::Median => {
            let (tc, tb) = choose|tc: Seq<i64>, tb: Seq<i64>|
                #![trigger is_sort_of(rc, tc), is_sort_of(rb, tb)]
                is_sort_of(rc, tc) && is_sort_of(rb, tb) && v == rel_fp_spec(
                    median_frac(tc),
                    median_frac(tb),
                );
            crate::sort::lemma_permutation_preserves_pred(rc, tc, |x: i64| x == a);
            crate::sort::lemma_permutation_preserves_pred(rb, tb, |x: i64| x == b);
            lemma_constant_quartile(tc, a);
            lemma_constant_quartile(tb, b);
            let u2 = median_frac(tc);
            let w2 = median_frac(tb);
            assert(u2.num == 4 * a && u2.den == 4 && w2.num == 4 * b && w2.den == 4);
            assert(u2.num * w2.den == 16 * (u.num * w.den) && w2.num * u2.den == 16 * (w.num
                * u.den)) by (nonlinear_arith)
                requires
                    u2.num == 4 * a && u2.den == 4 && w2.num == 4 * b && w2.den == 4,
                    u.num == a && u.den == 1 && w.num == b && w.den == 1,
            ;
            lemma_rel_fp_spec_scale(16, u, w, u2, w2);
        },
    }
}

/// The quartile fences are a pure function of the sample's multiset of
/// values: samples with equal sorted order get equal fences.
pub proof fn lemma_fences_of_sort(s: Seq<i64>, t1: Seq<i64>, t2: Seq<i64>)
    requires
        is_sort_of(s, t1),
        is_sort_of(s, t2),
    ensures
        fences_of(t1) == fences_of(t2),
        quartile_num(t1, 2) == quartile_num(t2, 2),
{
    lemma_sort_of_equal(t1, t2);
}

} // verus!
