//! Slope-through-origin least-squares regression of elapsed time against
//! iteration count.

use vstd::prelude::*;

use crate::frac::{div_trunc, div_trunc_i128, Frac};
use crate::resample::Resampler;
use crate::sample::bounded;
use crate::{Error, DIST_CAP, MAX_ITERS, MAX_LEN, MAX_RESAMPLES, MAX_TIME, MAX_XY, R2_SCALE, SLOPE_SCALE};

verus! {

/// Every iteration count lies in `[lo, MAX_ITERS]`.
pub open spec fn counts_bounded(xs: Seq<u64>, lo: int) -> bool {
    forall|i: int| 0 <= i < xs.len() ==> lo <= #[trigger] xs[i] <= MAX_ITERS
}

/// The product of one `(iterations, elapsed)` pair.
pub open spec fn pair_area(x: u64, y: i64) -> int {
    x * y
}

/// A regression input this crate's exact arithmetic accepts: bounded
/// counts and times, and a bounded per-pair product (the binding limit of
/// the exact 64-bit dot products).
pub open spec fn valid_pairs(xs: Seq<u64>, ys: Seq<i64>) -> bool {
    &&& xs.len() == ys.len()
    &&& 1 <= xs.len() <= MAX_LEN
    &&& counts_bounded(xs, 0)
    &&& bounded(ys, MAX_TIME as int)
    &&& forall|i: int| 0 <= i < xs.len() ==> -MAX_XY <= #[trigger] pair_area(xs[i], ys[i]) <= MAX_XY
}

/// `sum x_i * y_i` over the paired sequences.
pub open spec fn seq_xy(xs: Seq<u64>, ys: Seq<i64>) -> int
    decreases xs.len(),
{
    if xs.len() == 0 || ys.len() == 0 {
        0
    } else {
        seq_xy(xs.drop_last(), ys.drop_last()) + xs.last() * ys.last()
    }
}

/// `sum x_i^2`.
pub open spec fn seq_xx(xs: Seq<u64>) -> int
    decreases xs.len(),
{
    if xs.len() == 0 {
        0
    } else {
        seq_xx(xs.drop_last()) + xs.last() * xs.last()
    }
}

/// `sum y_i^2`.
pub open spec fn seq_yy(ys: Seq<i64>) -> int
    decreases ys.len(),
{
    if ys.len() == 0 {
        0
    } else {
        seq_yy(ys.drop_last()) + ys.last() * ys.last()
    }
}

/// `sum y_i`.
pub open spec fn seq_y(ys: Seq<i64>) -> int
    decreases ys.len(),
{
    if ys.len() == 0 {
        0
    } else {
        seq_y(ys.drop_last()) + ys.last()
    }
}

/// The least-squares slope through the origin:
/// `sum(x*y) / sum(x^2)`, as an exact rational.
///
/// Fails with `InvalidInput` when the sequences have mismatched lengths,
/// are empty or oversized, or hold a value out of bounds; with
/// `DegenerateInput` when every `x_i` is zero.
pub fn fit_slope(xs: &Vec<u64>, ys: &Vec<i64>) -> (r: Result<Frac, Error>)
    ensures
        match r {
            Ok(s) => {
                &&& valid_pairs(xs@, ys@)
                &&& s.num == seq_xy(xs@, ys@)
                &&& s.den == seq_xx(xs@)
                &&& s.den >= 1
                &&& s.wf()
            },
            Err(e) => {
                if !valid_pairs(xs@, ys@) {
                    e == Error::InvalidInput
                } else {
                    e == Error::DegenerateInput && seq_xx(xs@) == 0
                }
            },
        },
{
    if xs.len() != ys.len() || xs.len() < 1 || xs.len() > MAX_LEN {
        return Err(Error::InvalidInput);
    }
    let mut i: usize = 0;
    while i < xs.len()
        invariant
            xs@.len() == ys@.len(),
            i <= xs@.len(),
            forall|k: int| 0 <= k < i ==> #[trigger] xs@[k] <= MAX_ITERS,
            forall|k: int| 0 <= k < i ==> -MAX_TIME <= #[trigger] ys@[k] <= MAX_TIME,
            forall|k: int|
                0 <= k < i ==> -MAX_XY <= #[trigger] pair_area(xs@[k], ys@[k]) <= MAX_XY,
        decreases xs@.len() - i,
    {
        if xs[i] > MAX_ITERS || ys[i] < -MAX_TIME || ys[i] > MAX_TIME {
            return Err(Error::InvalidInput);
        }
        proof {
            assert(-0x4000_0000_0000_0000 <= (xs@[i as int] as int) * (ys@[i as int] as int)
                <= 0x4000_0000_0000_0000) by (nonlinear_arith)
                requires
                    0 <= xs@[i as int] <= MAX_ITERS,
                    -MAX_TIME <= ys@[i as int] <= MAX_TIME,
            ;
        }
        let prod: i128 = (xs[i] as i128) * (ys[i] as i128);
        if prod < -MAX_XY as i128 || prod > MAX_XY as i128 {
            proof {
                assert(pair_area(xs@[i as int], ys@[i as int]) == prod as int);
            }
            return Err(Error::InvalidInput);
        }
        i = i + 1;
    }
    let (p, q) = dot_sums(xs, ys);
    if q == 0 {
        return Err(Error::DegenerateInput);
    }
    Ok(Frac { num: p as i64, den: q as i64 })
}

/// Computes `(sum x*y, sum x^2)` over validated pairs, in 128-bit
/// arithmetic; both fit comfortably in 64 bits.
fn dot_sums(xs: &Vec<u64>, ys: &Vec<i64>) -> (r: (i128, i128))
    requires
        valid_pairs(xs@, ys@),
    ensures
        r.0 == seq_xy(xs@, ys@),
        r.1 == seq_xx(xs@),
        -0x4000_0000_0000_0000 <= r.0 <= 0x4000_0000_0000_0000,
        0 <= r.1 <= 0x4000_0000_0000_0000,
{
    let mut p: i128 = 0;
    let mut q: i128 = 0;
    assert(xs@.subrange(0, 0) =~= Seq::<u64>::empty());
    assert(ys@.subrange(0, 0) =~= Seq::<i64>::empty());
    for i in 0..xs.len()
        invariant
            valid_pairs(xs@, ys@),
            p == seq_xy(xs@.subrange(0, i as int), ys@.subrange(0, i as int)),
            q == seq_xx(xs@.subrange(0, i as int)),
            -(i as int) * 0x10_0000_0000_0000 <= p <= (i as int) * 0x10_0000_0000_0000,
            0 <= q <= (i as int) * 0x10_0000_0000_0000,
    {
        let x = xs[i];
        let y = ys[i];
        proof {
            assert(-MAX_XY <= pair_area(xs@[i as int], ys@[i as int]) <= MAX_XY);
            assert(-0x10_0000_0000_0000 <= (x as i128) * (y as i128) <= 0x10_0000_0000_0000 && (x
                as i128) * (y as i128) == x * y && 0 <= (x as i128) * (x as i128)
                <= 0x10_0000_0000_0000 && (x as i128) * (x as i128) == x * x) by (nonlinear_arith)
                requires
                    0 <= x <= MAX_ITERS,
                    -MAX_TIME <= y <= MAX_TIME,
                    -MAX_XY <= pair_area(x, y) <= MAX_XY,
            ;
            let prex = xs@.subrange(0, i as int);
            let postx = xs@.subrange(0, i as int + 1);
            let prey = ys@.subrange(0, i as int);
            let posty = ys@.subrange(0, i as int + 1);
            assert(postx.drop_last() =~= prex);
            assert(posty.drop_last() =~= prey);
        }
        p = p + (x as i128) * (y as i128);
        q = q + (x as i128) * (x as i128);
    }
    proof {
        assert(xs@.subrange(0, xs@.len() as int) =~= xs@);
        assert(ys@.subrange(0, ys@.len() as int) =~= ys@);
    }
    (p, q)
}

/// The greatest common divisor, by Euclid's algorithm.
pub open spec fn gcd_spec(a: int, b: int) -> int
    decreases b,
{
    if b <= 0 {
        a
    } else {
        gcd_spec(b, a % b)
    }
}

/// The gcd of a nonnegative value and a positive value divides both and
/// lies in `[1, b]`.
pub proof fn lemma_gcd_divides(a: int, b: int)
    requires
        a >= 0,
        b >= 0,
        a + b >= 1,
    ensures
        1 <= gcd_spec(a, b),
        a % gcd_spec(a, b) == 0,
        b % gcd_spec(a, b) == 0,
        b >= 1 ==> gcd_spec(a, b) <= b,
    decreases b,
{
    let g = gcd_spec(a, b);
    if b <= 0 {
        assert(g == a && a >= 1);
        vstd::arithmetic::div_mod::lemma_mod_self_0(a);
        assert(0int % a == 0) by {
            vstd::arithmetic::div_mod::lemma_small_mod(0, a as nat);
        }
    } else {
        vstd::arithmetic::div_mod::lemma_mod_bound(a, b);
        lemma_gcd_divides(b, a % b);
        assert(g == gcd_spec(b, a % b));
        // g divides b and a % b, so it divides a = b*(a/b) + a%b.
        vstd::arithmetic::div_mod::lemma_fundamental_div_mod(a, b);
        vstd::arithmetic::div_mod::lemma_fundamental_div_mod(b, g);
        vstd::arithmetic::div_mod::lemma_fundamental_div_mod(a % b, g);
        let q = a / b;
        let bg = b / g;
        let rg = (a % b) / g;
        assert(a == g * (bg * q + rg)) by (nonlinear_arith)
            requires
                a == b * q + a % b,
                b == g * bg + b % g,
                a % b == g * rg + (a % b) % g,
                b % g == 0,
                (a % b) % g == 0,
        ;
        assert(a == (bg * q + rg) * g + 0) by (nonlinear_arith)
            requires
                a == g * (bg * q + rg),
        ;
        vstd::arithmetic::div_mod::lemma_fundamental_div_mod_converse(a, g, bg * q + rg, 0);
        // a divisor of a positive value is at most that value.
        assert(g <= b) by (nonlinear_arith)
            requires
                b == g * bg + 0,
                b >= 1,
                g >= 1,
        ;
    }
}

/// Computes the greatest common divisor of a nonnegative and a positive
/// value.
fn gcd_i128(a0: i128, b0: i128) -> (g: i128)
    requires
        a0 >= 0,
        b0 >= 1,
    ensures
        g == gcd_spec(a0 as int, b0 as int),
        1 <= g <= b0,
        a0 % g == 0,
        b0 % g == 0,
{
    let mut a = a0;
    let mut b = b0;
    while b != 0
        invariant
            a >= 0,
            b >= 0,
            a + b >= 1,
            gcd_spec(a as int, b as int) == gcd_spec(a0 as int, b0 as int),
        decreases b,
    {
        let r = a % b;
        proof {
            vstd::arithmetic::div_mod::lemma_mod_bound(a as int, b as int);
            assert(gcd_spec(a as int, b as int) == gcd_spec(b as int, (a % b) as int));
        }
        a = b;
        b = r;
    }
    proof {
        lemma_gcd_divides(a0 as int, b0 as int);
    }
    a
}

/// A slope value accepted by `r_squared`'s exact arithmetic.
pub open spec fn r2_slope_ok(slope: Frac) -> bool {
    &&& -0x1_0000_0000 <= slope.num <= 0x1_0000_0000
    &&& 1 <= slope.den <= 65_536
}

/// A regression input accepted by `r_squared`'s exact arithmetic: tighter
/// magnitude bounds than the fit itself, because residuals are squared.
pub open spec fn r2_pairs_ok(xs: Seq<u64>, ys: Seq<i64>) -> bool {
    &&& xs.len() == ys.len()
    &&& 1 <= xs.len() <= MAX_LEN
    &&& counts_bounded(xs, 0)
    &&& bounded(ys, 0x400_0000)
    &&& forall|i: int| 0 <= i < xs.len() ==> #[trigger] xs[i] <= 1024
}

/// The coefficient of determination `1 - SSres / SStot` of the line
/// `y = slope * x`, where `SSres = sum((y_i - slope*x_i)^2)` and
/// `SStot = sum((y_i - mean(y))^2)`: exactly,
/// `1 - len * sum((b*y_i - a*x_i)^2) / (b^2 * (len * sum(y^2) - sum(y)^2))`
/// for `slope = a/b`, in fixed point at scale `R2_SCALE` (truncated toward
/// zero) and saturated below at `-DIST_CAP`.
pub open spec fn r2_fp_spec(slope: Frac, xs: Seq<u64>, ys: Seq<i64>) -> int {
    let nres = xs.len() * seq_res_sq(slope, xs, ys);
    let dres = slope.den * slope.den * (xs.len() * seq_yy(ys) - seq_y(ys) * seq_y(ys));
    crate::compare::clamp_cap(div_trunc((dres - nres) * R2_SCALE, dres))
}

/// `sum((b*y_i - a*x_i)^2)` for `slope = a/b`.
pub open spec fn seq_res_sq(slope: Frac, xs: Seq<u64>, ys: Seq<i64>) -> int
    decreases xs.len(),
{
    if xs.len() == 0 || ys.len() == 0 {
        0
    } else {
        seq_res_sq(slope, xs.drop_last(), ys.drop_last()) + (slope.den * ys.last() - slope.num
            * xs.last()) * (slope.den * ys.last() - slope.num * xs.last())
    }
}

/// Residual sums scale quadratically when numerator and denominator of
/// the slope are scaled together.
proof fn lemma_res_sq_scale(g: int, red: Frac, full: Frac, xs: Seq<u64>, ys: Seq<i64>)
    requires
        full.num == g * red.num,
        full.den == g * red.den,
    ensures
        seq_res_sq(full, xs, ys) == g * g * seq_res_sq(red, xs, ys),
    decreases xs.len(),
{
    if xs.len() == 0 || ys.len() == 0 {
        assert(g * g * 0 == 0) by (nonlinear_arith);
    } else {
        lemma_res_sq_scale(g, red, full, xs.drop_last(), ys.drop_last());
        let x = xs.last();
        let y = ys.last();
        let dr = red.den * y - red.num * x;
        assert(full.den * y - full.num * x == g * dr) by (nonlinear_arith)
            requires
                full.num == g * red.num,
                full.den == g * red.den,
                dr == red.den * y - red.num * x,
        ;
        assert((g * dr) * (g * dr) == g * g * (dr * dr)) by (nonlinear_arith);
        assert(g * g * (seq_res_sq(red, xs.drop_last(), ys.drop_last()) + dr * dr) == g * g
            * seq_res_sq(red, xs.drop_last(), ys.drop_last()) + g * g * (dr * dr))
            by (nonlinear_arith);
    }
}

/// The coefficient of determination is invariant under reducing the slope
/// fraction: `a/b` and `(a/g)/(b/g)` give the same fixed-point result.
proof fn lemma_r2_fp_spec_scale(g: int, red: Frac, full: Frac, xs: Seq<u64>, ys: Seq<i64>)
    requires
        g >= 1,
        full.num == g * red.num,
        full.den == g * red.den,
        red.den >= 1,
        1 <= xs.len(),
        xs.len() == ys.len(),
        xs.len() * seq_yy(ys) - seq_y(ys) * seq_y(ys) >= 1,
    ensures
        r2_fp_spec(full, xs, ys) == r2_fp_spec(red, xs, ys),
{
    lemma_res_sq_scale(g, red, full, xs, ys);
    let n = xs.len() as int;
    let res_r = seq_res_sq(red, xs, ys);
    let tot = n * seq_yy(ys) - seq_y(ys) * seq_y(ys);
    let nres_r = n * res_r;
    let dres_r = red.den * red.den * tot;
    assert(n * (g * g * res_r) == g * g * nres_r) by (nonlinear_arith)
        requires
            nres_r == n * res_r,
    ;
    assert(full.den * full.den * tot == g * g * dres_r) by (nonlinear_arith)
        requires
            full.den == g * red.den,
            dres_r == red.den * red.den * tot,
    ;
    assert(dres_r >= 1) by (nonlinear_arith)
        requires
            red.den >= 1,
            tot >= 1,
            dres_r == red.den * red.den * tot,
    ;
    assert(g * g >= 1) by (nonlinear_arith)
        requires
            g >= 1,
    ;
    assert((g * g * dres_r - g * g * nres_r) * R2_SCALE == (g * g) * ((dres_r - nres_r)
        * R2_SCALE)) by (nonlinear_arith);
    crate::frac::lemma_div_trunc_scale(g * g, (dres_r - nres_r) * R2_SCALE, dres_r);
    assert((g * g) * ((dres_r - nres_r) * R2_SCALE) == ((g * g * dres_r) - (g * g * nres_r))
        * R2_SCALE) by (nonlinear_arith);
    assert((g * g) * dres_r == g * g * dres_r) by (nonlinear_arith);
}

/// The slope fraction with numerator and denominator divided by their
/// greatest common divisor.
pub open spec fn r2_reduced(slope: Frac) -> Frac {
    let g = gcd_spec(crate::sample::abs_i(slope.num as int), slope.den as int);
    Frac {
        num: div_trunc(slope.num as int, g) as i64,
        den: (slope.den as int / g) as i64,
    }
}

/// Computes the coefficient of determination for any slope value (point
/// estimate or interval bound). The slope fraction is first reduced by
/// its greatest common divisor, which does not change the result; a
/// fraction still out of the arithmetic's range after reduction is
/// rejected.
///
/// Fails with `InvalidInput` when the pairs are out of the accepted
/// domain or the reduced slope still exceeds it, and with
/// `DegenerateInput` when every `y_i` is equal (the total sum of squares
/// is zero).
pub fn r_squared(slope: &Frac, xs: &Vec<u64>, ys: &Vec<i64>) -> (r: Result<Frac, Error>)
    requires
        slope.wf(),
    ensures
        match r {
            Ok(v) => {
                &&& r2_pairs_ok(xs@, ys@)
                &&& r2_slope_ok(r2_reduced(*slope))
                &&& xs@.len() * seq_yy(ys@) != seq_y(ys@) * seq_y(ys@)
                &&& v.den == R2_SCALE
                &&& v.num == r2_fp_spec(*slope, xs@, ys@)
                &&& v.wf()
            },
            Err(e) => {
                if !r2_pairs_ok(xs@, ys@) {
                    e == Error::InvalidInput
                } else if !r2_slope_ok(r2_reduced(*slope)) {
                    e == Error::InvalidInput
                } else {
                    e == Error::DegenerateInput && xs@.len() * seq_yy(ys@) == seq_y(ys@) * seq_y(
                        ys@,
                    )
                }
            },
        },
{
    if xs.len() != ys.len() || xs.len() < 1 || xs.len() > MAX_LEN {
        return Err(Error::InvalidInput);
    }
    let mut i: usize = 0;
    while i < xs.len()
        invariant
            xs@.len() == ys@.len(),
            i <= xs@.len(),
            forall|k: int| 0 <= k < i ==> #[trigger] xs@[k] <= 1024,
            forall|k: int| 0 <= k < i ==> -0x400_0000 <= #[trigger] ys@[k] <= 0x400_0000,
        decreases xs@.len() - i,
    {
        if xs[i] > 1024 || ys[i] < -0x400_0000 || ys[i] > 0x400_0000 {
            return Err(Error::InvalidInput);
        }
        i = i + 1;
    }
    proof {
        assert(counts_bounded(xs@, 0)) by {
            assert(forall|k: int| 0 <= k < xs@.len() ==> #[trigger] xs@[k] <= 1024);
        }
    }
    let mag: i128 = if slope.num < 0 {
        -(slope.num as i128)
    } else {
        slope.num as i128
    };
    let g = gcd_i128(mag, slope.den as i128);
    let rn128 = div_trunc_i128(slope.num as i128, g);
    let rd128 = (slope.den as i128) / g;
    proof {
        // Exact divisibility: the original fraction is g times the
        // reduced one.
        vstd::arithmetic::div_mod::lemma_fundamental_div_mod(mag as int, g as int);
        vstd::arithmetic::div_mod::lemma_fundamental_div_mod(slope.den as int, g as int);
        assert(mag == g * (mag / g)) by (nonlinear_arith)
            requires
                mag as int == g * (mag as int / g as int) + mag as int % g as int,
                mag as int % g as int == 0,
        ;
        assert(slope.den == g * rd128) by (nonlinear_arith)
            requires
                slope.den as int == g * (slope.den as int / g as int) + slope.den as int % g
                    as int,
                slope.den as int % g as int == 0,
                rd128 == slope.den as int / g as int,
        ;
        assert(rd128 >= 1) by (nonlinear_arith)
            requires
                slope.den == g * rd128,
                slope.den >= 1,
                1 <= g <= slope.den,
        ;
        if slope.num >= 0 {
            assert(rn128 == mag as int / g as int);
            assert(slope.num == g * rn128) by (nonlinear_arith)
                requires
                    mag == g * (mag / g),
                    rn128 == mag as int / g as int,
                    slope.num == mag,
            ;
        } else {
            assert(rn128 == -(mag as int / g as int));
            assert(slope.num == g * rn128) by (nonlinear_arith)
                requires
                    mag == g * (mag / g),
                    rn128 == -(mag as int / g as int),
                    slope.num == -mag,
            ;
        }
        assert(mag as int == crate::sample::abs_i(slope.num as int));
    }
    let reduced = Frac { num: rn128 as i64, den: rd128 as i64 };
    proof {
        assert(reduced == r2_reduced(*slope));
    }
    if reduced.num < -0x1_0000_0000 || reduced.num > 0x1_0000_0000 || reduced.den > 65_536 {
        return Err(Error::InvalidInput);
    }
    let n: i128 = xs.len() as i128;
    let (ssq, sy, syy) = r2_sums(&reduced, xs, ys);
    let a: i128 = reduced.num as i128;
    let b: i128 = reduced.den as i128;
    proof {
        assert(0 <= n * ssq <= 0x400_0000_0000_0000_0000_0000_0000) by (nonlinear_arith)
            requires
                0 <= ssq <= 0x1_0000_0000_0000_0000_0000_0000,
                1 <= n <= 1024,
        ;
        assert(1 <= b * b <= 0x1_0000_0000) by (nonlinear_arith)
            requires
                1 <= b <= 65_536,
        ;
        assert(0 <= sy * sy <= 0x1000_0000_0000_0000_0000) by (nonlinear_arith)
            requires
                -0x10_0000_0000 <= sy <= 0x10_0000_0000,
        ;
        assert(0 <= n * syy <= 0x1000_0000_0000_0000_0000) by (nonlinear_arith)
            requires
                0 <= syy <= 0x4000_0000_0000_0000,
                1 <= n <= 1024,
        ;
    }
    let nres: i128 = n * ssq;
    let tot: i128 = n * syy - sy * sy;
    proof {
        assert(tot >= 0) by {
            lemma_tot_nonneg(ys@);
        }
    }
    if tot == 0 {
        return Err(Error::DegenerateInput);
    }
    proof {
        assert(1 <= b * b * tot <= 0x1000_0000_0000_0000_0000_0000_0000) by (nonlinear_arith)
            requires
                1 <= b * b <= 0x1_0000_0000,
                1 <= tot <= 0x1000_0000_0000_0000_0000,
        ;
    }
    let dres: i128 = b * b * tot;
    proof {
        assert(R2_SCALE == 65_536);
        assert(-0x2000_0000_0000_0000_0000_0000_0000 <= dres - nres <= 0x2000_0000_0000_0000_0000_0000_0000);
        assert(-0x2000_0000_0000_0000_0000_0000_0000_0000 <= (dres - nres) * 65_536
            <= 0x2000_0000_0000_0000_0000_0000_0000_0000) by (nonlinear_arith)
            requires
                -0x2000_0000_0000_0000_0000_0000_0000 <= dres - nres
                    <= 0x2000_0000_0000_0000_0000_0000_0000,
        ;
    }
    let scaled: i128 = (dres - nres) * (R2_SCALE as i128);
    let fp = div_trunc_i128(scaled, dres);
    let clamped: i64 = if fp > DIST_CAP as i128 {
        DIST_CAP
    } else if fp < -DIST_CAP as i128 {
        -DIST_CAP
    } else {
        fp as i64
    };
    proof {
        assert(clamped == r2_fp_spec(reduced, xs@, ys@));
        lemma_r2_fp_spec_scale(g as int, reduced, *slope, xs@, ys@);
    }
    Ok(Frac { num: clamped, den: R2_SCALE })
}

/// `len * sum(y^2) - sum(y)^2` is nonnegative (Cauchy-Schwarz for the
/// all-ones vector).
#[verifier::spinoff_prover]
#[verifier::rlimit(50)]
proof fn lemma_tot_nonneg(ys: Seq<i64>)
    ensures
        ys.len() * seq_yy(ys) - seq_y(ys) * seq_y(ys) >= 0,
    decreases ys.len(),
{
    if ys.len() == 0 {
    } else {
        let pre = ys.drop_last();
        lemma_tot_nonneg(pre);
        let k = pre.len() as int;
        let s = seq_y(pre);
        let q = seq_yy(pre);
        let y = ys.last() as int;
        if k == 0 {
            assert(s == 0 && q == 0);
        } else {
            assert((k + 1) * (q + y * y) - (s + y) * (s + y) == (k * q - s * s) + (k * y * y + q - 2
                * s * y)) by (nonlinear_arith);
            assert(k * (k * y * y + q - 2 * s * y) == (k * y - s) * (k * y - s) + (k * q - s * s))
                by (nonlinear_arith);
            assert((k * y - s) * (k * y - s) >= 0) by (nonlinear_arith);
            assert(k * (k * y * y + q - 2 * s * y) >= 0);
            assert(k * y * y + q - 2 * s * y >= 0) by (nonlinear_arith)
                requires
                    k >= 1,
                    k * (k * y * y + q - 2 * s * y) >= 0,
            ;
        }
    }
}

/// Sums needed by `r_squared`: the residual sum of squares at the given
/// slope, `sum(y)`, and `sum(y^2)`.
fn r2_sums(slope: &Frac, xs: &Vec<u64>, ys: &Vec<i64>) -> (r: (i128, i128, i128))
    requires
        slope.wf(),
        r2_slope_ok(*slope),
        r2_pairs_ok(xs@, ys@),
    ensures
        r.0 == seq_res_sq(*slope, xs@, ys@),
        r.1 == seq_y(ys@),
        r.2 == seq_yy(ys@),
        0 <= r.0 <= 0x1_0000_0000_0000_0000_0000_0000,
        -0x10_0000_0000 <= r.1 <= 0x10_0000_0000,
        0 <= r.2 <= 0x4000_0000_0000_0000,
{
    let a: i128 = slope.num as i128;
    let b: i128 = slope.den as i128;
    let mut ssq: i128 = 0;
    let mut sy: i128 = 0;
    let mut syy: i128 = 0;
    assert(xs@.subrange(0, 0) =~= Seq::<u64>::empty());
    assert(ys@.subrange(0, 0) =~= Seq::<i64>::empty());
    for i in 0..xs.len()
        invariant
            r2_pairs_ok(xs@, ys@),
            a == slope.num,
            b == slope.den,
            r2_slope_ok(*slope),
            ssq == seq_res_sq(*slope, xs@.subrange(0, i as int), ys@.subrange(0, i as int)),
            sy == seq_y(ys@.subrange(0, i as int)),
            syy == seq_yy(ys@.subrange(0, i as int)),
            0 <= ssq <= (i as int) * 0x40_0000_0000_0000_0000_0000,
            -(i as int) * 0x400_0000 <= sy <= (i as int) * 0x400_0000,
            0 <= syy <= (i as int) * 0x10_0000_0000_0000,
    {
        let x = xs[i];
        let y = ys[i];
        proof {
            assert(-0x400_0000_0000 <= b * (y as i128) <= 0x400_0000_0000 && -0x400_0000_0000 <= a
                * (x as i128) <= 0x400_0000_0000 && b * (y as i128) - a * (x as i128) == b * y - a
                * x && 0 <= (y as i128) * (y as i128) <= 0x10_0000_0000_0000 && (y as i128) * (y
                as i128) == y * y) by (nonlinear_arith)
                requires
                    0 <= x <= 1024,
                    -0x400_0000 <= y <= 0x400_0000,
                    -0x1_0000_0000 <= a <= 0x1_0000_0000,
                    1 <= b <= 65_536,
            ;
            let prex = xs@.subrange(0, i as int);
            let postx = xs@.subrange(0, i as int + 1);
            let prey = ys@.subrange(0, i as int);
            let posty = ys@.subrange(0, i as int + 1);
            assert(postx.drop_last() =~= prex);
            assert(posty.drop_last() =~= prey);
        }
        let d: i128 = b * (y as i128) - a * (x as i128);
        proof {
            assert(0 <= d * d <= 0x40_0000_0000_0000_0000_0000) by (nonlinear_arith)
                requires
                    -0x800_0000_0000 <= d <= 0x800_0000_0000,
            ;
        }
        ssq = ssq + d * d;
        sy = sy + (y as i128);
        syy = syy + (y as i128) * (y as i128);
    }
    proof {
        assert(xs@.subrange(0, xs@.len() as int) =~= xs@);
        assert(ys@.subrange(0, ys@.len() as int) =~= ys@);
    }
    (ssq, sy, syy)
}

/// `(rx, ry)` is one joint resample of the pairs `(xs, ys)`: whole pairs
/// are drawn together with replacement (never x and y independently).
pub open spec fn is_joint_resample(
    xs: Seq<u64>,
    ys: Seq<i64>,
    rx: Seq<u64>,
    ry: Seq<i64>,
) -> bool {
    &&& rx.len() == xs.len()
    &&& ry.len() == xs.len()
    &&& exists|ix: Seq<int>|
        #![trigger ix.len()]
        ix.len() == xs.len() && forall|j: int|
            0 <= j < ix.len() ==> (0 <= #[trigger] ix[j] < xs.len() && rx[j] == xs[ix[j]] && ry[j]
                == ys[ix[j]])
}

/// The fixed-point slope (scale `SLOPE_SCALE`, saturated at `DIST_CAP`)
/// refit on the pair sequences `(rx, ry)`.
pub open spec fn slope_fp_of(rx: Seq<u64>, ry: Seq<i64>) -> int {
    crate::compare::clamp_cap(div_trunc(seq_xy(rx, ry) * SLOPE_SCALE, seq_xx(rx)))
}

/// `v` is the slope refit on some joint resample of the pairs.
pub open spec fn slope_value_of(v: i64, xs: Seq<u64>, ys: Seq<i64>) -> bool {
    exists|rx: Seq<u64>, ry: Seq<i64>|
        #![trigger is_joint_resample(xs, ys, rx, ry)]
        is_joint_resample(xs, ys, rx, ry) && v == slope_fp_of(rx, ry)
}

/// Every value of `vs` is a refit slope of some joint resample.
pub open spec fn all_slope_values(vs: Seq<i64>, xs: Seq<u64>, ys: Seq<i64>) -> bool {
    forall|k: int| 0 <= k < vs.len() ==> slope_value_of(#[trigger] vs[k], xs, ys)
}

/// Appending one more refit slope keeps the per-value guarantee.
proof fn lemma_all_slope_values_push(xs: Seq<u64>, ys: Seq<i64>, vs: Seq<i64>, v: i64)
    requires
        all_slope_values(vs, xs, ys),
        slope_value_of(v, xs, ys),
    ensures
        all_slope_values(vs.push(v), xs, ys),
{
    assert forall|k: int| 0 <= k < vs.push(v).len() implies slope_value_of(
        #[trigger] vs.push(v)[k],
        xs,
        ys,
    ) by {
        if k < vs.len() {
            assert(vs.push(v)[k] == vs[k]);
        } else {
            assert(vs.push(v)[k] == v);
        }
    }
}

/// Per-value facts survive the sorting a `Distribution` performs.
pub proof fn lemma_slope_values_permuted(
    xs: Seq<u64>,
    ys: Seq<i64>,
    orig: Seq<i64>,
    perm: Seq<i64>,
)
    requires
        perm.to_multiset() == orig.to_multiset(),
        perm.len() == orig.len(),
        all_slope_values(orig, xs, ys),
    ensures
        all_slope_values(perm, xs, ys),
{
    crate::sort::lemma_permutation_preserves_pred(orig, perm, |v: i64| slope_value_of(v, xs, ys));
}

/// Bootstraps the slope by resampling `(x, y)` pairs jointly and refitting
/// each resample, returning one fixed-point slope (scale `SLOPE_SCALE`,
/// saturated at `DIST_CAP`) per resample.
///
/// Fails with `InvalidInput` on an out-of-domain input and with
/// `DegenerateInput` when some `x_i` is zero (every joint resample must be
/// fittable).
pub fn bootstrap_slope(
    xs: &Vec<u64>,
    ys: &Vec<i64>,
    nresamples: usize,
    resampler: &mut Resampler,
) -> (r: Result<Vec<i64>, Error>)
    requires
        nresamples <= MAX_RESAMPLES,
    ensures
        match r {
            Ok(vals) => {
                &&& valid_pairs(xs@, ys@)
                &&& counts_bounded(xs@, 1)
                &&& vals@.len() == nresamples
                &&& bounded(vals@, DIST_CAP as int)
                &&& all_slope_values(vals@, xs@, ys@)
            },
            Err(e) => {
                if !valid_pairs(xs@, ys@) {
                    e == Error::InvalidInput
                } else {
                    e == Error::DegenerateInput && !counts_bounded(xs@, 1)
                }
            },
        },
{
    if xs.len() != ys.len() || xs.len() < 1 || xs.len() > MAX_LEN {
        return Err(Error::InvalidInput);
    }
    let mut i: usize = 0;
    while i < xs.len()
        invariant
            xs@.len() == ys@.len(),
            i <= xs@.len(),
            forall|k: int| 0 <= k < i ==> #[trigger] xs@[k] <= MAX_ITERS,
            forall|k: int| 0 <= k < i ==> -MAX_TIME <= #[trigger] ys@[k] <= MAX_TIME,
            forall|k: int|
                0 <= k < i ==> -MAX_XY <= #[trigger] pair_area(xs@[k], ys@[k]) <= MAX_XY,
        decreases xs@.len() - i,
    {
        if xs[i] > MAX_ITERS || ys[i] < -MAX_TIME || ys[i] > MAX_TIME {
            return Err(Error::InvalidInput);
        }
        proof {
            assert(-0x4000_0000_0000_0000 <= (xs@[i as int] as int) * (ys@[i as int] as int)
                <= 0x4000_0000_0000_0000) by (nonlinear_arith)
                requires
                    0 <= xs@[i as int] <= MAX_ITERS,
                    -MAX_TIME <= ys@[i as int] <= MAX_TIME,
            ;
        }
        let prod: i128 = (xs[i] as i128) * (ys[i] as i128);
        if prod < -MAX_XY as i128 || prod > MAX_XY as i128 {
            proof {
                assert(pair_area(xs@[i as int], ys@[i as int]) == prod as int);
            }
            return Err(Error::InvalidInput);
        }
        i = i + 1;
    }
    let mut i: usize = 0;
    while i < xs.len()
        invariant
            valid_pairs(xs@, ys@),
            i <= xs@.len(),
            forall|k: int| 0 <= k < i ==> 1 <= #[trigger] xs@[k],
        decreases xs@.len() - i,
    {
        if xs[i] == 0 {
            return Err(Error::DegenerateInput);
        }
        i = i + 1;
    }
    let n = xs.len();
    let mut out: Vec<i64> = Vec::new();
    for k in 0..nresamples
        invariant
            valid_pairs(xs@, ys@),
            counts_bounded(xs@, 1),
            n == xs@.len(),
            out@.len() == k,
            bounded(out@, DIST_CAP as int),
            all_slope_values(out@, xs@, ys@),
    {
        let indices = resampler.resample_indices(n);
        let mut rxs: Vec<u64> = Vec::new();
        let mut rys: Vec<i64> = Vec::new();
        for j in 0..n
            invariant
                valid_pairs(xs@, ys@),
                counts_bounded(xs@, 1),
                n == xs@.len(),
                indices@.len() == n,
                forall|m: int| 0 <= m < indices@.len() ==> #[trigger] indices@[m] < n,
                rxs@.len() == j,
                rys@.len() == j,
                counts_bounded(rxs@, 1),
                bounded(rys@, MAX_TIME as int),
                rxs@.len() == rys@.len(),
                forall|m: int|
                    0 <= m < j ==> (rxs@[m] == xs@[#[trigger] indices@[m] as int] && rys@[m]
                        == ys@[indices@[m] as int]),
                forall|m: int|
                    0 <= m < j ==> -MAX_XY <= #[trigger] pair_area(rxs@[m], rys@[m]) <= MAX_XY,
            decreases n - j,
        {
            let idx = indices[j];
            rxs.push(xs[idx]);
            rys.push(ys[idx]);
        }
        proof {
            assert forall|m: int| 0 <= m < rxs@.len() implies -MAX_XY <= #[trigger] pair_area(
                rxs@[m],
                rys@[m],
            ) <= MAX_XY by {
                assert(0 <= indices@[m] < n);
                assert(-MAX_XY <= pair_area(xs@[indices@[m] as int], ys@[indices@[m] as int])
                    <= MAX_XY);
            }
            assert(valid_pairs(rxs@, rys@));
            let ix = Seq::new(n as nat, |j: int| indices@[j] as int);
            assert(ix.len() == xs@.len());
            assert(forall|j: int|
                0 <= j < ix.len() ==> (0 <= #[trigger] ix[j] < xs@.len() && rxs@[j] == xs@[ix[j]]
                    && rys@[j] == ys@[ix[j]]));
            assert(is_joint_resample(xs@, ys@, rxs@, rys@));
        }
        let (p, q) = dot_sums(&rxs, &rys);
        proof {
            lemma_all_positive_xx(rxs@);
        }
        let scaled: i128 = p * (SLOPE_SCALE as i128);
        let fp = div_trunc_i128(scaled, q);
        let clamped: i64 = if fp > DIST_CAP as i128 {
            DIST_CAP
        } else if fp < -DIST_CAP as i128 {
            -DIST_CAP
        } else {
            fp as i64
        };
        proof {
            assert(clamped == slope_fp_of(rxs@, rys@));
            assert(slope_value_of(clamped, xs@, ys@));
            lemma_all_slope_values_push(xs@, ys@, out@, clamped);
        }
        out.push(clamped);
        proof {
            assert(all_slope_values(out@, xs@, ys@));
        }
    }
    Ok(out)
}

/// With every count at least one, the sum of squares is at least one.
pub proof fn lemma_all_positive_xx(xs: Seq<u64>)
    requires
        xs.len() >= 1,
        counts_bounded(xs, 1),
    ensures
        seq_xx(xs) >= 1,
    decreases xs.len(),
{
    assert(xs[xs.len() - 1] >= 1);
    let y = xs.last() as int;
    assert(y * y >= 1) by (nonlinear_arith)
        requires
            y >= 1,
    ;
    if xs.len() > 1 {
        assert(counts_bounded(xs.drop_last(), 1));
        lemma_all_positive_xx(xs.drop_last());
    } else {
        assert(seq_xx(xs.drop_last()) == 0);
    }
    assert(seq_xx(xs) == seq_xx(xs.drop_last()) + y * y);
}

} // verus!
