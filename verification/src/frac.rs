//! Exact rational values.
//!
//! Statistics that are intrinsically fractional (a mean, an interpolated
//! percentile, a relative change) are carried as a numerator/denominator
//! pair of `i64` values with a positive denominator. Comparisons
//! cross-multiply in 128-bit arithmetic, which can never overflow for
//! 64-bit operands, so a `Frac` needs no magnitude invariant beyond its
//! field types.

use vstd::prelude::*;

verus! {

/// An exact rational number `num / den` with `den >= 1`.
#[derive(Clone, Copy, Debug, PartialEq, Eq, Structural)]
pub struct Frac {
    pub num: i64,
    pub den: i64,
}

impl Frac {
    /// A denominator of at least one makes the value well defined.
    pub open spec fn wf(self) -> bool {
        self.den >= 1
    }

    /// Mathematical order: `a <= b` as rationals.
    pub open spec fn spec_le(self, other: Frac) -> bool {
        self.num * other.den <= other.num * self.den
    }

    /// Mathematical strict order.
    pub open spec fn spec_lt(self, other: Frac) -> bool {
        self.num * other.den < other.num * self.den
    }

    pub fn new(num: i64, den: i64) -> (r: Frac)
        requires
            den >= 1,
        ensures
            r.num == num,
            r.den == den,
            r.wf(),
    {
        Frac { num, den }
    }

    /// Decides the rational order by cross-multiplication.
    pub fn le(&self, other: &Frac) -> (r: bool)
        requires
            self.wf(),
            other.wf(),
        ensures
            r == self.spec_le(*other),
    {
        proof {
            lemma_i64_mul_fits(self.num as int, other.den as int);
            lemma_i64_mul_fits(other.num as int, self.den as int);
        }
        (self.num as i128) * (other.den as i128) <= (other.num as i128) * (self.den as i128)
    }

    /// Decides the strict rational order by cross-multiplication.
    pub fn lt(&self, other: &Frac) -> (r: bool)
        requires
            self.wf(),
            other.wf(),
        ensures
            r == self.spec_lt(*other),
    {
        proof {
            lemma_i64_mul_fits(self.num as int, other.den as int);
            lemma_i64_mul_fits(other.num as int, self.den as int);
        }
        (self.num as i128) * (other.den as i128) < (other.num as i128) * (self.den as i128)
    }
}

/// The product of two 64-bit values always fits in 128 bits.
pub proof fn lemma_i64_mul_fits(a: int, b: int)
    by (nonlinear_arith)
    requires
        -0x8000_0000_0000_0000 <= a <= 0x7fff_ffff_ffff_ffff,
        -0x8000_0000_0000_0000 <= b <= 0x7fff_ffff_ffff_ffff,
    ensures
        i128::MIN <= a * b <= i128::MAX,
{
}

/// With a common denominator, the order of the numerators is the order of
/// the values.
pub proof fn lemma_frac_le_of_same_den(a: Frac, b: Frac)
    by (nonlinear_arith)
    requires
        a.wf(),
        b.wf(),
        a.den == b.den,
        a.num <= b.num,
    ensures
        a.spec_le(b),
{
}

/// Division truncating toward zero, on a positive divisor (what this
/// crate's executable code computes; the spec-level `/` is euclidean).
pub open spec fn div_trunc(a: int, b: int) -> int {
    if a >= 0 {
        a / b
    } else {
        -((-a) / b)
    }
}

/// Computes `div_trunc` with nonnegative hardware divisions only.
pub fn div_trunc_i128(a: i128, b: i128) -> (r: i128)
    requires
        b >= 1,
        a > i128::MIN,
    ensures
        r == div_trunc(a as int, b as int),
        a >= 0 ==> 0 <= r <= a,
        a < 0 ==> a <= r <= 0,
{
    proof {
        if a >= 0 {
            assert(0 <= (a as int) / (b as int) <= a as int) by (nonlinear_arith)
                requires
                    a >= 0,
                    b >= 1,
            ;
        } else {
            assert(0 <= (-(a as int)) / (b as int) <= -(a as int)) by (nonlinear_arith)
                requires
                    a < 0,
                    b >= 1,
            ;
        }
    }
    if a >= 0 {
        a / b
    } else {
        -((-a) / b)
    }
}

/// Scaling dividend and divisor by one positive factor leaves a euclidean
/// quotient of a nonnegative dividend unchanged.
pub proof fn lemma_div_scale(c: int, x: int, y: int)
    requires
        c >= 1,
        x >= 0,
        y >= 1,
    ensures
        (c * x) / (c * y) == x / y,
{
    let q = x / y;
    let r = x % y;
    vstd::arithmetic::div_mod::lemma_fundamental_div_mod(x, y);
    vstd::arithmetic::div_mod::lemma_mod_bound(x, y);
    assert(x == q * y + r) by (nonlinear_arith)
        requires
            x == y * (x / y) + x % y,
            q == x / y,
            r == x % y,
    ;
    assert(c * x == q * (c * y) + c * r) by (nonlinear_arith)
        requires
            x == q * y + r,
    ;
    assert(0 <= c * r < c * y) by (nonlinear_arith)
        requires
            c >= 1,
            0 <= r < y,
    ;
    assert(c * y != 0) by (nonlinear_arith)
        requires
            c >= 1,
            y >= 1,
    ;
    vstd::arithmetic::div_mod::lemma_fundamental_div_mod_converse(c * x, c * y, q, c * r);
}

/// The same, for truncating division of either sign.
pub proof fn lemma_div_trunc_scale(c: int, x: int, y: int)
    requires
        c >= 1,
        y >= 1,
    ensures
        div_trunc(c * x, c * y) == div_trunc(x, y),
{
    assert(c * y >= 1) by (nonlinear_arith)
        requires
            c >= 1,
            y >= 1,
    ;
    if x >= 0 {
        assert(c * x >= 0) by (nonlinear_arith)
            requires
                c >= 1,
                x >= 0,
        ;
        lemma_div_scale(c, x, y);
    } else {
        assert(c * x < 0 && -(c * x) == c * (-x)) by (nonlinear_arith)
            requires
                c >= 1,
                x < 0,
        ;
        lemma_div_scale(c, -x, y);
    }
}

/// A truncated division of an exact multiple recovers the factor.
pub proof fn lemma_div_trunc_multiple(a: int, q: int)
    requires
        q >= 1,
    ensures
        div_trunc(a * q, q) == a,
{
    if a >= 0 {
        assert(a * q >= 0) by (nonlinear_arith)
            requires
                a >= 0,
                q >= 1,
        ;
        vstd::arithmetic::div_mod::lemma_div_by_multiple(a, q);
    } else {
        assert(a * q < 0 && -(a * q) == (-a) * q) by (nonlinear_arith)
            requires
                a < 0,
                q >= 1,
        ;
        vstd::arithmetic::div_mod::lemma_div_by_multiple(-a, q);
    }
}

} // verus!