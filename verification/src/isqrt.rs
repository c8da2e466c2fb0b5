//! Integer square root, used for standard deviations and standard errors.

use vstd::prelude::*;

verus! {

/// `r` is the floor of the square root of `x`.
pub open spec fn is_sqrt_floor(x: int, r: int) -> bool {
    &&& r >= 0
    &&& r * r <= x
    &&& (r + 1) * (r + 1) > x
}

/// The floor of the square root, as a spec-level function.
pub open spec fn sqrt_floor(x: int) -> int {
    choose|r: int| is_sqrt_floor(x, r)
}

/// Every nonnegative integer has a floor square root.
pub proof fn lemma_sqrt_floor_exists(x: int)
    requires
        x >= 0,
    ensures
        is_sqrt_floor(x, sqrt_floor(x)),
    decreases x,
{
    if x == 0 {
        assert(is_sqrt_floor(0, 0));
    } else {
        lemma_sqrt_floor_exists(x - 1);
        let r = sqrt_floor(x - 1);
        if (r + 1) * (r + 1) <= x {
            assert(is_sqrt_floor(x, r + 1)) by (nonlinear_arith)
                requires
                    is_sqrt_floor(x - 1, r),
                    (r + 1) * (r + 1) <= x,
            ;
        } else {
            assert(is_sqrt_floor(x, r));
        }
    }
}

/// The floor square root is unique.
pub proof fn lemma_sqrt_floor_unique(x: int, r1: int, r2: int)
    by (nonlinear_arith)
    requires
        is_sqrt_floor(x, r1),
        is_sqrt_floor(x, r2),
    ensures
        r1 == r2,
{
}

/// The square of a value below 2^64 fits in 128 bits.
proof fn lemma_square_fits(m: int)
    by (nonlinear_arith)
    requires
        0 <= m < 0x1_0000_0000_0000_0000,
    ensures
        m * m <= u128::MAX,
{
}

/// 2^64 squared exceeds every 128-bit value.
proof fn lemma_top_square(x: int)
    by (nonlinear_arith)
    requires
        x <= u128::MAX,
    ensures
        0x1_0000_0000_0000_0000 * 0x1_0000_0000_0000_0000 > x,
{
}

/// Floor of the square root of a 128-bit value, by binary search.
pub fn isqrt_u128(x: u128) -> (r: u128)
    ensures
        is_sqrt_floor(x as int, r as int),
        r < 0x1_0000_0000_0000_0000,
{
    let mut lo: u128 = 0;
    let mut hi: u128 = 0x1_0000_0000_0000_0000;
    proof {
        lemma_top_square(x as int);
    }
    // The answer always lies in [lo, hi).
    while lo + 1 < hi
        invariant
            lo < hi <= 0x1_0000_0000_0000_0000,
            lo * lo <= x,
            hi * hi > x,
        decreases hi - lo,
    {
        let mid = lo + (hi - lo) / 2;
        proof {
            lemma_square_fits(mid as int);
        }
        if mid * mid <= x {
            lo = mid;
        } else {
            hi = mid;
        }
    }
    lo
}

} // verus!
