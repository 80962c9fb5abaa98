//! Saturating fixed-point arithmetic over `i64`.
//!
//! A quantity `q` stands for the real number `q / SCALE`. Every stored
//! value is kept inside `[-LIMIT, LIMIT]` by clamping; intermediate
//! products are computed in `i128`, so no operation overflows or panics.

use vstd::prelude::*;

verus! {

/// Number of fixed-point steps per world unit: the value `SCALE` is 1.0.
pub const SCALE: i64 = 1000;

/// Saturation bound on every stored coordinate, velocity, acceleration,
/// mass and stiffness.
pub const LIMIT: i64 = 0x7fff_ffff;

/// Absolute value of a mathematical integer.
pub open spec fn abs_i(v: int) -> int {
    if v < 0 {
        -v
    } else {
        v
    }
}

/// Clamp a mathematical integer into the representable band.
pub open spec fn clamped(v: int) -> i64 {
    if v > LIMIT {
        LIMIT
    } else if v < -LIMIT {
        (-LIMIT) as i64
    } else {
        v as i64
    }
}

/// Quotient rounded toward zero, the rounding the executable division uses.
pub open spec fn div_trunc(a: int, b: int) -> int
    recommends
        b != 0,
{
    let q = abs_i(a) / abs_i(b);
    if (a < 0) != (b < 0) {
        -q
    } else {
        q
    }
}

/// `r` is the integer square root of `n`, rounded down.
pub open spec fn is_sqrt_floor(n: int, r: int) -> bool {
    0 <= r && r * r <= n && n < (r + 1) * (r + 1)
}

/// The integer square root of `n`, rounded down (for `n >= 0`).
pub open spec fn sqrt_floor(n: int) -> int {
    choose|r: int| is_sqrt_floor(n, r)
}

/// The square root witness pins `sqrt_floor` down: any `r` satisfying
/// `is_sqrt_floor` is the value `sqrt_floor` denotes.
pub proof fn lemma_sqrt_floor_is(n: int, r: int)
    requires
        is_sqrt_floor(n, r),
    ensures
        sqrt_floor(n) == r,
{
    let r2: int = sqrt_floor(n);
    assert(is_sqrt_floor(n, r2));
    assert(r == r2) by (nonlinear_arith)
        requires
            is_sqrt_floor(n, r),
            is_sqrt_floor(n, r2),
    ;
}

/// Every nonnegative integer has an integer square root.
pub proof fn lemma_sqrt_floor_exists(n: int)
    requires
        n >= 0,
    ensures
        is_sqrt_floor(n, sqrt_floor(n)),
    decreases n,
{
    if n == 0 {
        assert(is_sqrt_floor(0, 0));
    } else {
        lemma_sqrt_floor_exists(n - 1);
        let r: int = sqrt_floor(n - 1);
        if n < (r + 1) * (r + 1) {
            assert(is_sqrt_floor(n, r));
        } else {
            assert(n == (r + 1) * (r + 1));
            assert(is_sqrt_floor(n, r + 1)) by (nonlinear_arith)
                requires
                    r >= 0,
                    n == (r + 1) * (r + 1),
            ;
        }
        assert(is_sqrt_floor(n, sqrt_floor(n))) by {
            let w: int = choose|i: int| is_sqrt_floor(n, i);
            lemma_sqrt_floor_is(n, w);
        }
    }
}

/// Clamp an `i128` into the representable band.
pub(crate) fn clamp128(v: i128) -> (r: i64)
    ensures
        r == clamped(v as int),
{
    if v > LIMIT as i128 {
        LIMIT
    } else if v < -(LIMIT as i128) {
        -LIMIT
    } else {
        v as i64
    }
}

/// Division rounded toward zero, computed through unsigned division.
pub(crate) fn div_trunc128(a: i128, b: i128) -> (r: i128)
    requires
        b != 0,
        a > i128::MIN,
        b > i128::MIN,
    ensures
        r == div_trunc(a as int, b as int),
        abs_i(r as int) <= abs_i(a as int),
{
    let an: u128 = if a < 0 {
        (-a) as u128
    } else {
        a as u128
    };
    let bn: u128 = if b < 0 {
        (-b) as u128
    } else {
        b as u128
    };
    let q: u128 = an / bn;
    assert(q <= an) by (nonlinear_arith)
        requires
            bn >= 1,
            q == an / bn,
    ;
    let qi: i128 = q as i128;
    if (a < 0) != (b < 0) {
        -qi
    } else {
        qi
    }
}

/// Saturating sum.
pub(crate) fn add_sat(a: i64, b: i64) -> (r: i64)
    ensures
        r == clamped(a + b),
{
    clamp128(a as i128 + b as i128)
}

/// Saturating difference.
pub(crate) fn sub_sat(a: i64, b: i64) -> (r: i64)
    ensures
        r == clamped(a - b),
{
    clamp128(a as i128 - b as i128)
}

/// Saturating negation.
pub(crate) fn neg_sat(a: i64) -> (r: i64)
    ensures
        r == clamped(-a),
{
    clamp128(-(a as i128))
}

/// Product of two `i64` values, exact in `i128`.
pub(crate) fn mul_wide(a: i64, b: i64) -> (r: i128)
    ensures
        r == a * b,
        -85070591730234615856620279821087277056 <= r
            <= 85070591730234615865843651857942052864,
{
    proof {
        assert(-85070591730234615856620279821087277056 <= a * b
            <= 85070591730234615865843651857942052864) by (nonlinear_arith)
            requires
                i64::MIN <= a <= i64::MAX,
                i64::MIN <= b <= i64::MAX,
        ;
    }
    a as i128 * b as i128
}

/// Square of an `i64`, exact in `u128`.
pub(crate) fn square_wide(a: i64) -> (r: u128)
    ensures
        r == a * a,
        r <= 0x4000_0000_0000_0000_0000_0000_0000_0000,
{
    let p: i128 = mul_wide(a, a);
    proof {
        assert(0 <= a * a <= 0x4000_0000_0000_0000_0000_0000_0000_0000) by (nonlinear_arith)
            requires
                i64::MIN <= a <= i64::MAX,
        ;
    }
    p as u128
}

/// Saturating plain product (no rescaling).
pub(crate) fn mul_sat(a: i64, b: i64) -> (r: i64)
    ensures
        r == clamped(a * b),
{
    clamp128(mul_wide(a, b))
}

/// Saturating fixed-point product: `a * b`, rescaled by `SCALE`.
pub(crate) fn mul_scaled(a: i64, b: i64) -> (r: i64)
    ensures
        r == clamped(div_trunc(a * b, SCALE as int)),
{
    let p: i128 = mul_wide(a, b);
    clamp128(div_trunc128(p, SCALE as i128))
}

/// Saturating fixed-point quotient: `a / b`, rescaled by `SCALE`.
pub(crate) fn div_scaled(a: i64, b: i64) -> (r: i64)
    requires
        b != 0,
    ensures
        r == clamped(div_trunc(a * SCALE, b as int)),
{
    let p: i128 = mul_wide(a, SCALE);
    clamp128(div_trunc128(p, b as i128))
}

/// Integer square root, rounded down, by bisection.
pub(crate) fn isqrt_u128(n: u128) -> (r: u128)
    ensures
        is_sqrt_floor(n as int, r as int),
        r < 0x1_0000_0000_0000_0000,
{
    let mut lo: u128 = 0;
    let mut hi: u128 = 0x1_0000_0000_0000_0000;
    proof {
        assert((hi as int) * (hi as int) > n as int) by (nonlinear_arith)
            requires
                hi == 0x1_0000_0000_0000_0000u128,
                n <= u128::MAX,
        ;
    }
    while lo + 1 < hi
        invariant
            lo < hi,
            hi <= 0x1_0000_0000_0000_0000,
            (lo as int) * (lo as int) <= n as int,
            (n as int) < (hi as int) * (hi as int),
        decreases hi - lo,
    {
        let mid: u128 = lo + (hi - lo) / 2;
        proof {
            assert((mid as int) * (mid as int) < u128::MAX) by (nonlinear_arith)
                requires
                    mid < 0x1_0000_0000_0000_0000u128,
            ;
        }
        if mid * mid <= n {
            lo = mid;
        } else {
            hi = mid;
        }
    }
    lo
}

} // verus!
