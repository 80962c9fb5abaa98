//! A 2D fixed-point vector: a point or a direction with an x and a y
//! coordinate, with componentwise arithmetic, magnitude and normalization.

use vstd::prelude::*;
use crate::fixed::{
    add_sat, clamp128, clamped, div_scaled, div_trunc, div_trunc128, isqrt_u128,
    lemma_sqrt_floor_is, mul_scaled, mul_wide, neg_sat, sqrt_floor, square_wide, sub_sat, LIMIT,
    SCALE,
};

verus! {

/// A point or a direction in the plane, in fixed-point steps.
#[derive(Clone, Copy, Debug, PartialEq, Eq, Structural)]
pub struct Vector2 {
    pub x: i64,
    pub y: i64,
}

/// Componentwise saturating sum.
pub open spec fn spec_add(a: Vector2, b: Vector2) -> Vector2 {
    Vector2 { x: clamped(a.x + b.x), y: clamped(a.y + b.y) }
}

/// Componentwise saturating difference.
pub open spec fn spec_sub(a: Vector2, b: Vector2) -> Vector2 {
    Vector2 { x: clamped(a.x - b.x), y: clamped(a.y - b.y) }
}

/// Componentwise saturating negation.
pub open spec fn spec_neg(a: Vector2) -> Vector2 {
    Vector2 { x: clamped(-a.x), y: clamped(-a.y) }
}

/// Componentwise saturating fixed-point product.
pub open spec fn spec_mul(a: Vector2, b: Vector2) -> Vector2 {
    Vector2 {
        x: clamped(div_trunc(a.x * b.x, SCALE as int)),
        y: clamped(div_trunc(a.y * b.y, SCALE as int)),
    }
}

/// Componentwise saturating fixed-point quotient.
pub open spec fn spec_div(a: Vector2, b: Vector2) -> Vector2 {
    Vector2 {
        x: clamped(div_trunc(a.x * SCALE, b.x as int)),
        y: clamped(div_trunc(a.y * SCALE, b.y as int)),
    }
}

/// Saturating fixed-point product with a scalar.
pub open spec fn spec_scalar_mul(a: Vector2, s: i64) -> Vector2 {
    Vector2 {
        x: clamped(div_trunc(a.x * s, SCALE as int)),
        y: clamped(div_trunc(a.y * s, SCALE as int)),
    }
}

/// Saturating fixed-point quotient by a scalar.
pub open spec fn spec_scalar_div(a: Vector2, s: i64) -> Vector2 {
    Vector2 {
        x: clamped(div_trunc(a.x * SCALE, s as int)),
        y: clamped(div_trunc(a.y * SCALE, s as int)),
    }
}

/// Saturating fixed-point scalar (dot) product.
pub open spec fn spec_dot(a: Vector2, b: Vector2) -> i64 {
    clamped(div_trunc(a.x * b.x + a.y * b.y, SCALE as int))
}

/// Squared magnitude, exact (in raw steps squared).
pub open spec fn mag2(a: Vector2) -> int {
    a.x * a.x + a.y * a.y
}

/// Magnitude: the integer square root of the squared magnitude, saturated.
pub open spec fn spec_mag(a: Vector2) -> i64 {
    clamped(sqrt_floor(mag2(a)))
}

/// Normalization: scale the vector to unit length (`SCALE` raw steps).
/// A zero vector stays the zero vector; nothing is divided by zero.
pub open spec fn spec_norm(a: Vector2) -> Vector2 {
    if mag2(a) == 0 {
        a
    } else {
        let m: int = sqrt_floor(mag2(a));
        Vector2 {
            x: clamped(div_trunc(a.x * SCALE, m)),
            y: clamped(div_trunc(a.y * SCALE, m)),
        }
    }
}

impl Vector2 {
    /// Build a vector from its raw fixed-point coordinates.
    pub fn new(x: i64, y: i64) -> (r: Vector2)
        ensures
            r == (Vector2 { x, y }),
    {
        Vector2 { x, y }
    }

    /// The zero vector.
    pub fn zero() -> (r: Vector2)
        ensures
            r == (Vector2 { x: 0i64, y: 0i64 }),
    {
        Vector2 { x: 0, y: 0 }
    }

    /// Componentwise sum.
    pub fn add(self, rhs: Vector2) -> (r: Vector2)
        ensures
            r == spec_add(self, rhs),
    {
        Vector2 { x: add_sat(self.x, rhs.x), y: add_sat(self.y, rhs.y) }
    }

    /// Componentwise difference.
    pub fn sub(self, rhs: Vector2) -> (r: Vector2)
        ensures
            r == spec_sub(self, rhs),
    {
        Vector2 { x: sub_sat(self.x, rhs.x), y: sub_sat(self.y, rhs.y) }
    }

    /// Componentwise negation.
    pub fn neg(self) -> (r: Vector2)
        ensures
            r == spec_neg(self),
    {
        Vector2 { x: neg_sat(self.x), y: neg_sat(self.y) }
    }

    /// Componentwise fixed-point product.
    pub fn mul(self, rhs: Vector2) -> (r: Vector2)
        ensures
            r == spec_mul(self, rhs),
    {
        Vector2 { x: mul_scaled(self.x, rhs.x), y: mul_scaled(self.y, rhs.y) }
    }

    /// Componentwise fixed-point quotient.
    pub fn div(self, rhs: Vector2) -> (r: Vector2)
        requires
            rhs.x != 0,
            rhs.y != 0,
        ensures
            r == spec_div(self, rhs),
    {
        Vector2 { x: div_scaled(self.x, rhs.x), y: div_scaled(self.y, rhs.y) }
    }

    /// Fixed-point product with a scalar.
    pub fn scalar_mul(self, s: i64) -> (r: Vector2)
        ensures
            r == spec_scalar_mul(self, s),
    {
        Vector2 { x: mul_scaled(self.x, s), y: mul_scaled(self.y, s) }
    }

    /// Fixed-point quotient by a scalar.
    pub fn scalar_div(self, s: i64) -> (r: Vector2)
        requires
            s != 0,
        ensures
            r == spec_scalar_div(self, s),
    {
        Vector2 { x: div_scaled(self.x, s), y: div_scaled(self.y, s) }
    }

    /// Get the scalar (dot) product of this vector and `rhs`: each
    /// coordinate multiplied with the opposite coordinate, added together.
    pub fn scalar(self, rhs: Vector2) -> (r: i64)
        ensures
            r == spec_dot(self, rhs),
    {
        let p1: i128 = mul_wide(self.x, rhs.x);
        let p2: i128 = mul_wide(self.y, rhs.y);
        if p1 > 0 && p2 > 0 && p1 > i128::MAX - p2 {
            // The sum can only exceed `i128` at its very top; the scaled
            // quotient then saturates in any case.
            proof {
                assert(div_trunc(self.x * rhs.x + self.y * rhs.y, SCALE as int) > LIMIT)
                    by (nonlinear_arith)
                    requires
                        self.x * rhs.x + self.y * rhs.y > i128::MAX,
                        self.x * rhs.x == p1,
                        self.y * rhs.y == p2,
                        SCALE == 1000,
                ;
            }
            LIMIT
        } else {
            clamp128(div_trunc128(p1 + p2, SCALE as i128))
        }
    }

    /// Get the magnitude (length) of this vector: the square root of the
    /// scalar product of the vector with itself, in raw steps.
    pub fn mag(&self) -> (r: i64)
        ensures
            r == spec_mag(*self),
            r >= 0,
    {
        let xx: u128 = square_wide(self.x);
        let yy: u128 = square_wide(self.y);
        let s: u128 = xx + yy;
        let root: u128 = isqrt_u128(s);
        proof {
            lemma_sqrt_floor_is(mag2(*self), root as int);
        }
        clamp128(root as i128)
    }

    /// Normalize the vector: set its length to one world unit, leaving a
    /// zero vector unchanged. Returns a copy; `self` is not modified.
    pub fn norm(&self) -> (r: Vector2)
        ensures
            r == spec_norm(*self),
    {
        let xx: u128 = square_wide(self.x);
        let yy: u128 = square_wide(self.y);
        let s: u128 = xx + yy;
        if s == 0 {
            return *self;
        }
        let m: u128 = isqrt_u128(s);
        proof {
            lemma_sqrt_floor_is(mag2(*self), m as int);
            assert((s as int) < ((m as int) + 1) * ((m as int) + 1));
            if m == 0 {
                assert(((m as int) + 1) * ((m as int) + 1) == 1) by (nonlinear_arith)
                    requires
                        m == 0u128,
                ;
            }
        }
        let px: i128 = mul_wide(self.x, SCALE);
        let py: i128 = mul_wide(self.y, SCALE);
        Vector2 {
            x: clamp128(div_trunc128(px, m as i128)),
            y: clamp128(div_trunc128(py, m as i128)),
        }
    }

    /// Componentwise sum, in place.
    pub fn add_assign(&mut self, rhs: Vector2)
        ensures
            *final(self) == spec_add(*old(self), rhs),
    {
        *self = (*self).add(rhs);
    }

    /// Componentwise difference, in place.
    pub fn sub_assign(&mut self, rhs: Vector2)
        ensures
            *final(self) == spec_sub(*old(self), rhs),
    {
        *self = (*self).sub(rhs);
    }

    /// Componentwise fixed-point product, in place.
    pub fn mul_assign(&mut self, rhs: Vector2)
        ensures
            *final(self) == spec_mul(*old(self), rhs),
    {
        *self = (*self).mul(rhs);
    }

    /// Componentwise fixed-point quotient, in place.
    pub fn div_assign(&mut self, rhs: Vector2)
        requires
            rhs.x != 0,
            rhs.y != 0,
        ensures
            *final(self) == spec_div(*old(self), rhs),
    {
        *self = (*self).div(rhs);
    }
}

} // verus!
