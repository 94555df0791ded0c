//! Two-dimensional vectors of scalars.
use vstd::prelude::*;
use crate::scalar::{floor_sqrt, isqrt, saturate, saturating, scale, scaled};

verus! {

/// A point of the plane, or a displacement in it.
#[derive(Clone, Copy, Debug, PartialEq, Eq, Structural)]
pub struct Vec2 {
    pub x: i64,
    pub y: i64,
}

impl Vec2 {
    /// The sum of two vectors, each component clamped.
    pub open spec fn spec_plus(self, rhs: Vec2) -> Vec2 {
        Vec2 { x: saturate(self.x + rhs.x) as i64, y: saturate(self.y + rhs.y) as i64 }
    }

    /// The difference of two vectors, each component clamped.
    pub open spec fn spec_minus(self, rhs: Vec2) -> Vec2 {
        Vec2 { x: saturate(self.x - rhs.x) as i64, y: saturate(self.y - rhs.y) as i64 }
    }

    /// The vector stretched by the scalar `k`.
    pub open spec fn spec_scaled(self, k: i64) -> Vec2 {
        Vec2 {
            x: scaled(self.x as int, k as int) as i64,
            y: scaled(self.y as int, k as int) as i64,
        }
    }

    /// The squared length, in squared scalar units.
    pub open spec fn spec_mag_sq(self) -> int {
        self.x * self.x + self.y * self.y
    }

    /// The vector of the components `x` and `y`.
    pub fn new(x: i64, y: i64) -> (v: Vec2)
        ensures
            v == (Vec2 { x, y }),
    {
        Vec2 { x, y }
    }

    /// The vector of no length.
    pub fn zero() -> (v: Vec2)
        ensures
            v == (Vec2 { x: 0, y: 0 }),
    {
        Vec2 { x: 0, y: 0 }
    }

    /// The sum of two vectors, each component clamped.
    pub fn plus(self, rhs: Vec2) -> (v: Vec2)
        ensures
            v == self.spec_plus(rhs),
    {
        Vec2 {
            x: saturating(self.x as i128 + rhs.x as i128),
            y: saturating(self.y as i128 + rhs.y as i128),
        }
    }

    /// The difference of two vectors, each component clamped.
    pub fn minus(self, rhs: Vec2) -> (v: Vec2)
        ensures
            v == self.spec_minus(rhs),
    {
        Vec2 {
            x: saturating(self.x as i128 - rhs.x as i128),
            y: saturating(self.y as i128 - rhs.y as i128),
        }
    }

    /// The vector stretched by the scalar `k`.
    pub fn scaled_by(self, k: i64) -> (v: Vec2)
        ensures
            v == self.spec_scaled(k),
    {
        Vec2 { x: scale(self.x, k), y: scale(self.y, k) }
    }

    /// The squared length. It is exact: the square of a scalar fits in 126
    /// bits.
    pub fn mag_sq(self) -> (m: u128)
        ensures
            m == self.spec_mag_sq(),
    {
        assert(0 <= (self.x as int) * (self.x as int) <= 0x4000_0000_0000_0000_0000_0000_0000_0000)
            by (nonlinear_arith)
            requires
                -0x8000_0000_0000_0000 <= self.x as int <= 0x7fff_ffff_ffff_ffff,
        ;
        assert(0 <= (self.y as int) * (self.y as int) <= 0x4000_0000_0000_0000_0000_0000_0000_0000)
            by (nonlinear_arith)
            requires
                -0x8000_0000_0000_0000 <= self.y as int <= 0x7fff_ffff_ffff_ffff,
        ;
        let xx: i128 = (self.x as i128) * (self.x as i128);
        let yy: i128 = (self.y as i128) * (self.y as i128);
        (xx as u128) + (yy as u128)
    }

    /// The length, rounded down to a whole scalar unit.
    pub fn mag(self) -> (m: u64)
        ensures
            m == floor_sqrt(self.spec_mag_sq()),
    {
        isqrt(self.mag_sq())
    }
}

} // verus!
