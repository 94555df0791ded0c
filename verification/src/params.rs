//! The configuration of a world.
use vstd::prelude::*;
use crate::scalar::ONE;
use crate::vec2::Vec2;

verus! {

/// What happens to a particle that reaches the edge of the world.
#[derive(Clone, Copy, Debug, PartialEq, Eq, Structural)]
pub enum Boundary {
    /// The particle is pushed back inside and its velocity reflected.
    Bounce,
    /// The particle reappears at the opposite edge.
    Wrap,
}

/// A range of scalars between two bounds.
#[derive(Clone, Copy, Debug, PartialEq, Eq, Structural)]
pub struct Span {
    pub low: i64,
    pub high: i64,
}

impl Span {
    /// `v` is as a draw from the span comes out: between the bounds, and
    /// short of the high one unless the span is a single value.
    pub open spec fn draws(&self, v: int) -> bool {
        &&& self.low <= v <= self.high
        &&& self.low < self.high ==> v < self.high
    }
}

/// The configuration of a world. Every real quantity is a fixed-point
/// scalar.
#[derive(Clone, Debug)]
pub struct WorldParameters {
    /// The size of the world: its width in `x`, its height in `y`.
    pub bounds: Vec2,
    /// The mean of the strengths between kinds.
    pub attrac_mean: i64,
    /// The standard deviation of the strengths between kinds.
    pub attrac_dev: i64,
    /// Interaction range, from the low bound up to but not including the
    /// high one. Where the two are equal every range is that value.
    pub attrac_range: Span,
    /// Particle radius, from the low bound up to and including the high one.
    pub radius_range: Span,
    /// The share of its velocity that a particle loses per tick.
    pub friction: i64,
    /// What happens at the edge of the world.
    pub boundary: Boundary,
    /// The seed of the world. Empty: a fresh one is generated.
    pub seed: String,
}

impl WorldParameters {
    /// The configurations under which a simulation is defined: a world of
    /// positive size, ranges that are not negative and not reversed, and a
    /// friction from zero up to but not including one.
    pub open spec fn valid(&self) -> bool {
        &&& 0 < self.bounds.x
        &&& 0 < self.bounds.y
        &&& 0 <= self.attrac_range.low <= self.attrac_range.high
        &&& 0 <= self.radius_range.low <= self.radius_range.high
        &&& 0 <= self.friction < ONE
    }

    /// Tests whether the configuration is valid.
    pub fn is_valid(&self) -> (ok: bool)
        ensures
            ok == self.valid(),
    {
        0 < self.bounds.x && 0 < self.bounds.y && 0 <= self.attrac_range.low
            && self.attrac_range.low <= self.attrac_range.high && 0 <= self.radius_range.low
            && self.radius_range.low <= self.radius_range.high && 0 <= self.friction
            && self.friction < ONE
    }
}

} // verus!
