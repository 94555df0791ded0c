//! Particles, and how one moves in a tick once its velocity is settled.
use vstd::prelude::*;
use rand::rngs::SmallRng;
use crate::params::{Boundary, WorldParameters};
use crate::random::{draw_below, draw_between, draw_index};
use crate::scalar::{saturate, saturating, scaled, trunc_div, ONE};
use crate::vec2::Vec2;

verus! {

/// One particle of the world.
#[derive(Clone, Copy, Debug, PartialEq, Eq, Structural)]
pub struct Particle {
    /// Position.
    pub pos: Vec2,
    /// Current velocity, in scalar units per tick.
    pub vel: Vec2,
    /// Radius, fixed when the particle is made.
    pub rad: i64,
    /// The kind of the particle: a row of the kind table.
    pub kind: usize,
}

/// `p` is as a particle is made in a world of `kinds` kinds: at rest,
/// somewhere in the world short of its far edges, with a radius and a kind
/// out of the configured ones.
pub open spec fn fresh(p: Particle, params: WorldParameters, kinds: nat) -> bool {
    &&& 0 <= p.pos.x < params.bounds.x
    &&& 0 <= p.pos.y < params.bounds.y
    &&& p.vel == (Vec2 { x: 0, y: 0 })
    &&& params.radius_range.low <= p.rad <= params.radius_range.high
    &&& p.kind < kinds
}

/// How far from a wall a bouncing particle of radius `rad` is kept: the
/// square of the radius.
pub open spec fn margin(rad: int) -> int {
    saturate(trunc_div(rad * rad, ONE as int))
}

/// The factor by which a wall scales the velocity that it reflects: friction
/// counts four times there.
pub open spec fn wall_damping(friction: int) -> int {
    ONE - 4 * friction
}

/// One coordinate, and the velocity along it, after the walls at `margin`
/// and at `bound - margin` have acted.
pub open spec fn bounced(pos: int, vel: int, margin: int, bound: int, damping: int) -> (int, int) {
    if pos <= margin {
        (margin, scaled(-vel, damping))
    } else if pos >= bound - margin {
        (bound - margin, scaled(-vel, damping))
    } else {
        (pos, vel)
    }
}

/// One coordinate after wrapping around a world that reaches from zero to
/// `bound`.
pub open spec fn wrapped(pos: int, bound: int) -> int {
    if pos < 0 {
        bound
    } else if pos > bound {
        0
    } else {
        pos
    }
}

/// The particle one tick later: moved by its velocity, slowed by friction,
/// then held in the world by the boundary policy.
pub open spec fn updated(p: Particle, params: WorldParameters) -> Particle {
    let pos = p.pos.spec_plus(p.vel);
    let vel = p.vel.spec_scaled((ONE - params.friction) as i64);
    match params.boundary {
        Boundary::Wrap => Particle {
            pos: Vec2 {
                x: wrapped(pos.x as int, params.bounds.x as int) as i64,
                y: wrapped(pos.y as int, params.bounds.y as int) as i64,
            },
            vel,
            rad: p.rad,
            kind: p.kind,
        },
        Boundary::Bounce => {
            let m = margin(p.rad as int);
            let damping = wall_damping(params.friction as int);
            let bx = bounced(pos.x as int, vel.x as int, m, params.bounds.x as int, damping);
            let by = bounced(pos.y as int, vel.y as int, m, params.bounds.y as int, damping);
            Particle {
                pos: Vec2 { x: bx.0 as i64, y: by.0 as i64 },
                vel: Vec2 { x: bx.1 as i64, y: by.1 as i64 },
                rad: p.rad,
                kind: p.kind,
            }
        },
    }
}

/// Along each axis on which its two margins fit into the world, a bouncing
/// particle ends every tick between them: at least the square of its radius
/// away from each wall.
pub proof fn lemma_bounce_keeps_inside(p: Particle, params: WorldParameters)
    requires
        params.valid(),
        params.boundary == Boundary::Bounce,
    ensures
        2 * margin(p.rad as int) <= params.bounds.x ==> margin(p.rad as int) <= updated(
            p,
            params,
        ).pos.x <= params.bounds.x - margin(p.rad as int),
        2 * margin(p.rad as int) <= params.bounds.y ==> margin(p.rad as int) <= updated(
            p,
            params,
        ).pos.y <= params.bounds.y - margin(p.rad as int),
{
    lemma_margin_bounds(p.rad as int);
}

/// A wrapping particle ends every tick inside the world.
pub proof fn lemma_wrap_keeps_inside(p: Particle, params: WorldParameters)
    requires
        params.valid(),
        params.boundary == Boundary::Wrap,
    ensures
        0 <= updated(p, params).pos.x <= params.bounds.x,
        0 <= updated(p, params).pos.y <= params.bounds.y,
{
}

/// The margin of a radius is a scalar that is not negative.
pub proof fn lemma_margin_bounds(rad: int)
    ensures
        0 <= margin(rad) <= i64::MAX,
{
    assert(rad * rad >= 0) by (nonlinear_arith);
}

fn wall_margin(rad: i64) -> (m: i64)
    ensures
        m == margin(rad as int),
{
    assert(0 <= (rad as int) * (rad as int) <= 0x4000_0000_0000_0000_0000_0000_0000_0000)
        by (nonlinear_arith)
        requires
            -0x8000_0000_0000_0000 <= rad as int <= 0x7fff_ffff_ffff_ffff,
    ;
    let square: i128 = (rad as i128) * (rad as i128);
    saturating(square / (ONE as i128))
}

fn reflect(vel: i64, damping: i64) -> (v: i64)
    requires
        -3 * ONE < damping <= ONE,
    ensures
        v == scaled(-vel, damping as int),
{
    assert(-0x4000_0000_0000_0000_0000_0000_0000_0000 <= (-(vel as int)) * (damping as int)
        <= 0x4000_0000_0000_0000_0000_0000_0000_0000) by (nonlinear_arith)
        requires
            -0x8000_0000_0000_0000 <= vel as int <= 0x7fff_ffff_ffff_ffff,
            -0x8000_0000_0000_0000 <= damping as int <= 0x7fff_ffff_ffff_ffff,
    ;
    let wide: i128 = (-(vel as i128)) * (damping as i128);
    saturating(wide / (ONE as i128))
}

fn bounce(pos: i64, vel: i64, m: i64, bound: i64, damping: i64) -> (r: (i64, i64))
    requires
        0 <= m,
        0 < bound,
        -3 * ONE < damping <= ONE,
    ensures
        r.0 == bounced(pos as int, vel as int, m as int, bound as int, damping as int).0,
        r.1 == bounced(pos as int, vel as int, m as int, bound as int, damping as int).1,
{
    if pos <= m {
        (m, reflect(vel, damping))
    } else if pos >= bound - m {
        (bound - m, reflect(vel, damping))
    } else {
        (pos, vel)
    }
}

fn wrap(pos: i64, bound: i64) -> (r: i64)
    ensures
        r == wrapped(pos as int, bound as int),
{
    if pos < 0 {
        bound
    } else if pos > bound {
        0
    } else {
        pos
    }
}

impl Particle {
    /// Makes a particle at rest with a random place, radius and kind.
    pub fn random(params: &WorldParameters, rng: &mut SmallRng, kinds: usize) -> (p: Particle)
        requires
            params.valid(),
            0 < kinds <= i64::MAX,
        ensures
            fresh(p, *params, kinds as nat),
    {
        let x: i64 = draw_below(rng, 0, params.bounds.x);
        let y: i64 = draw_below(rng, 0, params.bounds.y);
        let r: i64 = draw_between(rng, params.radius_range.low, params.radius_range.high);
        let k: usize = draw_index(rng, kinds);
        Particle { pos: Vec2::new(x, y), vel: Vec2::zero(), rad: r, kind: k }
    }

    /// Moves the particle by its velocity, applies friction, and resolves
    /// the boundary: wrapping sends a coordinate that left the world to the
    /// opposite edge; bouncing holds it between the two margins and reflects
    /// the velocity, damped. Radius and kind stay as they are.
    pub fn update(&mut self, params: &WorldParameters)
        requires
            params.valid(),
        ensures
            *final(self) == updated(*old(self), *params),
            final(self).rad == old(self).rad,
            final(self).kind == old(self).kind,
            params.boundary == Boundary::Bounce && 2 * margin(old(self).rad as int)
                <= params.bounds.x ==> margin(old(self).rad as int) <= final(self).pos.x
                <= params.bounds.x - margin(old(self).rad as int),
            params.boundary == Boundary::Bounce && 2 * margin(old(self).rad as int)
                <= params.bounds.y ==> margin(old(self).rad as int) <= final(self).pos.y
                <= params.bounds.y - margin(old(self).rad as int),
    {
        let pos: Vec2 = self.pos.plus(self.vel);
        let vel: Vec2 = self.vel.scaled_by(ONE - params.friction);
        match params.boundary {
            Boundary::Wrap => {
                self.pos = Vec2 {
                    x: wrap(pos.x, params.bounds.x),
                    y: wrap(pos.y, params.bounds.y),
                };
                self.vel = vel;
            },
            Boundary::Bounce => {
                let m: i64 = wall_margin(self.rad);
                let damping: i64 = ONE - 4 * params.friction;
                proof {
                    lemma_margin_bounds(self.rad as int);
                }
                let bx = bounce(pos.x, vel.x, m, params.bounds.x, damping);
                let by = bounce(pos.y, vel.y, m, params.bounds.y, damping);
                self.pos = Vec2 { x: bx.0, y: by.0 };
                self.vel = Vec2 { x: bx.1, y: by.1 };
            },
        }
    }
}

} // verus!
