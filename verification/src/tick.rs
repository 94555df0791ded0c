//! What one tick does to one particle.
//!
//! Every particle is moved against the same picture of the world: the
//! particles as they stood when the tick began. What a tick does to one
//! particle therefore does not depend on what it does to any other.
use vstd::prelude::*;
use crate::force::{crowded, kinds_known, pull_all, pulled_vel, Pulled};
use crate::kinds::ParticleKinds;
use crate::params::WorldParameters;
use crate::particle::{updated, Particle};

verus! {

/// A particle after a tick, its kind not yet reconsidered.
#[derive(Clone, Copy, Debug, PartialEq, Eq, Structural)]
pub struct Moved {
    /// The particle with its new velocity and position.
    pub particle: Particle,
    /// Whether the particle was overcrowded when the tick began, and so is
    /// to draw a new kind.
    pub crowded: bool,
}

/// Particle `i` of `parts` after all of `parts` have acted on it and it has
/// moved.
pub open spec fn moved(
    parts: Seq<Particle>,
    kinds: &ParticleKinds,
    params: &WorldParameters,
    i: int,
) -> Moved {
    let a = parts[i];
    let pulled = Particle {
        pos: a.pos,
        vel: pulled_vel(a, parts, kinds, parts.len() as int),
        rad: a.rad,
        kind: a.kind,
    };
    Moved { particle: updated(pulled, *params), crowded: crowded(a, parts, kinds) }
}

/// The particles from `lo` up to `hi`, each after the tick.
pub open spec fn moved_range(
    parts: Seq<Particle>,
    kinds: &ParticleKinds,
    params: &WorldParameters,
    lo: int,
    hi: int,
) -> Seq<Moved> {
    Seq::new((hi - lo) as nat, |j: int| moved(parts, kinds, params, lo + j))
}

/// Moves particle `i` against the picture `parts`.
pub fn advance_one(
    parts: &Vec<Particle>,
    kinds: &ParticleKinds,
    params: &WorldParameters,
    i: usize,
) -> (m: Moved)
    requires
        kinds.wf(),
        params.valid(),
        kinds_known(parts@, kinds),
        i < parts@.len(),
    ensures
        m == moved(parts@, kinds, params, i as int),
{
    let a: Particle = parts[i];
    let pulled: Pulled = pull_all(&a, parts, kinds);
    let mut p = Particle { pos: a.pos, vel: pulled.vel, rad: a.rad, kind: a.kind };
    p.update(params);
    Moved { particle: p, crowded: pulled.crowded }
}

/// Moves the particles from `lo` up to `hi` against the picture `parts`.
pub fn advance_range(
    parts: &Vec<Particle>,
    kinds: &ParticleKinds,
    params: &WorldParameters,
    lo: usize,
    hi: usize,
) -> (out: Vec<Moved>)
    requires
        kinds.wf(),
        params.valid(),
        kinds_known(parts@, kinds),
        lo <= hi <= parts@.len(),
    ensures
        out@ == moved_range(parts@, kinds, params, lo as int, hi as int),
{
    let mut out: Vec<Moved> = Vec::new();
    let mut i: usize = lo;
    while i < hi
        invariant
            lo <= i <= hi <= parts@.len(),
            kinds.wf(),
            params.valid(),
            kinds_known(parts@, kinds),
            out@ == moved_range(parts@, kinds, params, lo as int, i as int),
        decreases hi - i,
    {
        let m: Moved = advance_one(parts, kinds, params, i);
        out.push(m);
        i += 1;
    }
    out
}

} // verus!
