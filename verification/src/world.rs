//! The world: its kind table, its particles, its configuration and its
//! generator.
use vstd::prelude::*;
use rand::rngs::SmallRng;
use crate::colour::{is_pure, lemma_hue_colour_is_pure};
use crate::force::{crowded, kinds_known, pull_all, pulled_vel, Pulled};
use crate::kinds::{lemma_cell_inside, KindDraws, ParticleKinds};
use crate::params::{Boundary, WorldParameters};
use crate::particle::{fresh, lemma_bounce_keeps_inside, margin, Particle};
use crate::random::{
    draw_below,
    draw_index,
    generate_seed,
    is_seed_char,
    seeded_rng,
    StrengthSampler,
    SEED_LEN,
};
use crate::scalar::ONE;
use crate::schedule::{advance_all, worker_count};
use crate::tick::{moved, Moved};

verus! {

/// The draws are as a world of configuration `params` makes them: each hue
/// is less than one turn, and each range lies in the configured span, short
/// of its high bound unless the span is a single value.
pub open spec fn drawn_within(draws: &KindDraws, params: &WorldParameters) -> bool {
    &&& forall|a: int| 0 <= a < draws.hues@.len() ==> 0 <= #[trigger] draws.hues@[a] < ONE
    &&& forall|c: int|
        0 <= c < draws.ranges@.len() ==> params.attrac_range.draws(
            #[trigger] draws.ranges@[c] as int,
        )
}

/// The table was filled from draws that a world of configuration `params`
/// made.
pub open spec fn seeded(kinds: &ParticleKinds, params: &WorldParameters) -> bool {
    exists|draws: KindDraws|
        draws.fits(kinds.spec_kinds()) && drawn_within(&draws, params) && #[trigger] kinds.holds(
            &draws,
        )
}

/// In a seeded table the strength of a kind toward itself is never positive,
/// every range lies in the configured span, and every colour has one channel
/// fully on and one fully off.
pub proof fn lemma_seeded_table(kinds: &ParticleKinds, params: &WorldParameters, a: int, b: int)
    requires
        kinds.wf(),
        seeded(kinds, params),
        0 <= a < kinds.spec_kinds(),
        0 <= b < kinds.spec_kinds(),
    ensures
        kinds.spec_attrac(a, a) <= 0,
        params.attrac_range.draws(kinds.spec_range(a, b)),
        is_pure(kinds.spec_colour(a)),
{
    let draws = choose|draws: KindDraws|
        draws.fits(kinds.spec_kinds()) && drawn_within(&draws, params) && #[trigger] kinds.holds(
            &draws,
        );
    lemma_cell_inside(a, b, kinds.spec_kinds() as int);
    lemma_hue_colour_is_pure(draws.hues@[a] as int);
}

/// Both configurations agree in everything but the seed.
pub open spec fn same_config(a: &WorldParameters, b: &WorldParameters) -> bool {
    &&& a.bounds == b.bounds
    &&& a.attrac_mean == b.attrac_mean
    &&& a.attrac_dev == b.attrac_dev
    &&& a.attrac_range == b.attrac_range
    &&& a.radius_range == b.radius_range
    &&& a.friction == b.friction
    &&& a.boundary == b.boundary
}

/// `kept` is the seed that a world keeps when it is given `given`: the given
/// one, or a generated seed where none was given.
pub open spec fn seed_settled(given: Seq<char>, kept: Seq<char>) -> bool {
    if given.len() > 0 {
        kept == given
    } else {
        kept.len() == SEED_LEN && forall|i: int|
            0 <= i < kept.len() ==> is_seed_char(#[trigger] kept[i])
    }
}

/// Every particle is as it was made.
pub open spec fn all_fresh(parts: Seq<Particle>, params: &WorldParameters, kinds: nat) -> bool {
    forall|i: int| 0 <= i < parts.len() ==> fresh(#[trigger] parts[i], *params, kinds)
}

/// `after` is what a tick makes of particle `i` of `before`: moved against
/// the particles as they stood, its radius kept, and its kind kept unless it
/// was overcrowded, in which case its kind is some kind of the table.
pub open spec fn stepped(
    before: Seq<Particle>,
    kinds: &ParticleKinds,
    params: &WorldParameters,
    i: int,
    after: Particle,
) -> bool {
    let m = moved(before, kinds, params, i);
    &&& after.pos == m.particle.pos
    &&& after.vel == m.particle.vel
    &&& after.rad == before[i].rad
    &&& if m.crowded {
        after.kind < kinds.spec_kinds()
    } else {
        after.kind == before[i].kind
    }
}

/// Along each axis on which its two margins fit into the world, a bouncing
/// particle lies between them.
pub open spec fn inside_walls(p: Particle, params: &WorldParameters) -> bool {
    let m = margin(p.rad as int);
    &&& params.boundary == Boundary::Bounce && 2 * m <= params.bounds.x ==> m <= p.pos.x
        <= params.bounds.x - m
    &&& params.boundary == Boundary::Bounce && 2 * m <= params.bounds.y ==> m <= p.pos.y
        <= params.bounds.y - m
}

/// Draws what a table of `kinds` kinds is filled from: for each kind a hue
/// and then, for each kind it may meet, a strength and a range.
pub fn draw_kinds<S: StrengthSampler>(
    rng: &mut SmallRng,
    sampler: &mut S,
    params: &WorldParameters,
    kinds: usize,
) -> (draws: KindDraws)
    requires
        params.valid(),
        kinds * kinds <= usize::MAX,
    ensures
        draws.fits(kinds as nat),
        drawn_within(&draws, params),
{
    let mut hues: Vec<i64> = Vec::new();
    let mut strengths: Vec<i64> = Vec::new();
    let mut ranges: Vec<i64> = Vec::new();
    let mut a: usize = 0;
    while a < kinds
        invariant
            a <= kinds,
            params.valid(),
            kinds * kinds <= usize::MAX,
            hues@.len() == a,
            strengths@.len() == a * kinds,
            ranges@.len() == a * kinds,
            forall|c: int| 0 <= c < hues@.len() ==> 0 <= #[trigger] hues@[c] < ONE,
            forall|c: int|
                0 <= c < ranges@.len() ==> params.attrac_range.draws(#[trigger] ranges@[c] as int),
        decreases kinds - a,
    {
        let hue: i64 = draw_below(rng, 0, ONE);
        hues.push(hue);
        let mut b: usize = 0;
        while b < kinds
            invariant
                a < kinds,
                b <= kinds,
                params.valid(),
                strengths@.len() == a * kinds + b,
                ranges@.len() == a * kinds + b,
                forall|c: int|
                    0 <= c < ranges@.len() ==> params.attrac_range.draws(
                        #[trigger] ranges@[c] as int,
                    ),
            decreases kinds - b,
        {
            let s: i64 = sampler.sample_strength(rng, params.attrac_mean, params.attrac_dev);
            strengths.push(s);
            let r: i64 = draw_below(rng, params.attrac_range.low, params.attrac_range.high);
            ranges.push(r);
            b += 1;
        }
        assert(a * kinds + kinds == (a + 1) * kinds) by (nonlinear_arith);
        a += 1;
    }
    KindDraws { hues, strengths, ranges }
}

/// A world of particles.
pub struct World {
    /// The particles, in the order in which they were made.
    pub parts: Vec<Particle>,
    /// The configuration. Its seed is the one that the world was last seeded
    /// from.
    pub params: WorldParameters,
    /// How each kind acts on each other.
    pub kinds: ParticleKinds,
    /// The generator that every draw of the world comes from.
    pub rng: SmallRng,
    /// How many particles the world is seeded with.
    pub population: usize,
}

impl World {
    /// The table is well formed, the configuration is valid, every particle
    /// has a kind of the table, and a world that is seeded with particles has
    /// a kind to give them.
    pub open spec fn wf(&self) -> bool {
        &&& self.kinds.wf()
        &&& self.params.valid()
        &&& kinds_known(self.parts@, &self.kinds)
        &&& self.population > 0 ==> self.kinds.spec_kinds() > 0
    }

    /// `after` is this world one tick later: it has the same table, the same
    /// configuration and as many particles, each of them is what the tick
    /// makes of the particle that stood in its place, and those that bounce
    /// lie between their margins.
    pub open spec fn ticked(&self, after: &World) -> bool {
        &&& after.parts@.len() == self.parts@.len()
        &&& forall|i: int|
            0 <= i < self.parts@.len() ==> stepped(
                self.parts@,
                &self.kinds,
                &self.params,
                i,
                #[trigger] after.parts@[i],
            )
        &&& forall|i: int|
            0 <= i < after.parts@.len() ==> inside_walls(#[trigger] after.parts@[i], &after.params)
        &&& after.kinds == self.kinds
        &&& after.params == self.params
        &&& after.population == self.population
    }

    /// Tests whether the world is well formed.
    pub fn is_wf(&self) -> (ok: bool)
        ensures
            ok == self.wf(),
    {
        let k: usize = self.kinds.kinds();
        if !self.kinds.is_wf() || !self.params.is_valid() || (self.population > 0 && k == 0) {
            return false;
        }
        let mut i: usize = 0;
        while i < self.parts.len()
            invariant
                i <= self.parts@.len(),
                k == self.kinds.spec_kinds(),
                forall|j: int| 0 <= j < i ==> (#[trigger] self.parts@[j]).kind < k,
            decreases self.parts@.len() - i,
        {
            if self.parts[i].kind >= k {
                return false;
            }
            i += 1;
        }
        true
    }

    /// A world of `count` particles of `types` kinds, seeded from
    /// `params.seed`, or from a fresh seed where that is empty.
    pub fn new<S: StrengthSampler>(
        count: usize,
        types: usize,
        params: WorldParameters,
        sampler: &mut S,
    ) -> (world: World)
        requires
            params.valid(),
            types * types <= usize::MAX,
            count > 0 ==> types > 0,
        ensures
            world.wf(),
            world.population == count,
            world.parts@.len() == count,
            world.kinds.spec_kinds() == types,
            same_config(&world.params, &params),
            seed_settled(params.seed@, world.params.seed@),
            seeded(&world.kinds, &world.params),
            all_fresh(world.parts@, &world.params, types as nat),
    {
        let mut params = params;
        if params.seed.as_str().is_empty() {
            params.seed = generate_seed();
        }
        let rng: SmallRng = seeded_rng(&params.seed);
        let mut world = World {
            parts: Vec::new(),
            params,
            kinds: ParticleKinds::new(types),
            rng,
            population: count,
        };
        world.populate(sampler);
        world
    }

    /// Seeds the world anew under `params`: the table is cleared and filled
    /// again, and the particles are replaced by as many fresh ones as the
    /// world was made with. Where `params.seed` is empty a fresh seed is
    /// generated; the `params` of the world tell which.
    pub fn reseed<S: StrengthSampler>(&mut self, params: WorldParameters, sampler: &mut S)
        requires
            old(self).kinds.wf(),
            old(self).population > 0 ==> old(self).kinds.spec_kinds() > 0,
            params.valid(),
        ensures
            final(self).wf(),
            final(self).population == old(self).population,
            final(self).parts@.len() == old(self).population,
            final(self).kinds.spec_kinds() == old(self).kinds.spec_kinds(),
            same_config(&final(self).params, &params),
            seed_settled(params.seed@, final(self).params.seed@),
            seeded(&final(self).kinds, &final(self).params),
            all_fresh(
                final(self).parts@,
                &final(self).params,
                final(self).kinds.spec_kinds(),
            ),
    {
        let mut params = params;
        self.parts.clear();
        self.kinds.clear();
        if params.seed.as_str().is_empty() {
            params.seed = generate_seed();
        }
        self.rng = seeded_rng(&params.seed);
        self.params = params;
        self.populate(sampler);
    }

    /// Fills the table and makes the particles of an empty world.
    fn populate<S: StrengthSampler>(&mut self, sampler: &mut S)
        requires
            old(self).kinds.wf(),
            old(self).params.valid(),
            old(self).parts@.len() == 0,
            old(self).population > 0 ==> old(self).kinds.spec_kinds() > 0,
        ensures
            final(self).wf(),
            final(self).population == old(self).population,
            final(self).params == old(self).params,
            final(self).parts@.len() == old(self).population,
            final(self).kinds.spec_kinds() == old(self).kinds.spec_kinds(),
            seeded(&final(self).kinds, &final(self).params),
            all_fresh(final(self).parts@, &final(self).params, final(self).kinds.spec_kinds()),
    {
        self.seed_types(sampler);
        let count: usize = self.population;
        let mut i: usize = 0;
        while i < count
            invariant
                i <= count,
                count == self.population,
                self.wf(),
                self.population == old(self).population,
                self.params == old(self).params,
                self.kinds.spec_kinds() == old(self).kinds.spec_kinds(),
                seeded(&self.kinds, &self.params),
                self.parts@.len() == i,
                all_fresh(self.parts@, &self.params, self.kinds.spec_kinds()),
            decreases count - i,
        {
            let part: Particle = self.new_particle();
            self.parts.push(part);
            i += 1;
        }
    }

    /// Adds one fresh particle at the end.
    pub fn add_particle(&mut self)
        requires
            old(self).wf(),
            old(self).kinds.spec_kinds() > 0,
        ensures
            final(self).wf(),
            final(self).parts@.len() == old(self).parts@.len() + 1,
            final(self).parts@.drop_last() == old(self).parts@,
            fresh(
                final(self).parts@.last(),
                final(self).params,
                final(self).kinds.spec_kinds(),
            ),
            final(self).kinds == old(self).kinds,
            final(self).params == old(self).params,
            final(self).population == old(self).population,
    {
        let part: Particle = self.new_particle();
        self.parts.push(part);
    }

    /// Removes the particle that was added last, if there is one.
    pub fn del_particle(&mut self)
        ensures
            old(self).parts@.len() > 0 ==> final(self).parts@ == old(self).parts@.drop_last(),
            old(self).parts@.len() == 0 ==> final(self).parts@ == old(self).parts@,
            final(self).kinds == old(self).kinds,
            final(self).params == old(self).params,
            final(self).population == old(self).population,
            old(self).wf() ==> final(self).wf(),
    {
        let _ = self.parts.pop();
    }

    /// Makes a fresh particle from the generator of the world.
    pub fn new_particle(&mut self) -> (part: Particle)
        requires
            old(self).wf(),
            old(self).kinds.spec_kinds() > 0,
        ensures
            fresh(part, final(self).params, final(self).kinds.spec_kinds()),
            final(self).parts == old(self).parts,
            final(self).kinds == old(self).kinds,
            final(self).params == old(self).params,
            final(self).population == old(self).population,
    {
        proof {
            self.kinds.lemma_kinds_bounded();
        }
        let k: usize = self.kinds.kinds();
        Particle::random(&self.params, &mut self.rng, k)
    }

    /// Fills the table from fresh draws: a colour for each kind, and for
    /// each ordered pair of kinds a strength from the normal law, turned
    /// negative on the diagonal, and a range.
    pub fn seed_types<S: StrengthSampler>(&mut self, sampler: &mut S)
        requires
            old(self).kinds.wf(),
            old(self).params.valid(),
        ensures
            final(self).kinds.wf(),
            final(self).kinds.spec_kinds() == old(self).kinds.spec_kinds(),
            seeded(&final(self).kinds, &final(self).params),
            final(self).parts == old(self).parts,
            final(self).params == old(self).params,
            final(self).population == old(self).population,
    {
        proof {
            self.kinds.lemma_kinds_bounded();
        }
        let k: usize = self.kinds.kinds();
        let draws: KindDraws = draw_kinds(&mut self.rng, sampler, &self.params, k);
        self.kinds.fill(&draws);
    }

    /// Lets every particle of the world act on `a`, and gives `a` a new kind
    /// if it is overcrowded. The new kind comes from the generator of the
    /// world.
    pub fn influence(&mut self, a: &mut Particle)
        requires
            old(self).wf(),
            old(a).kind < old(self).kinds.spec_kinds(),
        ensures
            final(a).pos == old(a).pos,
            final(a).rad == old(a).rad,
            final(a).vel == pulled_vel(
                *old(a),
                old(self).parts@,
                &old(self).kinds,
                old(self).parts@.len() as int,
            ),
            crowded(*old(a), old(self).parts@, &old(self).kinds) ==> final(a).kind
                < old(self).kinds.spec_kinds(),
            !crowded(*old(a), old(self).parts@, &old(self).kinds) ==> final(a).kind == old(a).kind,
            final(self).parts == old(self).parts,
            final(self).kinds == old(self).kinds,
            final(self).params == old(self).params,
            final(self).population == old(self).population,
    {
        let pulled: Pulled = pull_all(a, &self.parts, &self.kinds);
        a.vel = pulled.vel;
        if pulled.crowded {
            proof {
                self.kinds.lemma_kinds_bounded();
            }
            a.kind = draw_index(&mut self.rng, self.kinds.kinds());
        }
    }

    /// Advances the world by one tick, the work shared among one worker for
    /// each processor.
    pub fn step(&mut self)
        requires
            old(self).wf(),
        ensures
            final(self).wf(),
            old(self).ticked(final(self)),
    {
        let workers: usize = worker_count();
        self.step_with(workers);
    }

    /// Advances the world by one tick, the work shared among `workers`
    /// workers. Every particle is moved against the particles as they stood
    /// before the tick; then the overcrowded ones draw their new kinds, in
    /// the order of the particles. What the tick does is the same for every
    /// number of workers.
    pub fn step_with(&mut self, workers: usize)
        requires
            old(self).wf(),
            0 < workers,
        ensures
            final(self).wf(),
            old(self).ticked(final(self)),
    {
        let results: Vec<Moved> = advance_all(&self.parts, &self.kinds, &self.params, workers);
        let k: usize = self.kinds.kinds();
        let mut next: Vec<Particle> = Vec::new();
        let mut i: usize = 0;
        while i < results.len()
            invariant
                i <= results@.len(),
                results@.len() == self.parts@.len(),
                self.parts == old(self).parts,
                self.kinds == old(self).kinds,
                self.params == old(self).params,
                self.population == old(self).population,
                self.wf(),
                k == self.kinds.spec_kinds(),
                forall|j: int|
                    0 <= j < results@.len() ==> #[trigger] results@[j] == moved(
                        self.parts@,
                        &self.kinds,
                        &self.params,
                        j,
                    ),
                next@.len() == i,
                forall|j: int|
                    0 <= j < i ==> stepped(
                        self.parts@,
                        &self.kinds,
                        &self.params,
                        j,
                        #[trigger] next@[j],
                    ),
                forall|j: int| 0 <= j < i ==> inside_walls(#[trigger] next@[j], &self.params),
                forall|j: int| 0 <= j < i ==> (#[trigger] next@[j]).kind < k,
            decreases results@.len() - i,
        {
            let m: Moved = results[i];
            let mut p: Particle = m.particle;
            proof {
                let a = self.parts@[i as int];
                let pulled = Particle {
                    pos: a.pos,
                    vel: pulled_vel(a, self.parts@, &self.kinds, self.parts@.len() as int),
                    rad: a.rad,
                    kind: a.kind,
                };
                if self.params.boundary == Boundary::Bounce {
                    lemma_bounce_keeps_inside(pulled, self.params);
                }
                self.kinds.lemma_kinds_bounded();
            }
            if m.crowded {
                p.kind = draw_index(&mut self.rng, k);
            }
            next.push(p);
            i += 1;
        }
        self.parts = next;
    }
}

} // verus!
