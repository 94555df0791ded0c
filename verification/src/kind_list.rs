//! A list of kinds that can grow and shrink: a kind can be added to it, and
//! a kind can be taken from it together with its particles.
//!
//! Each kind holds its own row of the tables. When a kind is taken away the
//! kinds after it move down by one, and so do the kinds of the particles.
use vstd::prelude::*;
use rand::rngs::SmallRng;
use crate::colour::{hsv_to_rgb, is_pure, lemma_hue_colour_is_pure};
use crate::kinds::{settle_strength, Colour};
use crate::params::WorldParameters;
use crate::particle::Particle;
use crate::random::{draw_below, StrengthSampler};
use crate::scalar::ONE;

verus! {

/// One kind of particle.
#[derive(Debug)]
pub struct ParticleKind {
    /// The display colour of the kind.
    pub colour: Colour,
    /// The strength of the kind toward each kind of the list.
    pub attract: Vec<i64>,
    /// From how far the kind feels each kind of the list.
    pub range: Vec<i64>,
}

/// A managed list of all kinds.
pub struct Kinds(pub Vec<ParticleKind>);

/// Both rows hold the same.
spec fn same_row(row: &ParticleKind, was: &ParticleKind) -> bool {
    row.colour == was.colour && row.attract@ == was.attract@ && row.range@ == was.range@
}

/// `row` is `was` with one more kind to hold a strength and a range for.
spec fn longer_row(row: &ParticleKind, was: &ParticleKind) -> bool {
    &&& row.colour == was.colour
    &&& row.attract@.len() == was.attract@.len() + 1
    &&& row.range@.len() == was.range@.len() + 1
    &&& row.attract@.drop_last() == was.attract@
    &&& row.range@.drop_last() == was.range@
}

/// `row` is `was` without what it held for kind `gone`.
spec fn shorter_row(row: &ParticleKind, was: &ParticleKind, gone: int) -> bool {
    &&& row.colour == was.colour
    &&& row.attract@ == was.attract@.remove(gone)
    &&& row.range@ == was.range@.remove(gone)
}

/// The place in the old list of what stands at `a` once kind `id` is gone.
pub open spec fn skipping(a: int, id: int) -> int {
    if a < id {
        a
    } else {
        a + 1
    }
}

/// A particle that outlives kind `id`: its kind moves down if it came after
/// `id`.
pub open spec fn relabelled(p: Particle, id: int) -> Particle {
    Particle {
        pos: p.pos,
        vel: p.vel,
        rad: p.rad,
        kind: if p.kind > id {
            (p.kind - 1) as usize
        } else {
            p.kind
        },
    }
}

/// The particles that outlive kind `id`, in their order: those of kind `id`
/// are gone, the others are relabelled.
pub open spec fn survivors(parts: Seq<Particle>, id: int) -> Seq<Particle>
    decreases parts.len(),
{
    if parts.len() == 0 {
        Seq::empty()
    } else if parts.last().kind == id {
        survivors(parts.drop_last(), id)
    } else {
        survivors(parts.drop_last(), id).push(relabelled(parts.last(), id))
    }
}

/// No survivor of kind `id` is lost or made up: there are as many as there
/// were particles of other kinds, and each has a kind of the shorter list.
pub proof fn lemma_survivors(parts: Seq<Particle>, id: int, kinds: int)
    requires
        0 <= id < kinds,
        forall|i: int| 0 <= i < parts.len() ==> (#[trigger] parts[i]).kind < kinds,
    ensures
        survivors(parts, id).len() <= parts.len(),
        survivors(parts, id).len() == parts.filter(|p: Particle| p.kind != id).len(),
        forall|i: int|
            0 <= i < survivors(parts, id).len() ==> (#[trigger] survivors(parts, id)[i]).kind
                < kinds - 1,
    decreases parts.len(),
{
    reveal(Seq::filter);
    if parts.len() > 0 {
        lemma_survivors(parts.drop_last(), id, kinds);
    }
}

impl Kinds {
    /// How many kinds the list holds.
    pub open spec fn spec_len(&self) -> nat {
        self.0@.len()
    }

    /// Every kind holds a strength and a range for each kind of the list,
    /// and the kinds can be numbered in sixteen bits.
    pub open spec fn wf(&self) -> bool {
        &&& self.0@.len() <= u16::MAX
        &&& forall|a: int|
            0 <= a < self.0@.len() ==> (#[trigger] self.0@[a]).attract@.len() == self.0@.len()
                && self.0@[a].range@.len() == self.0@.len()
    }

    /// The strength of kind `a` toward kind `b`.
    pub open spec fn spec_attract(&self, a: int, b: int) -> int {
        self.0@[a].attract@[b] as int
    }

    /// From how far kind `a` feels kind `b`.
    pub open spec fn spec_range(&self, a: int, b: int) -> int {
        self.0@[a].range@[b] as int
    }

    /// The colour of kind `a`.
    pub open spec fn spec_colour(&self, a: int) -> Colour {
        self.0@[a].colour
    }

    /// What the kinds of `before` held for one another, the same kinds of
    /// this list hold.
    pub open spec fn keeps(&self, before: &Kinds) -> bool {
        &&& forall|a: int|
            0 <= a < before.spec_len() ==> self.spec_colour(a) == before.spec_colour(a)
        &&& forall|a: int, b: int|
            0 <= a < before.spec_len() && 0 <= b < before.spec_len() ==> self.spec_attract(a, b)
                == before.spec_attract(a, b) && self.spec_range(a, b) == before.spec_range(a, b)
    }

    /// This list is `before` without kind `id`: one kind shorter, and each
    /// kind holds for each other what it held in `before`, where it stood
    /// one place later if it came after `id`.
    pub open spec fn lacks(&self, before: &Kinds, id: int) -> bool {
        &&& self.spec_len() == before.spec_len() - 1
        &&& forall|a: int|
            0 <= a < self.spec_len() ==> self.spec_colour(a) == before.spec_colour(
                skipping(a, id),
            )
        &&& forall|a: int, b: int|
            0 <= a < self.spec_len() && 0 <= b < self.spec_len() ==> self.spec_attract(a, b)
                == before.spec_attract(skipping(a, id), skipping(b, id)) && self.spec_range(a, b)
                == before.spec_range(skipping(a, id), skipping(b, id))
    }

    /// An empty list, ready to be filled with kinds.
    pub fn new() -> (kinds: Kinds)
        ensures
            kinds.wf(),
            kinds.spec_len() == 0,
    {
        Kinds(Vec::new())
    }

    /// Tests whether the list is well formed.
    pub fn is_wf(&self) -> (ok: bool)
        ensures
            ok == self.wf(),
    {
        let k: usize = self.0.len();
        if k > u16::MAX as usize {
            return false;
        }
        let mut a: usize = 0;
        while a < k
            invariant
                a <= k,
                k == self.0@.len(),
                forall|c: int|
                    0 <= c < a ==> (#[trigger] self.0@[c]).attract@.len() == k
                        && self.0@[c].range@.len() == k,
            decreases k - a,
        {
            if self.0[a].attract.len() != k || self.0[a].range.len() != k {
                return false;
            }
            a += 1;
        }
        true
    }

    /// How many kinds the list holds.
    pub fn len(&self) -> (n: usize)
        ensures
            n == self.spec_len(),
    {
        self.0.len()
    }

    /// The kind numbered `idx`.
    pub fn get(&self, idx: u16) -> (kind: &ParticleKind)
        requires
            idx < self.spec_len(),
        ensures
            *kind == self.0@[idx as int],
    {
        &self.0[idx as usize]
    }

    /// Adds a kind at the end of the list and returns its number. The new
    /// kind gets a colour, and a strength and a range toward and from every
    /// kind, itself included, drawn as a world draws them. What the kinds
    /// held for one another before, they still hold.
    pub fn new_kind<S: StrengthSampler>(
        &mut self,
        para: &WorldParameters,
        rng: &mut SmallRng,
        sampler: &mut S,
    ) -> (id: u16)
        requires
            old(self).wf(),
            old(self).spec_len() < u16::MAX,
            para.valid(),
        ensures
            final(self).wf(),
            final(self).spec_len() == old(self).spec_len() + 1,
            id == old(self).spec_len(),
            final(self).keeps(old(self)),
            is_pure(final(self).spec_colour(id as int)),
            final(self).spec_attract(id as int, id as int) <= 0,
            forall|b: int|
                0 <= b <= id ==> para.attrac_range.draws(final(self).spec_range(id as int, b))
                    && para.attrac_range.draws(final(self).spec_range(b, id as int)),
    {
        let k: usize = self.0.len();
        let hue: i64 = draw_below(rng, 0, ONE);
        let colour: Colour = hsv_to_rgb(hue, ONE, ONE);
        proof {
            lemma_hue_colour_is_pure(hue as int);
        }
        let mut attract: Vec<i64> = Vec::new();
        let mut range: Vec<i64> = Vec::new();
        let mut a: usize = 0;
        while a < k
            invariant
                a <= k,
                k == old(self).0@.len(),
                k < u16::MAX,
                para.valid(),
                old(self).wf(),
                self.0@.len() == k,
                attract@.len() == a,
                range@.len() == a,
                forall|b: int| 0 <= b < a ==> para.attrac_range.draws(#[trigger] range@[b] as int),
                forall|c: int|
                    a <= c < k ==> same_row(#[trigger] &self.0@[c], &old(self).0@[c]),
                forall|c: int|
                    0 <= c < a ==> longer_row(#[trigger] &self.0@[c], &old(self).0@[c])
                        && para.attrac_range.draws(self.0@[c].range@[k as int] as int),
            decreases k - a,
        {
            let toward: i64 = sampler.sample_strength(rng, para.attrac_mean, para.attrac_dev);
            attract.push(settle_strength(toward, false));
            range.push(draw_below(rng, para.attrac_range.low, para.attrac_range.high));
            let from: i64 = sampler.sample_strength(rng, para.attrac_mean, para.attrac_dev);
            let reach: i64 = draw_below(rng, para.attrac_range.low, para.attrac_range.high);
            self.0[a].attract.push(settle_strength(from, false));
            self.0[a].range.push(reach);
            proof {
                let row = self.0@[a as int];
                let was = old(self).0@[a as int];
                assert(row.attract@.drop_last() =~= was.attract@);
                assert(row.range@.drop_last() =~= was.range@);
            }
            a += 1;
        }
        let own: i64 = sampler.sample_strength(rng, para.attrac_mean, para.attrac_dev);
        attract.push(settle_strength(own, true));
        range.push(draw_below(rng, para.attrac_range.low, para.attrac_range.high));
        self.0.push(ParticleKind { colour, attract, range });
        k as u16
    }

    /// Takes kind `id` from the list, and its particles from `parts`. The
    /// kinds after `id` move down by one, in the list and in the particles
    /// that are left; what the remaining kinds held for one another, they
    /// still hold.
    pub fn remove_kind(&mut self, id: u16, parts: &mut Vec<Particle>)
        requires
            old(self).wf(),
            id < old(self).spec_len(),
        ensures
            final(self).wf(),
            final(self).lacks(old(self), id as int),
            final(parts)@ == survivors(old(parts)@, id as int),
    {
        let k: usize = self.0.len();
        let gone: usize = id as usize;
        let mut a: usize = 0;
        while a < k
            invariant
                a <= k,
                gone < k,
                gone == id,
                k == old(self).0@.len(),
                old(self).wf(),
                self.0@.len() == k,
                forall|c: int|
                    a <= c < k ==> same_row(#[trigger] &self.0@[c], &old(self).0@[c]),
                forall|c: int|
                    0 <= c < a ==> shorter_row(
                        #[trigger] &self.0@[c],
                        &old(self).0@[c],
                        gone as int,
                    ),
            decreases k - a,
        {
            let _ = self.0[a].attract.remove(gone);
            let _ = self.0[a].range.remove(gone);
            a += 1;
        }
        let _ = self.0.remove(gone);
        let mut kept: Vec<Particle> = Vec::new();
        let mut i: usize = 0;
        while i < parts.len()
            invariant
                i <= parts@.len(),
                gone == id,
                *parts == *old(parts),
                kept@ == survivors(parts@.take(i as int), id as int),
            decreases parts@.len() - i,
        {
            let p: Particle = parts[i];
            proof {
                assert(parts@.take(i + 1).drop_last() == parts@.take(i as int));
            }
            if p.kind != gone {
                let kind: usize = if p.kind > gone {
                    p.kind - 1
                } else {
                    p.kind
                };
                kept.push(Particle { pos: p.pos, vel: p.vel, rad: p.rad, kind });
            }
            i += 1;
        }
        proof {
            assert(parts@.take(parts@.len() as int) == parts@);
        }
        *parts = kept;
    }

    /// Empties the list and the particles.
    pub fn clear(&mut self, parts: &mut Vec<Particle>)
        ensures
            final(self).wf(),
            final(self).spec_len() == 0,
            final(parts)@.len() == 0,
    {
        self.0.clear();
        parts.clear();
    }
}

} // verus!
