//! The kind table: for every ordered pair of kinds a strength and a range,
//! and for every kind a display colour.
//!
//! The strength of kind `a` toward kind `b` is what `a` feels of `b`; its
//! sign tells which way (see [`force`](crate::force)).
use vstd::prelude::*;
use crate::colour::{hsv_to_rgb, hue_colour};
use crate::scalar::ONE;

verus! {

/// A display colour: red, green, blue.
pub type Colour = (u8, u8, u8);

/// Square tables of how each kind acts on each other, stored row by row.
pub struct ParticleKinds {
    kinds: usize,
    colours: Vec<Colour>,
    attrac: Vec<i64>,
    range: Vec<i64>,
}

/// What a table is filled from: one hue for each kind, and one strength and
/// one range for each ordered pair of kinds, row by row.
pub struct KindDraws {
    /// A hue for each kind, in turns round the hue circle.
    pub hues: Vec<i64>,
    /// A strength for each pair, as drawn: the sign on the diagonal is not
    /// settled yet.
    pub strengths: Vec<i64>,
    /// A range for each pair.
    pub ranges: Vec<i64>,
}

impl KindDraws {
    /// There is a draw for each cell of a table of `kinds` kinds, and no hue
    /// is negative.
    pub open spec fn fits(&self, kinds: nat) -> bool {
        &&& self.hues@.len() == kinds
        &&& self.strengths@.len() == kinds * kinds
        &&& self.ranges@.len() == kinds * kinds
        &&& forall|a: int| 0 <= a < kinds ==> 0 <= #[trigger] self.hues@[a]
    }
}

/// The strength that a table holds for a draw: off the diagonal the draw
/// itself; on it the draw with its sign turned negative, so that the
/// strength of a kind toward itself is never positive.
pub open spec fn settled(sample: int, diagonal: bool) -> int {
    if diagonal && sample > 0 {
        -sample
    } else {
        sample
    }
}

/// Settles the sign of a drawn strength.
pub fn settle_strength(sample: i64, diagonal: bool) -> (strength: i64)
    ensures
        strength == settled(sample as int, diagonal),
        diagonal ==> strength <= 0,
{
    if diagonal && sample > 0 {
        -sample
    } else {
        sample
    }
}

/// Where the cell of row `a` and column `b` stands in a table of `k` rows
/// stored row by row.
pub open spec fn cell(a: int, b: int, k: int) -> int {
    a * k + b
}

/// The cell of row `a` and column `b` lies inside a table of `k` rows.
pub proof fn lemma_cell_inside(a: int, b: int, k: int)
    requires
        0 <= a < k,
        0 <= b < k,
    ensures
        0 <= a * k + b < k * k,
{
    assert(0 <= a * k && a * k + k <= k * k) by (nonlinear_arith)
        requires
            0 <= a < k,
    ;
}

/// Two cells of a table share a place only if they are the same cell.
pub proof fn lemma_cell_unique(a: int, b: int, c: int, d: int, k: int)
    requires
        0 <= a < k,
        0 <= b < k,
        0 <= c < k,
        0 <= d < k,
        a * k + b == c * k + d,
    ensures
        a == c,
        b == d,
{
    if a < c {
        assert(a * k + k <= c * k) by (nonlinear_arith)
            requires
                a + 1 <= c,
                0 < k,
        ;
    } else if c < a {
        assert(c * k + k <= a * k) by (nonlinear_arith)
            requires
                c + 1 <= a,
                0 < k,
        ;
    }
}

impl ParticleKinds {
    /// The number of kinds.
    pub closed spec fn spec_kinds(&self) -> nat {
        self.kinds as nat
    }

    /// The three tables have the sizes that the number of kinds asks for.
    pub closed spec fn wf(&self) -> bool {
        &&& self.kinds * self.kinds <= usize::MAX
        &&& self.colours@.len() == self.kinds
        &&& self.attrac@.len() == self.kinds * self.kinds
        &&& self.range@.len() == self.kinds * self.kinds
    }

    /// The colour of kind `a`.
    pub closed spec fn spec_colour(&self, a: int) -> Colour {
        self.colours@[a]
    }

    /// The strength of kind `a` toward kind `b`.
    pub closed spec fn spec_attrac(&self, a: int, b: int) -> int {
        self.attrac@[cell(a, b, self.kinds as int)] as int
    }

    /// From how far kind `a` feels kind `b`.
    pub closed spec fn spec_range(&self, a: int, b: int) -> int {
        self.range@[cell(a, b, self.kinds as int)] as int
    }

    /// Both tables hold the same colours.
    pub open spec fn same_colours(&self, other: &ParticleKinds) -> bool {
        forall|a: int| 0 <= a < self.spec_kinds() ==> self.spec_colour(a) == other.spec_colour(a)
    }

    /// Both tables hold the same strengths.
    pub open spec fn same_attrac(&self, other: &ParticleKinds) -> bool {
        forall|a: int, b: int|
            0 <= a < self.spec_kinds() && 0 <= b < self.spec_kinds() ==> self.spec_attrac(a, b)
                == other.spec_attrac(a, b)
    }

    /// Both tables hold the same ranges.
    pub open spec fn same_range(&self, other: &ParticleKinds) -> bool {
        forall|a: int, b: int|
            0 <= a < self.spec_kinds() && 0 <= b < self.spec_kinds() ==> self.spec_range(a, b)
                == other.spec_range(a, b)
    }

    /// The table is what `draws` make it: each colour is that of the kind's
    /// hue at full saturation and value, each strength is the settled draw,
    /// each range is the draw.
    pub open spec fn holds(&self, draws: &KindDraws) -> bool {
        let k = self.spec_kinds() as int;
        &&& forall|a: int| 0 <= a < k ==> self.spec_colour(a) == hue_colour(draws.hues@[a] as int)
        &&& forall|a: int, b: int|
            0 <= a < k && 0 <= b < k ==> self.spec_attrac(a, b) == settled(
                draws.strengths@[cell(a, b, k)] as int,
                a == b,
            )
        &&& forall|a: int, b: int|
            0 <= a < k && 0 <= b < k ==> self.spec_range(a, b) == draws.ranges@[cell(a, b, k)]
    }

    /// A well-formed table has fewer than `2^32` kinds.
    pub proof fn lemma_kinds_bounded(&self)
        requires
            self.wf(),
        ensures
            self.spec_kinds() <= u32::MAX,
            self.spec_kinds() * self.spec_kinds() <= usize::MAX,
    {
        let k = self.kinds as int;
        if k > u32::MAX {
            assert(k * k > u64::MAX) by (nonlinear_arith)
                requires
                    k >= 0x1_0000_0000,
            ;
        }
    }

    /// In a filled table the strength of a kind toward itself is never
    /// positive.
    pub proof fn lemma_self_strength(&self, draws: &KindDraws, a: int)
        requires
            self.holds(draws),
            0 <= a < self.spec_kinds(),
        ensures
            self.spec_attrac(a, a) <= 0,
    {
    }

    /// Two tables filled from the same draws agree in every colour, strength
    /// and range.
    pub proof fn lemma_same_draws_same_table(&self, other: &ParticleKinds, draws: &KindDraws)
        requires
            self.spec_kinds() == other.spec_kinds(),
            self.holds(draws),
            other.holds(draws),
        ensures
            self.same_colours(other),
            self.same_attrac(other),
            self.same_range(other),
    {
    }

    /// A table for `kinds` kinds: black colours, no strength, no range.
    pub fn new(kinds: usize) -> (table: ParticleKinds)
        requires
            kinds * kinds <= usize::MAX,
        ensures
            table.wf(),
            table.spec_kinds() == kinds,
            forall|a: int| 0 <= a < kinds ==> table.spec_colour(a) == (0u8, 0u8, 0u8),
            forall|a: int, b: int|
                0 <= a < kinds && 0 <= b < kinds ==> table.spec_attrac(a, b) == 0
                    && table.spec_range(a, b) == 0,
    {
        let cells: usize = kinds * kinds;
        let mut colours: Vec<Colour> = Vec::new();
        let mut i: usize = 0;
        while i < kinds
            invariant
                i <= kinds,
                colours@.len() == i,
                forall|a: int| 0 <= a < i ==> colours@[a] == (0u8, 0u8, 0u8),
            decreases kinds - i,
        {
            colours.push((0u8, 0u8, 0u8));
            i += 1;
        }
        let attrac: Vec<i64> = vec![0i64; cells];
        let range: Vec<i64> = vec![0i64; cells];
        let table = ParticleKinds { kinds, colours, attrac, range };
        assert forall|a: int, b: int| 0 <= a < kinds && 0 <= b < kinds implies table.spec_attrac(
            a,
            b,
        ) == 0 && table.spec_range(a, b) == 0 by {
            lemma_cell_inside(a, b, kinds as int);
        }
        table
    }

    /// Sets every strength and every range to zero. The number of kinds and
    /// the colours stay.
    pub fn clear(&mut self)
        requires
            old(self).wf(),
        ensures
            final(self).wf(),
            final(self).spec_kinds() == old(self).spec_kinds(),
            final(self).same_colours(old(self)),
            forall|a: int, b: int|
                0 <= a < final(self).spec_kinds() && 0 <= b < final(self).spec_kinds()
                    ==> final(self).spec_attrac(a, b) == 0 && final(self).spec_range(a, b) == 0,
    {
        let cells: usize = self.attrac.len();
        let mut i: usize = 0;
        while i < cells
            invariant
                i <= cells,
                self.kinds == old(self).kinds,
                self.colours == old(self).colours,
                self.attrac@.len() == cells,
                self.range@.len() == cells,
                forall|c: int| 0 <= c < i ==> self.attrac@[c] == 0 && self.range@[c] == 0,
            decreases cells - i,
        {
            self.attrac[i] = 0;
            self.range[i] = 0;
            i += 1;
        }
        assert forall|a: int, b: int|
            0 <= a < self.spec_kinds() && 0 <= b < self.spec_kinds() implies self.spec_attrac(a, b)
            == 0 && self.spec_range(a, b) == 0 by {
            lemma_cell_inside(a, b, self.kinds as int);
        }
    }

    /// Fills the table from `draws`.
    pub fn fill(&mut self, draws: &KindDraws)
        requires
            old(self).wf(),
            draws.fits(old(self).spec_kinds()),
        ensures
            final(self).wf(),
            final(self).spec_kinds() == old(self).spec_kinds(),
            final(self).holds(draws),
    {
        let k: usize = self.kinds;
        let mut a: usize = 0;
        while a < k
            invariant
                a <= k,
                k == self.kinds,
                self.wf(),
                draws.fits(k as nat),
                forall|c: int| 0 <= c < a ==> self.colours@[c] == hue_colour(draws.hues@[c] as int),
                forall|c: int, d: int|
                    0 <= c < a && 0 <= d < k ==> self.attrac@[#[trigger] cell(c, d, k as int)]
                        == settled(draws.strengths@[cell(c, d, k as int)] as int, c == d)
                        && self.range@[cell(c, d, k as int)] == draws.ranges@[cell(
                        c,
                        d,
                        k as int,
                    )],
            decreases k - a,
        {
            self.colours[a] = hsv_to_rgb(draws.hues[a], ONE, ONE);
            let mut b: usize = 0;
            while b < k
                invariant
                    a < k,
                    b <= k,
                    k == self.kinds,
                    self.wf(),
                    draws.fits(k as nat),
                    forall|c: int|
                        0 <= c <= a ==> self.colours@[c] == hue_colour(draws.hues@[c] as int),
                    forall|c: int, d: int|
                        0 <= c < a && 0 <= d < k ==> self.attrac@[#[trigger] cell(c, d, k as int)]
                            == settled(draws.strengths@[cell(c, d, k as int)] as int, c == d)
                            && self.range@[cell(c, d, k as int)] == draws.ranges@[cell(
                            c,
                            d,
                            k as int,
                        )],
                    forall|d: int|
                        0 <= d < b ==> self.attrac@[#[trigger] cell(a as int, d, k as int)]
                            == settled(
                            draws.strengths@[cell(a as int, d, k as int)] as int,
                            a as int == d,
                        ) && self.range@[cell(a as int, d, k as int)] == draws.ranges@[cell(
                            a as int,
                            d,
                            k as int,
                        )],
                decreases k - b,
            {
                proof {
                    lemma_cell_inside(a as int, b as int, k as int);
                    assert forall|c: int, d: int| 0 <= c < k && 0 <= d < k implies 0
                        <= #[trigger] cell(c, d, k as int) < k * k && (c != a || d != b ==> cell(
                        c,
                        d,
                        k as int,
                    ) != cell(a as int, b as int, k as int)) by {
                        lemma_cell_inside(c, d, k as int);
                        if cell(c, d, k as int) == cell(a as int, b as int, k as int) {
                            lemma_cell_unique(c, d, a as int, b as int, k as int);
                        }
                    }
                }
                let i: usize = a * k + b;
                self.attrac[i] = settle_strength(draws.strengths[i], a == b);
                self.range[i] = draws.ranges[i];
                b += 1;
            }
            a += 1;
        }
    }

    /// Tests whether the table is well formed.
    pub fn is_wf(&self) -> (ok: bool)
        ensures
            ok == self.wf(),
    {
        match self.kinds.checked_mul(self.kinds) {
            Some(cells) => self.colours.len() == self.kinds && self.attrac.len() == cells
                && self.range.len() == cells,
            None => false,
        }
    }

    /// The number of kinds.
    pub fn kinds(&self) -> (k: usize)
        ensures
            k == self.spec_kinds(),
    {
        self.kinds
    }

    /// The colour of kind `a`.
    pub fn colour(&self, a: usize) -> (c: Colour)
        requires
            self.wf(),
            a < self.spec_kinds(),
        ensures
            c == self.spec_colour(a as int),
    {
        self.colours[a]
    }

    /// Gives kind `a` the colour `v`. Nothing else changes.
    pub fn set_colour(&mut self, a: usize, v: Colour)
        requires
            old(self).wf(),
            a < old(self).spec_kinds(),
        ensures
            final(self).wf(),
            final(self).spec_kinds() == old(self).spec_kinds(),
            final(self).spec_colour(a as int) == v,
            forall|c: int|
                0 <= c < final(self).spec_kinds() && c != a ==> final(self).spec_colour(c)
                    == old(self).spec_colour(c),
            final(self).same_attrac(old(self)),
            final(self).same_range(old(self)),
    {
        self.colours[a] = v;
    }

    /// The strength of kind `a` toward kind `b`.
    pub fn attrac(&self, a: usize, b: usize) -> (v: i64)
        requires
            self.wf(),
            a < self.spec_kinds(),
            b < self.spec_kinds(),
        ensures
            v == self.spec_attrac(a as int, b as int),
    {
        proof {
            lemma_cell_inside(a as int, b as int, self.kinds as int);
        }
        let i: usize = a * self.kinds + b;
        self.attrac[i]
    }

    /// Makes `v` the strength of kind `a` toward kind `b`. Nothing else
    /// changes.
    pub fn set_attrac(&mut self, a: usize, b: usize, v: i64)
        requires
            old(self).wf(),
            a < old(self).spec_kinds(),
            b < old(self).spec_kinds(),
        ensures
            final(self).wf(),
            final(self).spec_kinds() == old(self).spec_kinds(),
            final(self).spec_attrac(a as int, b as int) == v,
            forall|c: int, d: int|
                0 <= c < final(self).spec_kinds() && 0 <= d < final(self).spec_kinds() && (c != a
                    || d != b) ==> final(self).spec_attrac(c, d) == old(self).spec_attrac(c, d),
            final(self).same_colours(old(self)),
            final(self).same_range(old(self)),
    {
        proof {
            lemma_cell_inside(a as int, b as int, self.kinds as int);
        }
        let i: usize = a * self.kinds + b;
        self.attrac[i] = v;
        assert forall|c: int, d: int|
            0 <= c < self.kinds && 0 <= d < self.kinds && (c != a || d != b) implies
            self.spec_attrac(c, d) == old(self).spec_attrac(c, d) by {
            lemma_cell_inside(c, d, self.kinds as int);
            if cell(c, d, self.kinds as int) == i {
                lemma_cell_unique(c, d, a as int, b as int, self.kinds as int);
            }
        }
    }

    /// From how far kind `a` feels kind `b`.
    pub fn range(&self, a: usize, b: usize) -> (v: i64)
        requires
            self.wf(),
            a < self.spec_kinds(),
            b < self.spec_kinds(),
        ensures
            v == self.spec_range(a as int, b as int),
    {
        proof {
            lemma_cell_inside(a as int, b as int, self.kinds as int);
        }
        let i: usize = a * self.kinds + b;
        self.range[i]
    }

    /// Makes `v` the distance from which kind `a` feels kind `b`. Nothing
    /// else changes.
    pub fn set_range(&mut self, a: usize, b: usize, v: i64)
        requires
            old(self).wf(),
            a < old(self).spec_kinds(),
            b < old(self).spec_kinds(),
        ensures
            final(self).wf(),
            final(self).spec_kinds() == old(self).spec_kinds(),
            final(self).spec_range(a as int, b as int) == v,
            forall|c: int, d: int|
                0 <= c < final(self).spec_kinds() && 0 <= d < final(self).spec_kinds() && (c != a
                    || d != b) ==> final(self).spec_range(c, d) == old(self).spec_range(c, d),
            final(self).same_colours(old(self)),
            final(self).same_attrac(old(self)),
    {
        proof {
            lemma_cell_inside(a as int, b as int, self.kinds as int);
        }
        let i: usize = a * self.kinds + b;
        self.range[i] = v;
        assert forall|c: int, d: int|
            0 <= c < self.kinds && 0 <= d < self.kinds && (c != a || d != b) implies
            self.spec_range(c, d) == old(self).spec_range(c, d) by {
            lemma_cell_inside(c, d, self.kinds as int);
            if cell(c, d, self.kinds as int) == i {
                lemma_cell_unique(c, d, a as int, b as int, self.kinds as int);
            }
        }
    }
}

} // verus!
