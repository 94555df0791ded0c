//! The force that one particle feels from another, and from all others.
//!
//! The strengths that two kinds hold toward each other are summed. Where the
//! sum is positive, particles that are apart are driven away from each other
//! and particles that touch are drawn together; where it is negative it is
//! the other way round.
//!
//! Distances are compared by their squares, which are exact. Only the unit
//! direction and the quotient of strength by squared distance are rounded,
//! both toward zero.
use vstd::prelude::*;
use vstd::arithmetic::div_mod::{
    lemma_div_is_ordered,
    lemma_div_is_ordered_by_denominator,
    lemma_div_multiples_vanish,
    lemma_div_pos_is_pos,
};
use crate::kinds::ParticleKinds;
use crate::particle::Particle;
use crate::scalar::{
    floor_sqrt,
    is_floor_sqrt,
    isqrt,
    lemma_floor_sqrt_exists,
    lemma_square_monotone,
    saturate,
    saturating,
    trunc_div,
    ONE,
};
use crate::vec2::Vec2;

verus! {

/// The square of one, in squared scalar units.
pub const ONE_SQ: i128 = 1_000_000_000_000_000_000;

/// Particles closer than a tenth of a unit do not act on each other; this is
/// the square of that distance. A particle so ignores itself.
pub const MIN_DIST_SQ: u128 = 10_000_000_000_000_000;

/// Same-kind particles closer than twenty units crowd each other; this is
/// the square of that distance.
pub const CROWD_DIST_SQ: u128 = 400_000_000_000_000_000_000;

/// No range is longer than this: the size of the least scalar.
pub const FAR: u128 = 0x8000_0000_0000_0000;

/// The square of [`FAR`]: particles farther apart than this are out of
/// every range.
pub const FAR_SQ: u128 = 0x4000_0000_0000_0000_0000_0000_0000_0000;

/// No two strengths sum to more than this in size.
pub const MAX_ATTRAC: i128 = 0x1_0000_0000_0000_0000;

/// No force is larger than this in size: a hundred times [`MAX_ATTRAC`].
pub const MAX_FORCE: i128 = 0x64_0000_0000_0000_0000;

/// A particle with this many crowding neighbours changes its kind.
pub const CROWD_LIMIT: usize = 4;

/// The squared distance between two particles.
pub open spec fn dist_sq(a: Particle, b: Particle) -> int {
    (a.pos.x - b.pos.x) * (a.pos.x - b.pos.x) + (a.pos.y - b.pos.y) * (a.pos.y - b.pos.y)
}

/// Two particles at squared distance `d2` act on each other: they are
/// neither farther apart than `range` nor nearly at one place.
pub open spec fn in_reach(d2: int, range: int) -> bool {
    d2 <= range * range && d2 >= MIN_DIST_SQ
}

/// Two particles at squared distance `d2` do not touch: they are farther
/// apart than the sum of their diameters.
pub open spec fn apart(d2: int, a_rad: int, b_rad: int) -> bool {
    let reach = 2 * a_rad + 2 * b_rad;
    reach < 0 || d2 > reach * reach
}

/// The force between two particles whose kinds hold the strengths `att`
/// toward each other in sum: `att` over the squared distance where they are apart, the
/// opposite where they touch, and never more than one.
pub open spec fn pair_force(att: int, d2: int, apart: bool) -> int {
    let raw = if apart {
        trunc_div(att * ONE_SQ, d2)
    } else {
        trunc_div(-att * ONE_SQ, d2)
    };
    if raw > ONE {
        ONE as int
    } else {
        raw
    }
}

/// One component of the unit vector along a displacement of length `d`.
pub open spec fn unit(dx: int, d: int) -> int {
    trunc_div(dx * ONE, d)
}

/// The strengths that the kinds of two particles hold toward each other,
/// summed.
pub open spec fn mutual_attrac(a: Particle, b: Particle, kinds: &ParticleKinds) -> int {
    kinds.spec_attrac(a.kind as int, b.kind as int) + kinds.spec_attrac(
        b.kind as int,
        a.kind as int,
    )
}

/// `b` acts on `a`.
pub open spec fn acts_on(a: Particle, b: Particle, kinds: &ParticleKinds) -> bool {
    in_reach(dist_sq(a, b), kinds.spec_range(a.kind as int, b.kind as int))
}

/// What `b` adds to the velocity of `a`: the unit vector from `b` to `a`
/// times the force between them, or nothing where `b` does not act on `a`.
pub open spec fn pair_push(a: Particle, b: Particle, kinds: &ParticleKinds) -> (int, int) {
    if acts_on(a, b, kinds) {
        let d2 = dist_sq(a, b);
        let d = floor_sqrt(d2);
        let f = pair_force(mutual_attrac(a, b, kinds), d2, apart(d2, a.rad as int, b.rad as int));
        (
            trunc_div(unit(a.pos.x - b.pos.x, d) * f, ONE as int),
            trunc_div(unit(a.pos.y - b.pos.y, d) * f, ONE as int),
        )
    } else {
        (0, 0)
    }
}

/// `b` crowds `a`: it acts on `a`, is of the same kind, and is closer than
/// twenty units.
pub open spec fn crowds(a: Particle, b: Particle, kinds: &ParticleKinds) -> bool {
    acts_on(a, b, kinds) && dist_sq(a, b) < CROWD_DIST_SQ && a.kind == b.kind
}

/// The velocity of `a` after the first `n` of `others` have acted on it, one
/// after the other.
pub open spec fn pulled_vel(
    a: Particle,
    others: Seq<Particle>,
    kinds: &ParticleKinds,
    n: int,
) -> Vec2
    decreases n,
{
    if n <= 0 {
        a.vel
    } else {
        let v = pulled_vel(a, others, kinds, n - 1);
        let push = pair_push(a, others[n - 1], kinds);
        Vec2 { x: saturate(v.x + push.0) as i64, y: saturate(v.y + push.1) as i64 }
    }
}

/// How many of the first `n` of `others` crowd `a`.
pub open spec fn crowd(a: Particle, others: Seq<Particle>, kinds: &ParticleKinds, n: int) -> int
    decreases n,
{
    if n <= 0 {
        0
    } else {
        crowd(a, others, kinds, n - 1) + if crowds(a, others[n - 1], kinds) {
            1int
        } else {
            0int
        }
    }
}

/// `a` is overcrowded among `others`.
pub open spec fn crowded(a: Particle, others: Seq<Particle>, kinds: &ParticleKinds) -> bool {
    crowd(a, others, kinds, others.len() as int) >= CROWD_LIMIT
}

/// Every kind among `parts` is a row of the table.
pub open spec fn kinds_known(parts: Seq<Particle>, kinds: &ParticleKinds) -> bool {
    forall|i: int| 0 <= i < parts.len() ==> (#[trigger] parts[i]).kind < kinds.spec_kinds()
}

/// The force between two particles is never more than one. It is never less
/// than minus a hundred times the size of their summed strengths, and where
/// that sum is no larger in size than the squared distance, the force
/// is no larger than one either way.
pub proof fn lemma_pair_force_bounds(att: int, d2: int, apart: bool)
    requires
        d2 >= MIN_DIST_SQ,
    ensures
        pair_force(att, d2, apart) <= ONE,
        att >= 0 ==> -100 * att <= pair_force(att, d2, apart),
        att <= 0 ==> 100 * att <= pair_force(att, d2, apart),
        -d2 <= att * ONE <= d2 ==> -ONE <= pair_force(att, d2, apart) <= ONE,
{
    let size = if att >= 0 {
        att
    } else {
        -att
    };
    let num = size * ONE_SQ;
    assert(num >= 0) by (nonlinear_arith)
        requires
            num == size * ONE_SQ,
            size >= 0,
    ;
    lemma_div_is_ordered_by_denominator(num, MIN_DIST_SQ as int, d2);
    lemma_div_pos_is_pos(num, d2);
    assert(num / (MIN_DIST_SQ as int) == 100 * size);
    assert(att * ONE_SQ == num || att * ONE_SQ == -num) by (nonlinear_arith)
        requires
            num == size * ONE_SQ,
            size == att || size == -att,
    ;
    assert(-att * ONE_SQ == -(att * ONE_SQ)) by (nonlinear_arith);
    if -d2 <= att * ONE <= d2 {
        assert(num <= d2 * ONE) by (nonlinear_arith)
            requires
                num == size * ONE_SQ,
                size == att || size == -att,
                -d2 <= att * ONE <= d2,
        ;
        lemma_div_is_ordered(num, d2 * ONE, d2);
        lemma_div_multiples_vanish(ONE as int, d2);
    }
}

/// Nothing as long as [`FAR`] at most has a square above [`FAR_SQ`], and
/// everything longer has.
proof fn lemma_far(v: int)
    requires
        0 <= v,
    ensures
        v <= FAR ==> v * v <= FAR_SQ,
        v > FAR ==> v * v > FAR_SQ,
{
    assert(0x8000_0000_0000_0000int * 0x8000_0000_0000_0000int
        == 0x4000_0000_0000_0000_0000_0000_0000_0000int) by (nonlinear_arith);
    if v <= FAR {
        lemma_square_monotone(v, FAR as int);
    } else {
        lemma_square_monotone(FAR + 1, v);
        assert((FAR + 1) * (FAR + 1) > FAR * FAR) by (nonlinear_arith);
    }
}

/// A displacement is no longer along one axis than it is in all.
proof fn lemma_component_below_length(dx: int, dy: int, d: int)
    requires
        is_floor_sqrt(dx * dx + dy * dy, d),
    ensures
        -d <= dx <= d,
{
    assert(dy * dy >= 0) by (nonlinear_arith);
    if dx > d {
        lemma_square_monotone(d + 1, dx);
    } else if dx < -d {
        lemma_square_monotone(d + 1, -dx);
        assert((-dx) * (-dx) == dx * dx) by (nonlinear_arith);
    }
}

/// A component of a unit vector lies between minus one and one.
proof fn lemma_unit_bounds(dx: int, d: int)
    requires
        0 < d,
        -d <= dx <= d,
    ensures
        -ONE <= unit(dx, d) <= ONE,
{
    let size = if dx >= 0 {
        dx
    } else {
        -dx
    };
    assert(0 <= size * ONE <= d * ONE) by (nonlinear_arith)
        requires
            0 <= size <= d,
    ;
    lemma_div_is_ordered(size * ONE, d * ONE, d);
    lemma_div_multiples_vanish(ONE as int, d);
    lemma_div_pos_is_pos(size * ONE, d);
    assert(-dx * ONE == -(dx * ONE)) by (nonlinear_arith);
}

/// The length of a displacement within reach: a tenth of a unit at least,
/// [`FAR`] at most.
proof fn lemma_length_bounds(d2: int, d: int)
    requires
        is_floor_sqrt(d2, d),
        MIN_DIST_SQ <= d2 <= FAR_SQ,
    ensures
        100_000_000 <= d <= FAR,
{
    if d < 100_000_000 {
        lemma_square_monotone(d + 1, 100_000_000);
    }
    lemma_far(d);
}

/// Particles that are apart are driven away from each other where `att` is
/// positive and drawn together where it is negative; for particles that
/// touch it is the other way round. The sign of the force tells which: a
/// positive force drives away.
pub proof fn lemma_pair_force_sign(att: int, d2: int, apart: bool)
    requires
        d2 > 0,
    ensures
        att >= 0 && apart ==> pair_force(att, d2, apart) >= 0,
        att <= 0 && apart ==> pair_force(att, d2, apart) <= 0,
        att >= 0 && !apart ==> pair_force(att, d2, apart) <= 0,
        att <= 0 && !apart ==> pair_force(att, d2, apart) >= 0,
{
    let size = if att >= 0 {
        att
    } else {
        -att
    };
    let num = size * ONE_SQ;
    assert(num >= 0 && (att * ONE_SQ == num || att * ONE_SQ == -num) && -att * ONE_SQ == -(att
        * ONE_SQ)) by (nonlinear_arith)
        requires
            num == size * ONE_SQ,
            size >= 0,
            size == att || size == -att,
    ;
    lemma_div_pos_is_pos(num, d2);
}

/// A particle that nothing acts on keeps its velocity, and nothing crowds
/// it.
pub proof fn lemma_out_of_reach(a: Particle, others: Seq<Particle>, kinds: &ParticleKinds, n: int)
    requires
        0 <= n <= others.len(),
        forall|i: int| 0 <= i < n ==> !acts_on(a, #[trigger] others[i], kinds),
    ensures
        pulled_vel(a, others, kinds, n) == a.vel,
        crowd(a, others, kinds, n) == 0,
    decreases n,
{
    if n > 0 {
        lemma_out_of_reach(a, others, kinds, n - 1);
    }
}

/// Along each axis, what one particle adds to the velocity of another
/// points away from the other particle where the force between them is
/// positive, and toward it where the force is negative.
pub proof fn lemma_pair_push_direction(a: Particle, b: Particle, kinds: &ParticleKinds)
    requires
        acts_on(a, b, kinds),
    ensures
        ({
            let push = pair_push(a, b, kinds);
            let dx = a.pos.x - b.pos.x;
            let dy = a.pos.y - b.pos.y;
            let d2 = dist_sq(a, b);
            let f = pair_force(
                mutual_attrac(a, b, kinds),
                d2,
                apart(d2, a.rad as int, b.rad as int),
            );
            &&& f >= 0 && dx >= 0 || f <= 0 && dx <= 0 ==> push.0 >= 0
            &&& f >= 0 && dx <= 0 || f <= 0 && dx >= 0 ==> push.0 <= 0
            &&& f >= 0 && dy >= 0 || f <= 0 && dy <= 0 ==> push.1 >= 0
            &&& f >= 0 && dy <= 0 || f <= 0 && dy >= 0 ==> push.1 <= 0
        }),
{
    let dx = a.pos.x - b.pos.x;
    let dy = a.pos.y - b.pos.y;
    let d2 = dist_sq(a, b);
    let f = pair_force(mutual_attrac(a, b, kinds), d2, apart(d2, a.rad as int, b.rad as int));
    lemma_floor_sqrt_exists(d2);
    let d = floor_sqrt(d2);
    assert(d > 0) by (nonlinear_arith)
        requires
            0 <= d,
            (d + 1) * (d + 1) > d2,
            d2 >= MIN_DIST_SQ,
    ;
    lemma_quotient_sign(dx * ONE, d);
    lemma_quotient_sign(dy * ONE, d);
    lemma_product_sign(dx, ONE as int);
    lemma_product_sign(dy, ONE as int);
    lemma_product_sign(unit(dx, d), f);
    lemma_product_sign(unit(dy, d), f);
    lemma_quotient_sign(unit(dx, d) * f, ONE as int);
    lemma_quotient_sign(unit(dy, d) * f, ONE as int);
}

/// A quotient rounded toward zero has the sign of what is divided, or is
/// zero.
proof fn lemma_quotient_sign(a: int, b: int)
    requires
        0 < b,
    ensures
        a >= 0 ==> trunc_div(a, b) >= 0,
        a <= 0 ==> trunc_div(a, b) <= 0,
{
    if a >= 0 {
        lemma_div_pos_is_pos(a, b);
    } else {
        lemma_div_pos_is_pos(-a, b);
    }
}

/// A product has the sign that the signs of its factors give it.
proof fn lemma_product_sign(a: int, b: int)
    ensures
        a >= 0 && b >= 0 || a <= 0 && b <= 0 ==> a * b >= 0,
        a >= 0 && b <= 0 || a <= 0 && b >= 0 ==> a * b <= 0,
{
    assert((a >= 0 && b >= 0 || a <= 0 && b <= 0 ==> a * b >= 0) && (a >= 0 && b <= 0 || a <= 0
        && b >= 0 ==> a * b <= 0)) by (nonlinear_arith);
}

/// What one particle adds to the velocity of another is, along each axis, no
/// larger in size than the force between them. So where the summed
/// strengths of their kinds are no larger in size than their squared
/// distance, no particle adds more than one to the velocity of another.
pub proof fn lemma_pair_push_bounds(a: Particle, b: Particle, kinds: &ParticleKinds)
    ensures
        ({
            let push = pair_push(a, b, kinds);
            let d2 = dist_sq(a, b);
            let att = mutual_attrac(a, b, kinds);
            let f = pair_force(att, d2, apart(d2, a.rad as int, b.rad as int));
            &&& !acts_on(a, b, kinds) ==> push == (0int, 0int)
            &&& acts_on(a, b, kinds) && f >= 0 ==> -f <= push.0 <= f && -f <= push.1 <= f
            &&& acts_on(a, b, kinds) && f <= 0 ==> f <= push.0 <= -f && f <= push.1 <= -f
            &&& acts_on(a, b, kinds) && -d2 <= att * ONE <= d2 ==> -ONE <= push.0 <= ONE && -ONE
                <= push.1 <= ONE
        }),
{
    if acts_on(a, b, kinds) {
        let dx = a.pos.x - b.pos.x;
        let dy = a.pos.y - b.pos.y;
        let d2 = dist_sq(a, b);
        let att = mutual_attrac(a, b, kinds);
        let f = pair_force(att, d2, apart(d2, a.rad as int, b.rad as int));
        lemma_floor_sqrt_exists(d2);
        let d = floor_sqrt(d2);
        assert(d > 0) by (nonlinear_arith)
            requires
                0 <= d,
                (d + 1) * (d + 1) > d2,
                d2 >= MIN_DIST_SQ,
        ;
        assert(dy * dy + dx * dx == dx * dx + dy * dy);
        lemma_component_below_length(dx, dy, d);
        lemma_component_below_length(dy, dx, d);
        lemma_unit_bounds(dx, d);
        lemma_unit_bounds(dy, d);
        lemma_pair_force_bounds(att, d2, apart(d2, a.rad as int, b.rad as int));
        lemma_product_below(unit(dx, d), f);
        lemma_product_below(unit(dy, d), f);
    }
}

/// A number times a share between minus one and one, as a scalar, is no
/// larger in size than the number.
proof fn lemma_product_below(u: int, f: int)
    requires
        -ONE <= u <= ONE,
    ensures
        f >= 0 ==> -f <= trunc_div(u * f, ONE as int) <= f,
        f <= 0 ==> f <= trunc_div(u * f, ONE as int) <= -f,
{
    let size = if f >= 0 {
        f
    } else {
        -f
    };
    assert(-(size * ONE) <= u * f <= size * ONE) by (nonlinear_arith)
        requires
            -ONE <= u <= ONE,
            size == f || size == -f,
            size >= 0,
    ;
}

/// What one particle does to another.
#[derive(Clone, Copy, Debug, PartialEq, Eq, Structural)]
pub struct Pull {
    /// What is added to the velocity, along `x`.
    pub x: i128,
    /// What is added to the velocity, along `y`.
    pub y: i128,
    /// Whether the other particle crowds this one.
    pub crowds: bool,
}

fn magnitude(v: i128) -> (m: u128)
    requires
        -MAX_ATTRAC < v < MAX_ATTRAC,
    ensures
        m == if v >= 0 {
            v as int
        } else {
            -(v as int)
        },
        m * m == v * v,
        m * m <= 0xffff_ffff_ffff_ffff_ffff_ffff_ffff_ffff,
{
    let m: u128 = if v >= 0 {
        v as u128
    } else {
        (-v) as u128
    };
    assert(m * m == v * v) by (nonlinear_arith)
        requires
            m == v || m == -v,
    ;
    assert(m * m <= 0xffff_ffff_ffff_ffff_ffff_ffff_ffff_ffff) by (nonlinear_arith)
        requires
            0 <= m <= 0xffff_ffff_ffff_ffff,
    ;
    m
}

/// The squared distance between two particles, unless they are out of
/// every range.
fn distance_sq(a: &Particle, b: &Particle) -> (r: Option<u128>)
    ensures
        match r {
            Some(d2) => d2 == dist_sq(*a, *b) && d2 <= FAR_SQ,
            None => dist_sq(*a, *b) > FAR_SQ,
        },
{
    let dx: i128 = a.pos.x as i128 - b.pos.x as i128;
    let dy: i128 = a.pos.y as i128 - b.pos.y as i128;
    let mx: u128 = magnitude(dx);
    let my: u128 = magnitude(dy);
    let xx: u128 = mx * mx;
    let yy: u128 = my * my;
    if xx > FAR_SQ || yy > FAR_SQ {
        return None;
    }
    let d2: u128 = xx + yy;
    if d2 > FAR_SQ {
        None
    } else {
        Some(d2)
    }
}

fn are_apart(d2: u128, a_rad: i64, b_rad: i64) -> (r: bool)
    requires
        d2 <= FAR_SQ,
    ensures
        r == apart(d2 as int, a_rad as int, b_rad as int),
{
    let reach: i128 = 2 * (a_rad as i128) + 2 * (b_rad as i128);
    if reach < 0 {
        true
    } else {
        proof {
            lemma_far(reach as int);
        }
        if reach > FAR as i128 {
            false
        } else {
            let wide: u128 = reach as u128;
            d2 > wide * wide
        }
    }
}

/// The force between two particles at squared distance `d2` whose kinds
/// hold the strengths `att` toward each other in sum.
pub fn force(att: i128, d2: u128, apart: bool) -> (f: i128)
    requires
        -MAX_ATTRAC <= att <= MAX_ATTRAC,
        MIN_DIST_SQ <= d2 <= FAR_SQ,
    ensures
        f == pair_force(att as int, d2 as int, apart),
        f <= ONE,
        -MAX_FORCE <= f,
{
    proof {
        lemma_pair_force_bounds(att as int, d2 as int, apart);
    }
    assert(-MAX_ATTRAC * ONE_SQ <= att * ONE_SQ <= MAX_ATTRAC * ONE_SQ)
        by (nonlinear_arith)
        requires
            -MAX_ATTRAC <= att <= MAX_ATTRAC,
    ;
    let num: i128 = if apart {
        att * ONE_SQ
    } else {
        -att * ONE_SQ
    };
    assert(-(att as int) * ONE_SQ == -(att * ONE_SQ)) by (nonlinear_arith);
    let raw: i128 = num / (d2 as i128);
    if raw > ONE as i128 {
        ONE as i128
    } else {
        raw
    }
}

fn unit_of(dx: i128, d: u64) -> (u: i128)
    requires
        0 < d,
        -d <= dx <= d,
    ensures
        u == unit(dx as int, d as int),
        -ONE <= u <= ONE,
{
    proof {
        lemma_unit_bounds(dx as int, d as int);
    }
    assert(-0xffff_ffff_ffff_ffff * ONE <= dx * ONE <= 0xffff_ffff_ffff_ffff * ONE)
        by (nonlinear_arith)
        requires
            -0xffff_ffff_ffff_ffff <= dx <= 0xffff_ffff_ffff_ffff,
    ;
    dx * (ONE as i128) / (d as i128)
}

fn push_of(u: i128, f: i128) -> (p: i128)
    requires
        -ONE <= u <= ONE,
        -MAX_FORCE <= f <= ONE,
    ensures
        p == trunc_div(u * f, ONE as int),
        -MAX_FORCE <= p <= MAX_FORCE,
{
    assert(-MAX_FORCE * ONE <= u * f <= MAX_FORCE * ONE)
        by (nonlinear_arith)
        requires
            -ONE <= u <= ONE,
            -MAX_FORCE <= f <= ONE,
    ;
    u * f / (ONE as i128)
}

/// What `b` does to `a`.
pub fn pull(a: &Particle, b: &Particle, kinds: &ParticleKinds) -> (r: Pull)
    requires
        kinds.wf(),
        a.kind < kinds.spec_kinds(),
        b.kind < kinds.spec_kinds(),
    ensures
        (r.x as int, r.y as int) == pair_push(*a, *b, kinds),
        r.crowds == crowds(*a, *b, kinds),
        -MAX_FORCE <= r.x <= MAX_FORCE,
        -MAX_FORCE <= r.y <= MAX_FORCE,
{
    let range: i64 = kinds.range(a.kind, b.kind);
    let reach: u128 = magnitude(range as i128);
    let d2: u128 = match distance_sq(a, b) {
        Some(d2) => d2,
        None => {
            proof {
                lemma_far(reach as int);
            }
            return Pull { x: 0, y: 0, crowds: false };
        },
    };
    if d2 > reach * reach || d2 < MIN_DIST_SQ {
        return Pull { x: 0, y: 0, crowds: false };
    }
    let d: u64 = isqrt(d2);
    let dx: i128 = a.pos.x as i128 - b.pos.x as i128;
    let dy: i128 = a.pos.y as i128 - b.pos.y as i128;
    proof {
        lemma_length_bounds(d2 as int, d as int);
        lemma_component_below_length(dx as int, dy as int, d as int);
        assert(dy * dy + dx * dx == dx * dx + dy * dy);
        lemma_component_below_length(dy as int, dx as int, d as int);
    }
    let att: i128 = kinds.attrac(a.kind, b.kind) as i128 + kinds.attrac(b.kind, a.kind) as i128;
    let f: i128 = force(att, d2, are_apart(d2, a.rad, b.rad));
    Pull {
        x: push_of(unit_of(dx, d), f),
        y: push_of(unit_of(dy, d), f),
        crowds: d2 < CROWD_DIST_SQ && a.kind == b.kind,
    }
}

/// What all of `others` together do to `a`.
#[derive(Clone, Copy, Debug, PartialEq, Eq, Structural)]
pub struct Pulled {
    /// The velocity of the particle after every other one has acted on it.
    pub vel: Vec2,
    /// Whether the particle is overcrowded.
    pub crowded: bool,
}

/// Lets every particle of `others` act on `a`, in order, and counts those
/// that crowd it. `a` itself may be among them: it is too close to itself to
/// count.
pub fn pull_all(a: &Particle, others: &Vec<Particle>, kinds: &ParticleKinds) -> (r: Pulled)
    requires
        kinds.wf(),
        a.kind < kinds.spec_kinds(),
        kinds_known(others@, kinds),
    ensures
        r.vel == pulled_vel(*a, others@, kinds, others@.len() as int),
        r.crowded == crowded(*a, others@, kinds),
{
    let mut vel: Vec2 = a.vel;
    let mut count: usize = 0;
    let mut i: usize = 0;
    while i < others.len()
        invariant
            i <= others@.len(),
            kinds.wf(),
            a.kind < kinds.spec_kinds(),
            kinds_known(others@, kinds),
            vel == pulled_vel(*a, others@, kinds, i as int),
            count == crowd(*a, others@, kinds, i as int),
            count <= i,
        decreases others@.len() - i,
    {
        let p: Pull = pull(a, &others[i], kinds);
        vel = Vec2 {
            x: saturating(vel.x as i128 + p.x),
            y: saturating(vel.y as i128 + p.y),
        };
        if p.crowds {
            count += 1;
        }
        i += 1;
    }
    Pulled { vel, crowded: count >= CROWD_LIMIT }
}

} // verus!
