//! The generators of a world, and the draws that the world makes from them.
//!
//! What a generator returns is not stated anywhere: each draw is known only
//! to lie in the range it was asked for. The rules of the world are proved
//! for every value a draw may take.
use vstd::prelude::*;
use rand::rngs::SmallRng;
use rand::{Rng, SeedableRng};
use rand_distr::Alphanumeric;
use rand_seeder::Seeder;

verus! {

/// The generator type of `rand`, carried through as an opaque value.
#[verifier::external_type_specification]
#[verifier::external_body]
pub struct ExSmallRng(SmallRng);

/// `String::push` appends one character.
pub assume_specification[ String::push ](s: &mut String, ch: char)
    ensures
        final(s)@ == old(s)@.push(ch),
;

/// The strengths of a world come from the normal law. Whoever owns the
/// world supplies the law; the world supplies the generator and the
/// configured mean and deviation, and settles the sign of what comes back
/// (see [`settle_strength`](crate::kinds::settle_strength)). Nothing is
/// asked of the law: what the world promises holds whatever it returns.
pub trait StrengthSampler {
    /// One draw from the normal law with the given mean and deviation, as a
    /// scalar.
    fn sample_strength(&mut self, rng: &mut SmallRng, mean: i64, dev: i64) -> i64;
}

/// The characters that a generated seed is made of: ASCII digits and
/// letters.
pub open spec fn is_seed_char(c: char) -> bool {
    let n = c as u32;
    (0x30 <= n <= 0x39) || (0x41 <= n <= 0x5a) || (0x61 <= n <= 0x7a)
}

/// The length of a generated seed.
pub const SEED_LEN: usize = 8;

/// `Seeder::from(seed).make_rng()` of `rand_seeder`: the generator that a
/// seed string stands for. Nothing is claimed of the generator.
#[verifier::external_body]
pub(crate) fn seeded_rng(seed: &String) -> SmallRng {
    Seeder::from(seed).make_rng()
}

/// `SmallRng::from_rng(rand::thread_rng())`: a generator seeded from the
/// thread's own, which the operating system seeds. Filling a seed from the
/// thread's generator cannot fail, so the result is always there; the
/// thread's generator itself gives up where the operating system has no
/// entropy to seed it with. Nothing is claimed of the generator.
#[verifier::external_body]
pub(crate) fn entropy_rng() -> SmallRng {
    SmallRng::from_rng(rand::thread_rng()).unwrap()
}

/// `Rng::sample` with `Alphanumeric`: one byte out of the 62 ASCII digits
/// and letters.
#[verifier::external_body]
pub(crate) fn draw_alphanumeric(rng: &mut SmallRng) -> (b: u8)
    ensures
        is_seed_char(b as char),
{
    rng.sample(Alphanumeric)
}

/// `Rng::gen_range` on an inclusive range of integers: some value of the
/// range. The range must not be empty.
#[verifier::external_body]
pub(crate) fn draw_between(rng: &mut SmallRng, low: i64, high: i64) -> (v: i64)
    requires
        low <= high,
    ensures
        low <= v <= high,
{
    rng.gen_range(low..=high)
}

/// A draw from `low` up to but not including `high`. Where the two are equal
/// there is nothing to draw: the value is `low`, and the generator is left
/// as it was.
pub fn draw_below(rng: &mut SmallRng, low: i64, high: i64) -> (v: i64)
    requires
        low <= high,
    ensures
        low <= v <= high,
        low < high ==> v < high,
        low == high ==> *final(rng) == *old(rng),
{
    if low < high {
        draw_between(rng, low, high - 1)
    } else {
        low
    }
}

/// A draw of one of `count` indices.
pub fn draw_index(rng: &mut SmallRng, count: usize) -> (i: usize)
    requires
        0 < count <= i64::MAX,
    ensures
        i < count,
{
    draw_between(rng, 0, (count - 1) as i64) as usize
}

/// A fresh seed: eight ASCII digits and letters, drawn from a generator
/// that the operating system seeds.
pub fn generate_seed() -> (seed: String)
    ensures
        seed@.len() == SEED_LEN,
        forall|i: int| 0 <= i < seed@.len() ==> is_seed_char(#[trigger] seed@[i]),
{
    let mut rng = entropy_rng();
    let mut seed = String::new();
    let mut i: usize = 0;
    while i < SEED_LEN
        invariant
            i <= SEED_LEN,
            seed@.len() == i,
            forall|j: int| 0 <= j < seed@.len() ==> is_seed_char(#[trigger] seed@[j]),
        decreases SEED_LEN - i,
    {
        let b: u8 = draw_alphanumeric(&mut rng);
        seed.push(b as char);
        i += 1;
    }
    seed
}

} // verus!
