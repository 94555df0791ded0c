use rand::rngs::SmallRng;
use rand::SeedableRng;
use sim::kind_list::{Kinds, ParticleKind};
use sim::scalar::ONE;
use sim::{Boundary, Particle, Span, StrengthSampler, Vec2, WorldParameters};

struct Counting(i64);

impl StrengthSampler for Counting {
    fn sample_strength(&mut self, _rng: &mut SmallRng, _mean: i64, _dev: i64) -> i64 {
        self.0 += 1;
        self.0
    }
}

fn params() -> WorldParameters {
    WorldParameters {
        bounds: Vec2::new(100 * ONE, 100 * ONE),
        attrac_mean: 20_000_000,
        attrac_dev: 40_000_000,
        attrac_range: Span { low: ONE, high: 50 * ONE },
        radius_range: Span { low: 700_000_000, high: 1_300_000_000 },
        friction: 50_000_000,
        boundary: Boundary::Bounce,
        seed: String::new(),
    }
}

fn of_kind(kind: usize, x: i64) -> Particle {
    Particle { pos: Vec2::new(x, x), vel: Vec2::new(-x, x), rad: x, kind }
}

fn row(colour: (u8, u8, u8), attract: Vec<i64>, range: Vec<i64>) -> ParticleKind {
    ParticleKind { colour, attract, range }
}

fn three_kinds() -> Kinds {
    Kinds(vec![
        row((1, 1, 1), vec![-1, 2, 3], vec![10, 20, 30]),
        row((2, 2, 2), vec![4, -5, 6], vec![40, 50, 60]),
        row((3, 3, 3), vec![7, 8, -9], vec![70, 80, 90]),
    ])
}

#[test]
fn a_new_list_is_empty() {
    let kinds = Kinds::new();
    assert_eq!(kinds.len(), 0);
    assert!(kinds.0.is_empty());
}

#[test]
fn the_first_kind_is_numbered_zero() {
    let mut kinds = Kinds::new();
    let mut rng = SmallRng::seed_from_u64(1);
    let id = kinds.new_kind(&params(), &mut rng, &mut Counting(0));
    assert_eq!(id, 0);
    assert_eq!(kinds.len(), 1);
    assert_eq!(kinds.get(0).attract, vec![-1]);
    assert_eq!(kinds.get(0).range.len(), 1);
    let range = kinds.get(0).range[0];
    assert!(ONE <= range && range < 50 * ONE);
    let (r, g, b) = kinds.get(0).colour;
    assert!(r == 255 || g == 255 || b == 255);
    assert!(r == 0 || g == 0 || b == 0);
}

#[test]
fn new_kinds_are_numbered_in_order() {
    let mut kinds = Kinds::new();
    let mut rng = SmallRng::seed_from_u64(2);
    let mut sampler = Counting(0);
    for expected in 0..6u16 {
        assert_eq!(kinds.new_kind(&params(), &mut rng, &mut sampler), expected);
        assert_eq!(kinds.len(), expected as usize + 1);
        for a in 0..=expected {
            assert_eq!(kinds.get(a).attract.len(), expected as usize + 1);
            assert_eq!(kinds.get(a).range.len(), expected as usize + 1);
        }
    }
}

#[test]
fn a_new_kind_gets_a_row_and_a_column() {
    let mut kinds = three_kinds();
    let mut rng = SmallRng::seed_from_u64(3);
    let id = kinds.new_kind(&params(), &mut rng, &mut Counting(100));
    assert_eq!(id, 3);
    assert_eq!(kinds.get(0).attract, vec![-1, 2, 3, 102]);
    assert_eq!(kinds.get(1).attract, vec![4, -5, 6, 104]);
    assert_eq!(kinds.get(2).attract, vec![7, 8, -9, 106]);
    assert_eq!(kinds.get(3).attract, vec![101, 103, 105, -107]);
    assert_eq!(kinds.get(0).colour, (1, 1, 1));
    assert_eq!(kinds.get(1).colour, (2, 2, 2));
    assert_eq!(kinds.get(2).colour, (3, 3, 3));
    assert_eq!(&kinds.get(0).range[..3], &[10, 20, 30]);
    assert_eq!(&kinds.get(1).range[..3], &[40, 50, 60]);
    assert_eq!(&kinds.get(2).range[..3], &[70, 80, 90]);
    for a in 0..4 {
        let toward = kinds.get(3).range[a];
        let from = kinds.get(a as u16).range[3];
        assert!(ONE <= toward && toward < 50 * ONE);
        assert!(ONE <= from && from < 50 * ONE);
    }
}

#[test]
fn the_strength_of_a_new_kind_toward_itself_is_negative() {
    let mut kinds = Kinds::new();
    let mut rng = SmallRng::seed_from_u64(4);
    let mut sampler = Counting(0);
    for _ in 0..5 {
        let id = kinds.new_kind(&params(), &mut rng, &mut sampler);
        assert!(kinds.get(id).attract[id as usize] < 0);
    }
}

#[test]
fn removing_a_kind_closes_the_tables() {
    let mut kinds = three_kinds();
    let mut parts = Vec::new();
    kinds.remove_kind(1, &mut parts);
    assert_eq!(kinds.len(), 2);
    assert_eq!(kinds.get(0).colour, (1, 1, 1));
    assert_eq!(kinds.get(0).attract, vec![-1, 3]);
    assert_eq!(kinds.get(0).range, vec![10, 30]);
    assert_eq!(kinds.get(1).colour, (3, 3, 3));
    assert_eq!(kinds.get(1).attract, vec![7, -9]);
    assert_eq!(kinds.get(1).range, vec![70, 90]);
}

#[test]
fn removing_the_first_and_the_last_kind() {
    let mut kinds = three_kinds();
    let mut parts = Vec::new();
    kinds.remove_kind(0, &mut parts);
    assert_eq!(kinds.get(0).attract, vec![-5, 6]);
    assert_eq!(kinds.get(1).attract, vec![8, -9]);
    kinds.remove_kind(1, &mut parts);
    assert_eq!(kinds.len(), 1);
    assert_eq!(kinds.get(0).attract, vec![-5]);
    assert_eq!(kinds.get(0).range, vec![50]);
    assert_eq!(kinds.get(0).colour, (2, 2, 2));
    kinds.remove_kind(0, &mut parts);
    assert_eq!(kinds.len(), 0);
}

#[test]
fn removing_a_kind_removes_its_particles() {
    let mut kinds = three_kinds();
    let mut parts =
        vec![of_kind(1, 10), of_kind(0, 20), of_kind(2, 30), of_kind(1, 40), of_kind(2, 50)];
    kinds.remove_kind(1, &mut parts);
    assert_eq!(parts, vec![of_kind(0, 20), of_kind(1, 30), of_kind(1, 50)]);
}

#[test]
fn removing_the_last_kind_relabels_nothing() {
    let mut kinds = three_kinds();
    let mut parts = vec![of_kind(0, 1), of_kind(1, 2), of_kind(2, 3), of_kind(0, 4)];
    kinds.remove_kind(2, &mut parts);
    assert_eq!(parts, vec![of_kind(0, 1), of_kind(1, 2), of_kind(0, 4)]);
}

#[test]
fn removing_a_kind_without_particles_keeps_them_all() {
    let mut kinds = three_kinds();
    let mut parts = vec![of_kind(1, 1), of_kind(2, 2), of_kind(1, 3)];
    kinds.remove_kind(0, &mut parts);
    assert_eq!(parts, vec![of_kind(0, 1), of_kind(1, 2), of_kind(0, 3)]);
}

#[test]
fn adding_after_removing_reuses_the_number() {
    let mut kinds = three_kinds();
    let mut parts = Vec::new();
    let mut rng = SmallRng::seed_from_u64(5);
    kinds.remove_kind(0, &mut parts);
    assert_eq!(kinds.new_kind(&params(), &mut rng, &mut Counting(0)), 2);
    assert_eq!(kinds.get(0).attract, vec![-5, 6, 2]);
    assert_eq!(kinds.get(2).attract, vec![1, 3, -5]);
}

#[test]
fn clear_empties_kinds_and_particles() {
    let mut kinds = three_kinds();
    let mut parts = vec![of_kind(0, 1), of_kind(2, 2)];
    kinds.clear(&mut parts);
    assert_eq!(kinds.len(), 0);
    assert!(parts.is_empty());
    let mut rng = SmallRng::seed_from_u64(6);
    assert_eq!(kinds.new_kind(&params(), &mut rng, &mut Counting(0)), 0);
}

#[test]
fn a_list_with_a_short_row_is_not_well_formed() {
    let mut kinds = three_kinds();
    assert!(kinds.is_wf());
    kinds.0[1].range.pop();
    assert!(!kinds.is_wf());
    kinds.0[1].range.push(1);
    kinds.0[2].attract.push(1);
    assert!(!kinds.is_wf());
    assert!(Kinds::new().is_wf());
}
