use rand::rngs::SmallRng;
use rand::SeedableRng;
use sim::kinds::ParticleKinds;
use sim::params::{Boundary, Span, WorldParameters};
use sim::particle::Particle;
use sim::scalar::ONE;
use sim::schedule::{advance_all, plan, worker_count, workers_for};
use sim::tick::{advance_one, advance_range, Moved};
use sim::vec2::Vec2;

fn params(boundary: Boundary) -> WorldParameters {
    WorldParameters {
        bounds: Vec2::new(100 * ONE, 100 * ONE),
        attrac_mean: 20_000_000,
        attrac_dev: 40_000_000,
        attrac_range: Span { low: ONE, high: 50 * ONE },
        radius_range: Span { low: 700_000_000, high: 1_300_000_000 },
        friction: 50_000_000,
        boundary,
        seed: String::new(),
    }
}

fn table(kinds: usize) -> ParticleKinds {
    let mut table = ParticleKinds::new(kinds);
    for a in 0..kinds {
        for b in 0..kinds {
            table.set_range(a, b, (10 + 7 * a + 3 * b) as i64 * ONE);
            let strength = (a as i64 - b as i64) * 30_000_000 - 10_000_000;
            table.set_attrac(a, b, strength);
        }
    }
    table
}

fn crowd(count: usize, kinds: usize, seed: u64) -> Vec<Particle> {
    let config = params(Boundary::Bounce);
    let mut rng = SmallRng::seed_from_u64(seed);
    let mut parts = Vec::new();
    for _ in 0..count {
        parts.push(Particle::random(&config, &mut rng, kinds));
    }
    parts
}

#[test]
fn plan_shares_evenly() {
    assert_eq!(plan(8, 4), vec![(0, 2), (2, 4), (4, 6), (6, 8)]);
    assert_eq!(plan(8, 1), vec![(0, 8)]);
    assert_eq!(plan(8, 8), vec![(0, 1), (1, 2), (2, 3), (3, 4), (4, 5), (5, 6), (6, 7), (7, 8)]);
}

#[test]
fn the_last_run_takes_the_remainder() {
    assert_eq!(plan(10, 4), vec![(0, 2), (2, 4), (4, 6), (6, 10)]);
    assert_eq!(plan(11, 3), vec![(0, 3), (3, 6), (6, 11)]);
    assert_eq!(plan(150, 7), vec![
        (0, 21),
        (21, 42),
        (42, 63),
        (63, 84),
        (84, 105),
        (105, 126),
        (126, 150),
    ]);
}

#[test]
fn more_workers_than_particles() {
    assert_eq!(plan(3, 5), vec![(0, 0), (0, 0), (0, 0), (0, 0), (0, 3)]);
    assert_eq!(plan(0, 2), vec![(0, 0), (0, 0)]);
}

#[test]
fn every_plan_covers_every_particle_once() {
    for n in 0..40usize {
        for workers in 1..12usize {
            let chunks = plan(n, workers);
            assert_eq!(chunks.len(), workers);
            let mut next = 0;
            for (start, end) in chunks {
                assert_eq!(start, next);
                assert!(start <= end);
                next = end;
            }
            assert_eq!(next, n);
        }
    }
}

#[test]
fn one_worker_for_each_processor_and_one_at_least() {
    assert_eq!(workers_for(0), 1);
    assert_eq!(workers_for(1), 1);
    assert_eq!(workers_for(2), 2);
    assert_eq!(workers_for(64), 64);
    assert_eq!(workers_for(usize::MAX), usize::MAX);
}

#[test]
fn there_is_always_a_worker() {
    assert!(worker_count() >= 1);
}

#[test]
fn advance_one_pulls_then_moves() {
    let mut kinds = ParticleKinds::new(1);
    kinds.set_range(0, 0, 10 * ONE);
    kinds.set_attrac(0, 0, ONE);
    let parts = vec![
        Particle { pos: Vec2::new(53 * ONE, 50 * ONE), vel: Vec2::zero(), rad: 0, kind: 0 },
        Particle { pos: Vec2::new(50 * ONE, 50 * ONE), vel: Vec2::zero(), rad: 0, kind: 0 },
    ];
    let first = advance_one(&parts, &kinds, &params(Boundary::Wrap), 0);
    assert_eq!(first, Moved {
        particle: Particle {
            pos: Vec2::new(53_222_222_222, 50 * ONE),
            vel: Vec2::new(211_111_110, 0),
            rad: 0,
            kind: 0,
        },
        crowded: false,
    });
    let second = advance_one(&parts, &kinds, &params(Boundary::Wrap), 1);
    assert_eq!(second.particle.pos, Vec2::new(49_777_777_778, 50 * ONE));
    assert_eq!(second.particle.vel, Vec2::new(-211_111_110, 0));
}

#[test]
fn advance_range_moves_each_particle_of_the_run() {
    let kinds = table(3);
    let parts = crowd(30, 3, 3);
    let config = params(Boundary::Bounce);
    let run = advance_range(&parts, &kinds, &config, 7, 19);
    assert_eq!(run.len(), 12);
    for (j, moved) in run.iter().enumerate() {
        assert_eq!(*moved, advance_one(&parts, &kinds, &config, 7 + j));
    }
    assert!(advance_range(&parts, &kinds, &config, 5, 5).is_empty());
}

#[test]
fn advance_all_moves_every_particle_in_order() {
    let kinds = table(3);
    let parts = crowd(40, 3, 8);
    let config = params(Boundary::Bounce);
    let all = advance_all(&parts, &kinds, &config, 4);
    assert_eq!(all.len(), 40);
    for (i, moved) in all.iter().enumerate() {
        assert_eq!(*moved, advance_one(&parts, &kinds, &config, i));
    }
    assert!(all.iter().any(|moved| moved.particle.vel != Vec2::zero()));
    assert!(all.iter().zip(parts.iter()).any(|(moved, part)| moved.particle.pos != part.pos));
}

#[test]
fn advance_all_is_the_same_for_every_number_of_workers() {
    let kinds = table(4);
    let parts = crowd(57, 4, 21);
    for boundary in [Boundary::Bounce, Boundary::Wrap] {
        let config = params(boundary);
        let alone = advance_all(&parts, &kinds, &config, 1);
        assert_eq!(alone, advance_range(&parts, &kinds, &config, 0, 57));
        for workers in [2, 3, 7, 16, 57, 58, 200] {
            assert_eq!(advance_all(&parts, &kinds, &config, workers), alone);
        }
    }
}

#[test]
fn advance_all_of_an_empty_world() {
    let kinds = table(2);
    let config = params(Boundary::Bounce);
    assert!(advance_all(&Vec::new(), &kinds, &config, 3).is_empty());
}

#[test]
fn a_tick_reads_the_particles_as_they_stood() {
    let mut kinds = ParticleKinds::new(1);
    kinds.set_range(0, 0, 10 * ONE);
    kinds.set_attrac(0, 0, ONE);
    let parts = vec![
        Particle { pos: Vec2::new(53 * ONE, 50 * ONE), vel: Vec2::zero(), rad: 0, kind: 0 },
        Particle { pos: Vec2::new(50 * ONE, 50 * ONE), vel: Vec2::zero(), rad: 0, kind: 0 },
    ];
    let all = advance_all(&parts, &kinds, &params(Boundary::Wrap), 2);
    assert_eq!(all[0].particle.vel.x, -all[1].particle.vel.x);
    assert_eq!(all[0].particle.pos.x - 53 * ONE, 50 * ONE - all[1].particle.pos.x);
}
