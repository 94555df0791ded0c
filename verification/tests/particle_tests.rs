use rand::rngs::SmallRng;
use rand::SeedableRng;
use sim::params::{Boundary, Span, WorldParameters};
use sim::particle::Particle;
use sim::scalar::ONE;
use sim::vec2::Vec2;

fn params(boundary: Boundary, friction: i64) -> WorldParameters {
    WorldParameters {
        bounds: Vec2::new(100 * ONE, 100 * ONE),
        attrac_mean: 20_000_000,
        attrac_dev: 40_000_000,
        attrac_range: Span { low: ONE, high: 50 * ONE },
        radius_range: Span { low: 700_000_000, high: 1_300_000_000 },
        friction,
        boundary,
        seed: String::new(),
    }
}

fn particle(x: i64, y: i64, vx: i64, vy: i64, rad: i64, kind: usize) -> Particle {
    Particle { pos: Vec2::new(x, y), vel: Vec2::new(vx, vy), rad, kind }
}

#[test]
fn default_like_parameters_are_valid() {
    assert!(params(Boundary::Bounce, 50_000_000).is_valid());
    assert!(params(Boundary::Wrap, 0).is_valid());
    assert!(params(Boundary::Wrap, ONE - 1).is_valid());
}

#[test]
fn a_world_without_size_is_not_valid() {
    let mut p = params(Boundary::Bounce, 0);
    p.bounds = Vec2::new(0, 100 * ONE);
    assert!(!p.is_valid());
    p.bounds = Vec2::new(100 * ONE, -ONE);
    assert!(!p.is_valid());
}

#[test]
fn reversed_or_negative_ranges_are_not_valid() {
    let mut p = params(Boundary::Bounce, 0);
    p.attrac_range = Span { low: 2 * ONE, high: ONE };
    assert!(!p.is_valid());
    let mut p = params(Boundary::Bounce, 0);
    p.radius_range = Span { low: 2 * ONE, high: ONE };
    assert!(!p.is_valid());
    let mut p = params(Boundary::Bounce, 0);
    p.radius_range = Span { low: -1, high: ONE };
    assert!(!p.is_valid());
    let mut p = params(Boundary::Bounce, 0);
    p.attrac_range = Span { low: -1, high: ONE };
    assert!(!p.is_valid());
}

#[test]
fn a_range_of_one_value_is_valid() {
    let mut p = params(Boundary::Bounce, 0);
    p.attrac_range = Span { low: ONE, high: ONE };
    p.radius_range = Span { low: 0, high: 0 };
    assert!(p.is_valid());
}

#[test]
fn friction_of_one_or_more_or_below_zero_is_not_valid() {
    assert!(!params(Boundary::Bounce, ONE).is_valid());
    assert!(!params(Boundary::Bounce, 2 * ONE).is_valid());
    assert!(!params(Boundary::Bounce, -1).is_valid());
}

#[test]
fn update_moves_and_slows() {
    let mut p = particle(5 * ONE, 5 * ONE, ONE, 0, ONE, 0);
    p.update(&params(Boundary::Wrap, 50_000_000));
    assert_eq!(p, particle(6 * ONE, 5 * ONE, 950_000_000, 0, ONE, 0));
}

#[test]
fn update_without_friction_keeps_the_velocity() {
    let mut p = particle(5 * ONE, 5 * ONE, ONE, -2 * ONE, ONE, 0);
    p.update(&params(Boundary::Wrap, 0));
    assert_eq!(p, particle(6 * ONE, 3 * ONE, ONE, -2 * ONE, ONE, 0));
}

#[test]
fn wrap_sends_a_particle_to_the_opposite_edge() {
    let mut p = particle(99_500_000_000, 500_000_000, ONE, -ONE, ONE, 0);
    p.update(&params(Boundary::Wrap, 50_000_000));
    assert_eq!(p, particle(0, 100 * ONE, 950_000_000, -950_000_000, ONE, 0));
}

#[test]
fn wrap_leaves_a_particle_on_the_edge() {
    let mut p = particle(99 * ONE, 0, ONE, 0, ONE, 0);
    p.update(&params(Boundary::Wrap, 50_000_000));
    assert_eq!(p.pos, Vec2::new(100 * ONE, 0));
}

#[test]
fn bounce_off_the_low_wall() {
    let mut p = particle(5 * ONE, 50 * ONE, -10 * ONE, ONE, 2 * ONE, 0);
    p.update(&params(Boundary::Bounce, 50_000_000));
    assert_eq!(p, particle(4 * ONE, 51 * ONE, 7_600_000_000, 950_000_000, 2 * ONE, 0));
}

#[test]
fn bounce_off_the_high_wall() {
    let mut p = particle(95 * ONE, 50 * ONE, 10 * ONE, -ONE, 2 * ONE, 0);
    p.update(&params(Boundary::Bounce, 50_000_000));
    assert_eq!(p, particle(96 * ONE, 49 * ONE, -7_600_000_000, -950_000_000, 2 * ONE, 0));
}

#[test]
fn bounce_leaves_a_particle_between_the_walls() {
    let mut p = particle(50 * ONE, 50 * ONE, ONE, ONE, 2 * ONE, 3);
    p.update(&params(Boundary::Bounce, 50_000_000));
    assert_eq!(p, particle(51 * ONE, 51 * ONE, 950_000_000, 950_000_000, 2 * ONE, 3));
}

#[test]
fn the_margin_is_the_square_of_the_radius() {
    let mut p = particle(0, 0, 0, 0, 1_300_000_000, 0);
    p.update(&params(Boundary::Bounce, 50_000_000));
    assert_eq!(p.pos, Vec2::new(1_690_000_000, 1_690_000_000));
    let mut p = particle(100 * ONE, 100 * ONE, 0, 0, 700_000_000, 0);
    p.update(&params(Boundary::Bounce, 50_000_000));
    assert_eq!(p.pos, Vec2::new(99_510_000_000, 99_510_000_000));
}

#[test]
fn a_wall_under_heavy_friction_does_not_turn_the_velocity() {
    let mut p = particle(5 * ONE, 50 * ONE, -10 * ONE, 0, 2 * ONE, 0);
    p.update(&params(Boundary::Bounce, 500_000_000));
    assert_eq!(p, particle(4 * ONE, 50 * ONE, -5 * ONE, 0, 2 * ONE, 0));
}

#[test]
fn margins_wider_than_the_world_hold_a_particle_on_one_of_them() {
    let mut p = particle(50 * ONE, 50 * ONE, 0, 0, 8 * ONE, 0);
    p.update(&params(Boundary::Bounce, 50_000_000));
    assert_eq!(p.pos, Vec2::new(64 * ONE, 64 * ONE));
    let mut p = particle(70 * ONE, 30 * ONE, 0, 0, 8 * ONE, 0);
    p.update(&params(Boundary::Bounce, 50_000_000));
    assert_eq!(p.pos, Vec2::new(36 * ONE, 64 * ONE));
}

#[test]
fn update_clamps_a_position_that_does_not_fit() {
    let mut p = particle(i64::MAX, i64::MIN, i64::MAX, i64::MIN, ONE, 0);
    p.update(&params(Boundary::Wrap, 0));
    assert_eq!(p.pos, Vec2::new(0, 100 * ONE));
    assert_eq!(p.vel, Vec2::new(i64::MAX, i64::MIN));
}

#[test]
fn update_keeps_radius_and_kind() {
    let mut p = particle(5 * ONE, 5 * ONE, -90 * ONE, 700 * ONE, 1_234_567, 6);
    p.update(&params(Boundary::Bounce, 50_000_000));
    assert_eq!(p.rad, 1_234_567);
    assert_eq!(p.kind, 6);
    p.update(&params(Boundary::Wrap, 50_000_000));
    assert_eq!(p.rad, 1_234_567);
    assert_eq!(p.kind, 6);
}

#[test]
fn bouncing_particles_stay_between_their_margins() {
    let config = params(Boundary::Bounce, 50_000_000);
    let mut rng = SmallRng::seed_from_u64(11);
    for round in 0..200 {
        let mut p = Particle::random(&config, &mut rng, 4);
        p.vel = Vec2::new((round - 100) * 3 * ONE, (100 - round) * 5 * ONE);
        let margin = p.rad as i128 * p.rad as i128 / ONE as i128;
        for _ in 0..20 {
            p.update(&config);
            assert!(margin <= p.pos.x as i128 && p.pos.x as i128 <= 100 * ONE as i128 - margin);
            assert!(margin <= p.pos.y as i128 && p.pos.y as i128 <= 100 * ONE as i128 - margin);
        }
    }
}

#[test]
fn random_particles_are_fresh() {
    let config = params(Boundary::Bounce, 50_000_000);
    let mut rng = SmallRng::seed_from_u64(5);
    for _ in 0..500 {
        let p = Particle::random(&config, &mut rng, 7);
        assert!(0 <= p.pos.x && p.pos.x < 100 * ONE);
        assert!(0 <= p.pos.y && p.pos.y < 100 * ONE);
        assert_eq!(p.vel, Vec2::zero());
        assert!(700_000_000 <= p.rad && p.rad <= 1_300_000_000);
        assert!(p.kind < 7);
    }
}

#[test]
fn random_particles_differ() {
    let config = params(Boundary::Bounce, 50_000_000);
    let mut rng = SmallRng::seed_from_u64(5);
    let first = Particle::random(&config, &mut rng, 7);
    let mut same_x = 0;
    let mut same_rad = 0;
    let mut kinds_seen = [false; 7];
    for _ in 0..200 {
        let p = Particle::random(&config, &mut rng, 7);
        if p.pos.x == first.pos.x {
            same_x += 1;
        }
        if p.rad == first.rad {
            same_rad += 1;
        }
        kinds_seen[p.kind] = true;
    }
    assert!(same_x < 5);
    assert!(same_rad < 5);
    assert!(kinds_seen.iter().all(|seen| *seen));
}

#[test]
fn random_particle_of_a_single_kind_and_radius() {
    let mut config = params(Boundary::Bounce, 50_000_000);
    config.radius_range = Span { low: ONE, high: ONE };
    let mut rng = SmallRng::seed_from_u64(1);
    for _ in 0..50 {
        let p = Particle::random(&config, &mut rng, 1);
        assert_eq!(p.rad, ONE);
        assert_eq!(p.kind, 0);
    }
}
