use sim::control::{Action, Controls, Key, MAX_STEPS, MIN_STEPS, START_STEPS};
use sim::render::{disc, to_pixel};
use sim::scalar::ONE;

#[test]
fn controls_start_running_at_ten_ticks() {
    let controls = Controls::new();
    assert!(!controls.paused);
    assert_eq!(controls.steps, 10);
    assert_eq!(START_STEPS, 10);
    assert_eq!(controls.ticks(), 10);
}

#[test]
fn keys_ask_for_their_actions() {
    let mut controls = Controls::new();
    assert_eq!(controls.press(Key::Quit), Action::Quit);
    assert_eq!(controls.press(Key::Reseed), Action::Reseed);
    assert_eq!(controls.press(Key::Add), Action::AddParticle);
    assert_eq!(controls.press(Key::Remove), Action::DelParticle);
    assert_eq!(controls, Controls::new());
    assert_eq!(controls.press(Key::Pause), Action::Nothing);
    assert_eq!(controls.press(Key::Slower), Action::Nothing);
    assert_eq!(controls.press(Key::Faster), Action::Nothing);
}

#[test]
fn pause_halts_and_resumes() {
    let mut controls = Controls::new();
    controls.press(Key::Pause);
    assert!(controls.paused);
    assert_eq!(controls.ticks(), 0);
    assert_eq!(controls.steps, 10);
    controls.press(Key::Pause);
    assert!(!controls.paused);
    assert_eq!(controls.ticks(), 10);
}

#[test]
fn slower_stops_at_one_tick() {
    let mut controls = Controls::new();
    controls.press(Key::Slower);
    assert_eq!(controls.steps, 9);
    for _ in 0..20 {
        controls.press(Key::Slower);
    }
    assert_eq!(controls.steps, 1);
    assert_eq!(MIN_STEPS, 1);
}

#[test]
fn faster_stops_at_a_hundred_ticks() {
    let mut controls = Controls::new();
    controls.press(Key::Faster);
    assert_eq!(controls.steps, 11);
    for _ in 0..200 {
        controls.press(Key::Faster);
    }
    assert_eq!(controls.steps, 100);
    assert_eq!(MAX_STEPS, 100);
    controls.press(Key::Slower);
    assert_eq!(controls.steps, 99);
}

#[test]
fn to_pixel_scales_the_world_to_the_window() {
    assert_eq!(to_pixel(50 * ONE, 1280, 100 * ONE), 640);
    assert_eq!(to_pixel(0, 1280, 100 * ONE), 0);
    assert_eq!(to_pixel(100 * ONE, 1280, 100 * ONE), 1280);
    assert_eq!(to_pixel(1_300_000_000, 1280, 100 * ONE), 16);
    assert_eq!(to_pixel(700_000_000, 1280, 100 * ONE), 8);
}

#[test]
fn to_pixel_rounds_toward_zero_and_clamps() {
    assert_eq!(to_pixel(ONE - 1, 100, 100 * ONE), 0);
    assert_eq!(to_pixel(-ONE + 1, 100, 100 * ONE), 0);
    assert_eq!(to_pixel(-3 * ONE, 100, 100 * ONE), -3);
    assert_eq!(to_pixel(i64::MAX, i32::MAX, 1), i32::MAX);
    assert_eq!(to_pixel(i64::MIN, i32::MAX, 1), i32::MIN);
}

#[test]
fn disc_of_no_radius_is_empty() {
    assert!(disc(0).is_empty());
    assert!(disc(-5).is_empty());
}

#[test]
fn disc_of_radius_one() {
    let mut points = disc(1);
    points.sort();
    assert_eq!(points, vec![(0, 0), (0, 1), (1, 0)]);
}

#[test]
fn disc_of_radius_two() {
    let mut points = disc(2);
    points.sort();
    assert_eq!(points, vec![
        (-1, -1),
        (-1, 0),
        (-1, 1),
        (0, -1),
        (0, 0),
        (0, 1),
        (0, 2),
        (1, -1),
        (1, 0),
        (1, 1),
        (2, 0),
    ]);
}

#[test]
fn disc_holds_each_of_its_pixels_once() {
    for radius in 0..30i32 {
        let mut points = disc(radius);
        let mut expected = Vec::new();
        for dx in (1 - radius)..=radius {
            for dy in (1 - radius)..=radius {
                if dx * dx + dy * dy <= radius * radius {
                    expected.push((dx, dy));
                }
            }
        }
        points.sort();
        expected.sort();
        assert_eq!(points, expected);
    }
}
