//! Tests of the simulation engine against concrete values.

use orbit_sim::fixed::{add_sat, mul_fp, SCALE};
use orbit_sim::gravity::{accel_from, accel_net, isqrt};
use orbit_sim::sim::{tick_rate, Config, World, COLLISION_THRESHOLD};
use orbit_sim::trig::{add_mod, cos_fp, sin_fp, HALF_TURN, QUARTER_TURN, TAU_FP};
use orbit_sim::vec2::Vec2;

#[test]
fn fixed_point_multiplication() {
    // 1 * 1 == 1
    assert_eq!(mul_fp(SCALE, SCALE), SCALE);
    // 1.5 * -0.5 == -0.75, truncated toward zero
    assert_eq!(mul_fp(98304, -32768), -49152);
    // truncation toward zero on both signs: 3 * (1/3-ish)
    assert_eq!(mul_fp(3, 21845), 0);
    assert_eq!(mul_fp(-3, 21845), 0);
    // saturation at the extremes
    assert_eq!(mul_fp(i64::MAX, i64::MAX), i64::MAX);
    assert_eq!(mul_fp(i64::MAX, i64::MIN), i64::MIN);
}

#[test]
fn saturating_addition() {
    assert_eq!(add_sat(1, 2), 3);
    assert_eq!(add_sat(i64::MAX, 1), i64::MAX);
    assert_eq!(add_sat(i64::MIN, -1), i64::MIN);
}

#[test]
fn vector_arithmetic() {
    let a = Vec2 { x: 3 * SCALE, y: -2 * SCALE };
    let b = Vec2 { x: SCALE, y: SCALE };
    assert_eq!(a.plus(b), Vec2 { x: 4 * SCALE, y: -SCALE });
    assert_eq!(a.minus(b), Vec2 { x: 2 * SCALE, y: -3 * SCALE });
    assert_eq!(a.scaled(SCALE / 2), Vec2 { x: 3 * SCALE / 2, y: -SCALE });
    assert_eq!(Vec2::zero().plus(a), a);
}

#[test]
fn integer_square_root() {
    assert_eq!(isqrt(0), 0);
    assert_eq!(isqrt(1), 1);
    assert_eq!(isqrt(3), 1);
    assert_eq!(isqrt(4), 2);
    assert_eq!(isqrt(99), 9);
    assert_eq!(isqrt(100), 10);
    assert_eq!(isqrt(u64::MAX as u128 * u64::MAX as u128), u64::MAX as u128);
}

#[test]
fn sine_and_cosine_landmarks() {
    assert_eq!(sin_fp(0), 0);
    assert_eq!(sin_fp(QUARTER_TURN), SCALE);
    assert_eq!(sin_fp(HALF_TURN), 0);
    assert_eq!(sin_fp(HALF_TURN + QUARTER_TURN), -SCALE);
    assert_eq!(cos_fp(0), SCALE);
    assert_eq!(cos_fp(QUARTER_TURN), 0);
    assert_eq!(cos_fp(HALF_TURN), -SCALE);
}

#[test]
fn angle_addition_wraps() {
    assert_eq!(add_mod(100, 200), 300);
    assert_eq!(add_mod(TAU_FP - 1, 2), 1);
    assert_eq!(add_mod(HALF_TURN, HALF_TURN), 0);
}

#[test]
fn attractors_are_antipodal_and_on_the_orbit_circle() {
    let config = Config::default();
    let w = World::new(config, 7);
    let (lead, trail) = w.attractors();
    assert_eq!(trail.x, -lead.x);
    assert_eq!(trail.y, -lead.y);
    // at phase 0 the leading attractor sits on the positive x axis
    assert_eq!(lead.x, config.bh_r);
    assert_eq!(lead.y, 0);
}

#[test]
fn attractor_distance_from_origin_stays_near_bh_r() {
    let config = Config::default();
    let mut w = World::new(config, 7);
    let bh_r = config.bh_r as f64 / SCALE as f64;
    for _ in 0..50 {
        w.tick(6554); // about a tenth of a second
        let (lead, trail) = w.attractors();
        for a in [lead, trail] {
            let x = a.x as f64 / SCALE as f64;
            let y = a.y as f64 / SCALE as f64;
            let dist = (x * x + y * y).sqrt();
            // the rational sine approximation is within a few tenths of a
            // percent of the true circle
            assert!((dist - bh_r).abs() < 0.01 * bh_r, "dist {} vs {}", dist, bh_r);
        }
    }
}

#[test]
fn gravity_magnitude_on_a_cardinal_direction() {
    let g: i64 = 6553600000000; // the default gravitational constant
    let d: i64 = 100 * SCALE; // 100 units to the right
    let p = Vec2 { x: 0, y: 0 };
    let a = Vec2 { x: d, y: 0 };
    let acc = accel_from(g, p, a);
    let expected = ((g as i128) * 4294967296) / ((d as i128) * (d as i128));
    assert_eq!(acc.x as i128, expected);
    assert_eq!(acc.y, 0);
    assert!(acc.x > 0, "acceleration points toward the attractor");
    // attractor to the left: same magnitude, opposite sign
    let acc_left = accel_from(g, p, Vec2 { x: -d, y: 0 });
    assert_eq!(acc_left.x as i128, -expected);
    assert_eq!(acc_left.y, 0);
}

#[test]
fn gravity_is_zero_at_the_singular_point() {
    let p = Vec2 { x: 5, y: -7 };
    let acc = accel_from(6553600000000, p, p);
    assert_eq!(acc, Vec2 { x: 0, y: 0 });
}

#[test]
fn gravity_of_two_attractors_adds_up() {
    let g: i64 = 6553600000000;
    let p = Vec2 { x: 0, y: 0 };
    let a1 = Vec2 { x: 100 * SCALE, y: 0 };
    let a2 = Vec2 { x: -100 * SCALE, y: 0 };
    // symmetric pulls cancel exactly
    let acc = accel_net(g, p, a1, a2);
    assert_eq!(acc, Vec2 { x: 0, y: 0 });
}

#[test]
fn collision_boundary_is_exact() {
    let attractor = Vec2 { x: 0, y: 0 };
    let at_threshold = Vec2 { x: COLLISION_THRESHOLD, y: 0 };
    let just_outside = Vec2 { x: COLLISION_THRESHOLD + 1, y: 0 };
    assert!(at_threshold.within(attractor, COLLISION_THRESHOLD));
    assert!(!just_outside.within(attractor, COLLISION_THRESHOLD));
}

#[test]
fn integrator_takes_semi_implicit_euler_steps() {
    // zero initial velocity, constant unit acceleration, one-second ticks
    let acc = Vec2 { x: SCALE, y: 0 };
    let dt = SCALE;
    let b0 = orbit_sim::sim::Ball {
        position: Vec2 { x: 0, y: 0 },
        velocity: Vec2 { x: 0, y: 0 },
    };
    let b1 = orbit_sim::sim::integrate(b0, acc, dt);
    assert_eq!(b1.velocity, Vec2 { x: SCALE, y: 0 });
    assert_eq!(b1.position, Vec2 { x: SCALE, y: 0 }); // position uses the new velocity
    let b2 = orbit_sim::sim::integrate(b1, acc, dt);
    assert_eq!(b2.velocity, Vec2 { x: 2 * SCALE, y: 0 });
    assert_eq!(b2.position, Vec2 { x: 3 * SCALE, y: 0 }); // 1 + 2, the symplectic sum
}

#[test]
fn phase_angle_advances_and_wraps() {
    let config = Config::default(); // da is a fifth of a turn per second
    let mut w = World::new(config, 1);
    assert_eq!(w.angle, 0);
    for _ in 0..5 {
        w.tick(SCALE); // one second: a fifth of a turn each
    }
    // five steps of 82355 raw units stay just below the full turn
    assert_eq!(w.angle, 5 * 82355);
    w.tick(SCALE);
    assert_eq!(w.angle, 6 * 82355 - TAU_FP);
    assert!(0 <= w.angle && w.angle < TAU_FP);
}

#[test]
fn first_tick_spawns_the_initial_balls() {
    let config = Config::default();
    let mut w = World::new(config, 42);
    assert_eq!(w.balls.len(), 0);
    assert_eq!(w.queue.len(), 8);
    w.tick(6554);
    assert_eq!(w.balls.len(), 8, "all eight initial requests become balls");
    assert_eq!(w.queue.len(), 0);
    let r = config.r as f64 / SCALE as f64;
    for b in w.balls.iter() {
        assert_eq!(b.velocity, Vec2 { x: 0, y: 0 });
        let x = b.position.x as f64 / SCALE as f64;
        let y = b.position.y as f64 / SCALE as f64;
        let dist = (x * x + y * y).sqrt();
        assert!((dist - r).abs() < 0.01 * r, "spawn distance {} vs {}", dist, r);
    }
}

#[test]
fn same_seed_gives_the_same_spawns() {
    let config = Config::default();
    let mut w1 = World::new(config, 99);
    let mut w2 = World::new(config, 99);
    w1.tick(6554);
    w2.tick(6554);
    assert_eq!(w1.balls.len(), w2.balls.len());
    for (a, b) in w1.balls.iter().zip(w2.balls.iter()) {
        assert_eq!(a.position, b.position);
    }
}

#[test]
fn collision_destroys_one_ball_and_spawns_two() {
    // attractors and the spawn circle collapsed onto the origin: every
    // spawned ball collides on its first step
    let config = Config {
        bh_r: 0,
        angle: 0,
        r: 0,
        da: 0,
        init_ball_number: 1,
        gravity: 0,
    };
    let mut w = World::new(config, 5);
    assert_eq!(w.queue.len(), 1);
    w.tick(SCALE);
    // the single request became a ball; nothing collided yet
    assert_eq!(w.balls.len(), 1);
    assert_eq!(w.queue.len(), 0);
    w.tick(SCALE);
    // the ball fell in: destroyed, two replacement requests queued
    assert_eq!(w.balls.len(), 0);
    assert_eq!(w.queue.len(), 2);
    w.tick(SCALE);
    // net gain of one ball on the tick after the collision; nothing was
    // alive during this tick's collision phase, so the queue is empty again
    assert_eq!(w.balls.len(), 2);
    assert_eq!(w.queue.len(), 0);
    w.tick(SCALE);
    // both balls fall in at once: four requests
    assert_eq!(w.balls.len(), 0);
    assert_eq!(w.queue.len(), 4);
}

#[test]
fn integration_precedes_collision_testing() {
    // attractors pinned at the origin, gravity off: balls keep their velocity
    let config = Config {
        bh_r: 0,
        angle: 0,
        r: 400 * SCALE,
        da: 0,
        init_ball_number: 0,
        gravity: 0,
    };
    let mut w = World::new(config, 1);

    // a fast ball crosses the attractor within one tick and is tested only
    // at its new position: it overshoots and survives
    w.balls.push(orbit_sim::sim::Ball {
        position: Vec2 { x: -100 * SCALE, y: 0 },
        velocity: Vec2 { x: 200 * SCALE, y: 0 },
    });
    w.tick(SCALE);
    assert_eq!(w.balls.len(), 1);
    assert_eq!(w.balls[0].position, Vec2 { x: 100 * SCALE, y: 0 });
    assert_eq!(w.queue.len(), 0);

    // a slow ball that ends the tick inside the radius is removed
    w.balls[0] = orbit_sim::sim::Ball {
        position: Vec2 { x: -10 * SCALE, y: 0 },
        velocity: Vec2 { x: 0, y: 0 },
    };
    w.tick(SCALE);
    assert_eq!(w.balls.len(), 0);
    assert_eq!(w.queue.len(), 2);
}

#[test]
fn diagnostics_report_rate_and_count() {
    assert_eq!(tick_rate(SCALE), SCALE); // one-second ticks: rate 1
    assert_eq!(tick_rate(2 * SCALE), SCALE / 2);
    assert_eq!(tick_rate(6554), 4294967296 / 6554);
    let w = World::new(Config::default(), 3);
    assert_eq!(w.alive_count(), 0);
}

#[test]
fn default_config_matches_the_fixed_parameter_set() {
    let c = Config::default();
    assert_eq!(c.bh_r, 100 * SCALE);
    assert_eq!(c.angle, 0);
    assert_eq!(c.r, 400 * SCALE);
    assert_eq!(c.da, 82355); // a fifth of a turn per second
    assert_eq!(c.init_ball_number, 8);
    assert_eq!(c.gravity, 100_000_000 * SCALE);
}
