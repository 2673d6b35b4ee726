use oort_ai::control::{
    angle_diff, should_boost, should_fire, thrust_toward, ControllerMemory, FULL_TURN,
};
use oort_ai::estimator::DerivativeEstimator;
use oort_ai::fixed::{Vec2, SCALE};

const M: i64 = SCALE;

#[test]
fn angle_diff_takes_shortest_way() {
    assert_eq!(angle_diff(0, 100), 100);
    assert_eq!(angle_diff(0, -100), -100);
    assert_eq!(angle_diff(6_000_000, 100), 283_285);
    assert_eq!(angle_diff(0, 3_141_592), 3_141_592);
    assert_eq!(angle_diff(0, 3_141_593), -3_141_592);
    assert_eq!(angle_diff(5, 5 + 3 * FULL_TURN), 0);
}

#[test]
fn fire_gate_at_two_kilometres() {
    // k = 2 rad·m at 2000 m: threshold 0.001 rad.
    assert!(should_fire(900, 2000 * M as u64, 2 * M));
    assert!(!should_fire(1100, 2000 * M as u64, 2 * M));
    assert!(should_fire(-900, 2000 * M as u64, 2 * M));
    assert!(should_fire(1000, 2000 * M as u64, 2 * M));
}

#[test]
fn boost_gate_needs_cone_and_warmup() {
    assert!(should_boost(1_000_000, 3));
    assert!(!should_boost(1_000_000, 2));
    assert!(should_boost(-1_256_637, 10));
    assert!(!should_boost(1_256_638, 10));
}

#[test]
fn thrust_points_toward_direction() {
    assert_eq!(thrust_toward(Vec2::new(3, 4), 10 * M), Vec2::new(6 * M, 8 * M));
    assert_eq!(thrust_toward(Vec2::new(-3 * M, 4 * M), 10 * M), Vec2::new(-6 * M, 8 * M));
    assert_eq!(thrust_toward(Vec2::new(0, 0), 10 * M), Vec2::new(0, 0));
}

#[test]
fn impulse_stays_within_limit() {
    let max = 2 * M;
    for bearing in [3_141_592i64, -3_141_592, 1, 0] {
        for last in [0i64, 3_141_592, -3_141_592] {
            for omega in [-50 * M, 0, 50 * M] {
                let mut memory = ControllerMemory::new(last);
                let c = memory.track(0, omega, bearing, max);
                assert!(c.impulse.abs() <= max);
                assert_eq!(c.torque, c.impulse * 60);
                assert_eq!(memory.last_target_heading, bearing);
            }
        }
    }
}

#[test]
fn on_bearing_and_turning_with_it_needs_no_torque() {
    // Bearing fixed: rate zero.
    let mut memory = ControllerMemory::new(1_000);
    let c = memory.track(1_000, 0, 1_000, 2 * M);
    assert_eq!(c.torque, 0);
    // Bearing turning at -600 µrad per tick: rate -36000 µrad/s.
    let mut memory = ControllerMemory::new(1_000);
    let c = memory.track(400, -36_000, 400, 2 * M);
    assert_eq!(c.target_angular_velocity, -36_000);
    assert_eq!(c.torque, 0);
}

#[test]
fn on_bearing_turning_positively_is_asked_for_opposite_rate() {
    // Bearing turning at +100 µrad per tick: the arrival law at zero distance
    // takes the sign of -rate², so the controller still acts.
    let mut memory = ControllerMemory::new(0);
    let c = memory.track(100, 6_000, 100, 2 * M);
    assert_eq!(c.target_angular_velocity, 6_000);
    assert_eq!(c.desired_velocity, -6_000);
    assert_eq!(c.impulse, -12_000);
}

#[test]
fn tracking_turns_toward_bearing() {
    let mut memory = ControllerMemory::new(M);
    let c = memory.track(0, 0, M, 2 * M);
    assert_eq!(c.angle_delta, M);
    assert_eq!(c.desired_velocity, 2 * M);
    assert_eq!(c.impulse, 2 * M);
    assert_eq!(c.torque, 120 * M);
}

#[test]
fn tracking_remembers_bearing_rate() {
    let mut memory = ControllerMemory::new(0);
    memory.track(0, 0, 100, M);
    assert_eq!(memory.last_angular_velocity, 6_000);
    assert_eq!(memory.last_angular_acceleration, 360_000);
    memory.track(0, 0, 200, M);
    assert_eq!(memory.last_angular_velocity, 6_000);
    assert_eq!(memory.last_angular_acceleration, 0);
}

#[test]
fn estimator_starts_cold() {
    let mut e = DerivativeEstimator::new();
    let own = Vec2::new(M, 0);
    let first = e.update(Vec2::new(10 * M, 0), own);
    assert_eq!(first.velocity_delta, Vec2::new(9 * M, 0));
    assert_eq!(first.acceleration, Vec2::new(0, 0));
    assert_eq!(first.jerk, Vec2::new(0, 0));
    let second = e.update(Vec2::new(10 * M + 100_000, 0), own);
    assert_eq!(second.acceleration, Vec2::new(6 * M, 0));
    assert_eq!(second.jerk, Vec2::new(0, 0));
    let third = e.update(Vec2::new(10 * M + 300_000, 0), own);
    assert_eq!(third.acceleration, Vec2::new(12 * M, 0));
    assert_eq!(third.jerk, Vec2::new(360 * M, 0));
}

#[test]
fn estimator_smooths_with_weight() {
    let mut e = DerivativeEstimator::with_weight(M / 2);
    e.update(Vec2::new(0, 0), Vec2::new(0, 0));
    let m = e.update(Vec2::new(0, 100_000), Vec2::new(0, 0));
    // Raw 6 m/s², halfway from zero.
    assert_eq!(m.acceleration, Vec2::new(0, 3 * M));
}

#[test]
fn estimator_saturates_large_differences() {
    let mut e = DerivativeEstimator::new();
    e.update(Vec2::new(-50_000_000_000, 0), Vec2::new(0, 0));
    let m = e.update(Vec2::new(50_000_000_000, 0), Vec2::new(0, 0));
    assert_eq!(m.acceleration.x, 100_000_000_000);
}
