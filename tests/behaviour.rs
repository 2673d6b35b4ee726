use oort_ai::behavior::{get_class_ai, Behavior, KinematicsTest, ShipClass};
use oort_ai::control::ControllerMemory;
use oort_ai::deflection::{Deflection, KinematicSample};
use oort_ai::fixed::{Vec2, SCALE};

const M: i64 = SCALE;

fn sample(px: i64, py: i64, vx: i64, vy: i64) -> KinematicSample {
    KinematicSample { position: Vec2::new(px, py), velocity: Vec2::new(vx, vy) }
}

#[test]
fn every_class_runs_deflection() {
    for class in [ShipClass::Fighter, ShipClass::Cruiser, ShipClass::Missile, ShipClass::Unknown] {
        match get_class_ai(class) {
            Behavior::Deflection(d) => assert_eq!(d.bullets_fired, 0),
            Behavior::KinematicsTest(_) => panic!("wrong behaviour"),
        }
    }
}

#[test]
fn stationary_target_ahead_is_fired_on() {
    let mut d = Deflection::new();
    let own = sample(0, 0, 0, 0);
    let target = sample(1000 * M, 0, 0, 0);
    let plan = d.plan(own, target).expect("a plan");
    assert_eq!(plan.bullet_intercept, Vec2::new(1000 * M, 0));
    assert_eq!(plan.ship_intercept, Vec2::new(1000 * M, 0));
    let c = d.command(&plan, 0, 0, 0, 0, 5, 60 * M, 2 * M);
    assert!(c.fire);
    assert!(c.boost);
    assert_eq!(c.torque, 0);
    assert_eq!(c.linear_thrust, Vec2::new(60 * M, 0));
    assert_eq!(d.bullets_fired, 1);
}

#[test]
fn target_off_bearing_is_not_fired_on() {
    let mut d = Deflection::new();
    let plan = d.plan(sample(0, 0, 0, 0), sample(0, 1000 * M, 0, 0)).expect("a plan");
    // Heading 0, bearing a quarter turn away and not moving since last tick.
    d.memory = ControllerMemory::new(1_570_796);
    let c = d.command(&plan, 0, 0, 1_570_796, 1_570_796, 1, 60 * M, 2 * M);
    assert!(!c.fire);
    assert!(!c.boost);
    assert_eq!(c.attitude.impulse, 2 * M);
    assert_eq!(d.bullets_fired, 0);
    assert_eq!(d.memory.last_target_heading, 1_570_796);
}

#[test]
fn sudden_bearing_jump_brakes_first() {
    let mut d = Deflection::new();
    let plan = d.plan(sample(0, 0, 0, 0), sample(0, 1000 * M, 0, 0)).expect("a plan");
    // The bearing seems to have jumped a quarter turn in one tick: its rate
    // dominates the arrival law, which asks to turn the other way.
    let c = d.command(&plan, 0, 0, 1_570_796, 1_570_796, 1, 60 * M, 2 * M);
    assert_eq!(c.attitude.target_angular_velocity, 94_247_760);
    assert_eq!(c.attitude.impulse, -2 * M);
}

#[test]
fn target_on_top_skips_the_tick() {
    let mut d = Deflection::new();
    assert!(d.plan(sample(5 * M, 5 * M, 0, 0), sample(5 * M, 5 * M, 0, 0)).is_none());
    // The estimator still took the sample.
    assert_eq!(d.estimator.samples, 1);
}

#[test]
fn moving_target_is_led() {
    let mut d = Deflection::new();
    let own = sample(0, 0, 0, 0);
    let target = sample(1000 * M, 0, 0, 100 * M);
    let plan = d.plan(own, target).expect("a plan");
    assert_eq!(plan.motion.velocity_delta, Vec2::new(0, 100 * M));
    assert!(plan.bullet_intercept.y > 100 * M);
    assert!(plan.ship_intercept.y > plan.bullet_intercept.y);
}

#[test]
fn calibration_predicts_and_thrusts() {
    let mut k = KinematicsTest::new(30 * M);
    // After one second from rest at 30 m/s²: 15 m plus 0.25 m correction.
    let probe = k.tick(60, Vec2::new(15_250_000, 0));
    assert_eq!(probe.thrust, Vec2::new(30 * M, 0));
    assert_eq!(probe.prediction_error, Some(Vec2::new(0, 0)));
    assert_eq!(k.accel, Vec2::new(30 * M, 0));
    let late = k.tick(10_000, Vec2::new(0, 0));
    assert_eq!(late.prediction_error, None);
}
