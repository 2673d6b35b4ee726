//! Which behaviour a vehicle runs, chosen once when it is built, and the
//! calibration behaviour that checks the kinematic model against the host.
use crate::deflection::Deflection;
use crate::estimator::{saturate, MAX_SAMPLE};
use crate::fixed::{div_floor, Vec2, MAX_MAGNITUDE, SCALE, TICKS_PER_SECOND};
use crate::kinematics::{delta_distance_2, displacement};
use vstd::prelude::*;

verus! {

/// The kinds of vehicle the host may hand the library.
#[derive(Clone, Copy, Debug, PartialEq, Eq)]
pub enum ShipClass {
    Fighter,
    Frigate,
    Cruiser,
    Asteroid,
    Target,
    Missile,
    Torpedo,
    Unknown,
}

/// A behaviour, with its state.
#[derive(Clone, Copy, Debug, PartialEq, Eq)]
pub enum Behavior {
    Deflection(Deflection),
    KinematicsTest(KinematicsTest),
}

/// The behaviour for a class of vehicle: every class runs deflection
/// shooting, starting fresh.
pub fn get_class_ai(class: ShipClass) -> (r: Behavior)
    ensures
        r == Behavior::Deflection(Deflection::initial()),
{
    match class {
        ShipClass::Fighter => Behavior::Deflection(Deflection::new()),
        ShipClass::Frigate => Behavior::Deflection(Deflection::new()),
        ShipClass::Cruiser => Behavior::Deflection(Deflection::new()),
        ShipClass::Asteroid => Behavior::Deflection(Deflection::new()),
        ShipClass::Target => Behavior::Deflection(Deflection::new()),
        ShipClass::Missile => Behavior::Deflection(Deflection::new()),
        ShipClass::Torpedo => Behavior::Deflection(Deflection::new()),
        ShipClass::Unknown => Behavior::Deflection(Deflection::new()),
    }
}

/// Ticks over which the calibration behaviour still predicts: the horizon
/// `MAX_TIME` in ticks.
pub const CALIBRATION_TICKS: u32 = 6000;

/// Calibration: accelerate from rest with a known acceleration (growing by a
/// known jerk) and compare the position the host reports with the model's.
#[derive(Clone, Copy, Debug, PartialEq, Eq)]
pub struct KinematicsTest {
    pub initial_accel: Vec2,
    pub initial_jerk: Vec2,
    pub accel: Vec2,
}

/// One calibration tick's output.
#[derive(Clone, Copy, Debug, PartialEq, Eq)]
pub struct KinematicsProbe {
    /// Acceleration to command this tick.
    pub thrust: Vec2,
    /// Reported position minus predicted position, while within the horizon.
    pub prediction_error: Option<Vec2>,
}

/// Microseconds elapsed after `tick` ticks, rounded down.
pub open spec fn elapsed(tick: int) -> int {
    tick * SCALE / (TICKS_PER_SECOND as int)
}

/// Where the model puts the vehicle after `tick` ticks from rest.
pub open spec fn calibration_prediction(k: KinematicsTest, tick: int) -> Vec2 {
    Vec2 {
        x: displacement(elapsed(tick), 0, k.initial_accel.x as int, 0) as i64,
        y: displacement(elapsed(tick), 0, k.initial_accel.y as int, 0) as i64,
    }
}

impl KinematicsTest {
    pub open spec fn wf(self) -> bool {
        &&& self.initial_accel.bounded_by(MAX_MAGNITUDE as int)
        &&& self.initial_jerk.bounded_by(MAX_MAGNITUDE as int)
        &&& self.accel.bounded_by(MAX_MAGNITUDE as int)
    }

    /// Full forward acceleration along the x axis, without jerk.
    pub fn new(max_forward_acceleration: i64) -> (r: KinematicsTest)
        requires
            0 <= max_forward_acceleration <= MAX_MAGNITUDE,
        ensures
            r.wf(),
            r.initial_accel == (Vec2 { x: max_forward_acceleration, y: 0 }),
            r.initial_jerk == (Vec2 { x: 0, y: 0 }),
            r.accel == r.initial_accel,
    {
        let a = Vec2 { x: max_forward_acceleration, y: 0 };
        KinematicsTest { initial_accel: a, initial_jerk: Vec2 { x: 0, y: 0 }, accel: a }
    }

    /// Commands the current acceleration, compares `position` with the
    /// prediction for `current_tick`, and adds one tick of jerk to the
    /// acceleration, within the representable range.
    pub fn tick(&mut self, current_tick: u32, position: Vec2) -> (r: KinematicsProbe)
        requires
            old(self).wf(),
            position.bounded_by(MAX_SAMPLE as int),
        ensures
            final(self).wf(),
            r.thrust == old(self).accel,
            current_tick <= CALIBRATION_TICKS ==> r.prediction_error == Some(
                Vec2 {
                    x: (position.x - calibration_prediction(*old(self), current_tick as int).x) as i64,
                    y: (position.y - calibration_prediction(*old(self), current_tick as int).y) as i64,
                },
            ),
            current_tick > CALIBRATION_TICKS ==> r.prediction_error is None,
            final(self).initial_accel == old(self).initial_accel,
            final(self).initial_jerk == old(self).initial_jerk,
            final(self).accel.x == saturate(
                old(self).accel.x + (old(self).initial_jerk.x as int) / (TICKS_PER_SECOND as int),
            ),
            final(self).accel.y == saturate(
                old(self).accel.y + (old(self).initial_jerk.y as int) / (TICKS_PER_SECOND as int),
            ),
    {
        let prediction_error = if current_tick <= CALIBRATION_TICKS {
            let t: i64 = (current_tick as i64) * SCALE / TICKS_PER_SECOND;
            let px = delta_distance_2(t, 0, self.initial_accel.x, self.initial_jerk.x);
            let py = delta_distance_2(t, 0, self.initial_accel.y, self.initial_jerk.y);
            Some(Vec2 { x: position.x - px, y: position.y - py })
        } else {
            None
        };
        let thrust = self.accel;
        let ax = step_acceleration(self.accel.x, self.initial_jerk.x);
        let ay = step_acceleration(self.accel.y, self.initial_jerk.y);
        self.accel = Vec2 { x: ax, y: ay };
        KinematicsProbe { thrust, prediction_error }
    }
}

fn step_acceleration(accel: i64, jerk: i64) -> (r: i64)
    requires
        -MAX_MAGNITUDE <= accel <= MAX_MAGNITUDE,
        -MAX_MAGNITUDE <= jerk <= MAX_MAGNITUDE,
    ensures
        r == saturate(accel + (jerk as int) / (TICKS_PER_SECOND as int)),
        -MAX_MAGNITUDE <= r <= MAX_MAGNITUDE,
{
    let next: i128 = accel as i128 + div_floor(jerk as i128, 60);
    if next > MAX_MAGNITUDE as i128 {
        MAX_MAGNITUDE
    } else if next < -(MAX_MAGNITUDE as i128) {
        -MAX_MAGNITUDE
    } else {
        next as i64
    }
}

} // verus!
