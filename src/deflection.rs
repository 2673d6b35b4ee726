//! The deflection-shooting behaviour: each tick it estimates the target's
//! motion, solves where a projectile and the vehicle would meet it, turns
//! toward the projectile's intercept, thrusts toward the vehicle's, and
//! decides whether to fire and boost.
//!
//! A tick runs in two calls. `plan` estimates and solves; the caller then
//! measures the bearing of each intercept vector and hands both to `command`.
use crate::control::{
    angle_diff, attitude_command, fire_decision, remembered, scaled_toward, shortest_turn,
    should_boost, should_fire, thrust_toward, AttitudeCommand, ControllerMemory,
    BOOST_WARMUP_TICKS, FIRE_TOLERANCE, FULL_TURN,
};
use crate::estimator::{advanced, estimate, DerivativeEstimator, EstimatedMotion, MAX_SAMPLE};
use crate::fixed::{abs, Vec2, MAX_COORDINATE, MAX_MAGNITUDE, SCALE};
use crate::intercept::{intercept, predict_intercept};
use vstd::prelude::*;

verus! {

/// Projectile speed, in micrometres per second (1000 m/s).
pub const BULLET_SPEED: i64 = 1_000_000_000;

/// Speed at which the vehicle is taken to close on the target, in
/// micrometres per second (350 m/s).
pub const PURSUIT_SPEED: i64 = 350_000_000;

/// Position and velocity of a body, as sampled this tick.
#[derive(Clone, Copy, Debug, PartialEq, Eq)]
pub struct KinematicSample {
    pub position: Vec2,
    pub velocity: Vec2,
}

impl KinematicSample {
    pub open spec fn in_range(self) -> bool {
        self.position.bounded_by(MAX_SAMPLE as int) && self.velocity.bounded_by(MAX_SAMPLE as int)
    }

    /// Whether the sample lies in the range that `Deflection::plan` accepts.
    pub fn is_in_range(&self) -> (r: bool)
        ensures
            r == self.in_range(),
    {
        let b = MAX_SAMPLE;
        -b <= self.position.x && self.position.x <= b && -b <= self.position.y && self.position.y
            <= b && -b <= self.velocity.x && self.velocity.x <= b && -b <= self.velocity.y
            && self.velocity.y <= b
    }
}

/// This tick's estimate and the two intercept vectors solved from it.
#[derive(Clone, Copy, Debug, PartialEq, Eq)]
pub struct InterceptPlan {
    /// Target position relative to the vehicle.
    pub relative_position: Vec2,
    pub motion: EstimatedMotion,
    /// Where a projectile fired now meets the target, relative to the vehicle.
    pub bullet_intercept: Vec2,
    /// Where the vehicle, closing at `PURSUIT_SPEED`, meets the target.
    pub ship_intercept: Vec2,
}

impl InterceptPlan {
    pub open spec fn in_range(self) -> bool {
        self.bullet_intercept.bounded_by(MAX_COORDINATE as int)
            && self.ship_intercept.bounded_by(MAX_COORDINATE as int)
    }

    /// Whether the intercept vectors lie in the range that
    /// `Deflection::command` accepts.
    pub fn is_in_range(&self) -> (r: bool)
        ensures
            r == self.in_range(),
    {
        let b = MAX_COORDINATE;
        -b <= self.bullet_intercept.x && self.bullet_intercept.x <= b && -b
            <= self.bullet_intercept.y && self.bullet_intercept.y <= b && -b
            <= self.ship_intercept.x && self.ship_intercept.x <= b && -b <= self.ship_intercept.y
            && self.ship_intercept.y <= b
    }
}

/// Everything the vehicle is told to do this tick, and the attitude
/// controller's intermediate values for whoever watches them.
#[derive(Clone, Copy, Debug, PartialEq, Eq)]
pub struct ActuationCommand {
    pub linear_thrust: Vec2,
    pub torque: i64,
    pub fire: bool,
    pub boost: bool,
    pub attitude: AttitudeCommand,
}

/// Position of `target` relative to `own`.
pub open spec fn relative(own: Vec2, target: Vec2) -> Vec2 {
    Vec2 { x: (target.x - own.x) as i64, y: (target.y - own.y) as i64 }
}

/// The plan for a tick with estimate `m` and relative position `p`: none
/// where either intercept vector has zero length, since it then has no
/// bearing.
pub open spec fn plan_for(p: Vec2, m: EstimatedMotion) -> Option<InterceptPlan> {
    let bullet = intercept(p, m.velocity_delta, m.acceleration, m.jerk, BULLET_SPEED as int);
    let ship = intercept(p, m.velocity_delta, m.acceleration, m.jerk, PURSUIT_SPEED as int);
    if bullet.length_spec() == 0 || ship.length_spec() == 0 {
        None
    } else {
        Some(
            InterceptPlan {
                relative_position: p,
                motion: m,
                bullet_intercept: bullet,
                ship_intercept: ship,
            },
        )
    }
}

/// The command for a tick: turn onto the projectile intercept's bearing,
/// thrust toward the vehicle intercept, fire when the aim error is within
/// tolerance at the projectile intercept's range, and boost when heading
/// near the vehicle intercept's bearing after the first ticks.
pub open spec fn command_for(
    memory: ControllerMemory,
    plan: InterceptPlan,
    heading: int,
    angular_velocity: int,
    bullet_bearing: int,
    ship_bearing: int,
    tick: int,
    max_forward_acceleration: int,
    max_angular_acceleration: int,
) -> ActuationCommand {
    let attitude = attitude_command(
        memory,
        heading,
        angular_velocity,
        bullet_bearing,
        max_angular_acceleration,
    );
    ActuationCommand {
        linear_thrust: scaled_toward(plan.ship_intercept, max_forward_acceleration),
        torque: attitude.torque,
        fire: fire_decision(
            attitude.angle_delta as int,
            plan.bullet_intercept.length_spec(),
            FIRE_TOLERANCE as int,
        ),
        boost: 5 * abs(shortest_turn(heading, ship_bearing)) <= FULL_TURN && tick
            > BOOST_WARMUP_TICKS,
        attitude,
    }
}

/// State of the deflection behaviour between ticks.
#[derive(Clone, Copy, Debug, PartialEq, Eq)]
pub struct Deflection {
    pub estimator: DerivativeEstimator,
    pub memory: ControllerMemory,
    pub bullets_fired: u32,
}

impl Deflection {
    pub open spec fn wf(self) -> bool {
        self.estimator.wf() && self.memory.wf()
    }

    /// The behaviour before its first tick: nothing sampled, the bearing
    /// taken at zero and still, nothing fired.
    pub open spec fn initial() -> Deflection {
        Deflection {
            estimator: DerivativeEstimator::with_weight_spec(SCALE as int),
            memory: ControllerMemory {
                last_target_heading: 0,
                last_angular_velocity: 0,
                last_angular_acceleration: 0,
            },
            bullets_fired: 0,
        }
    }

    pub fn new() -> (r: Deflection)
        ensures
            r == Deflection::initial(),
            r.wf(),
    {
        Deflection {
            estimator: DerivativeEstimator::new(),
            memory: ControllerMemory::new(0),
            bullets_fired: 0,
        }
    }

    /// Estimates the target's motion from this tick's samples and solves
    /// both intercepts; `None` where an intercept has zero length, in which
    /// case the tick issues no command.
    pub fn plan(&mut self, own: KinematicSample, target: KinematicSample) -> (r: Option<
        InterceptPlan,
    >)
        requires
            old(self).wf(),
            own.in_range(),
            target.in_range(),
        ensures
            final(self).wf(),
            final(self).memory == old(self).memory,
            final(self).bullets_fired == old(self).bullets_fired,
            final(self).estimator == advanced(
                old(self).estimator,
                target.velocity,
                estimate(old(self).estimator, target.velocity, own.velocity),
            ),
            r == plan_for(
                relative(own.position, target.position),
                estimate(old(self).estimator, target.velocity, own.velocity),
            ),
            r matches Some(p) ==> p.in_range(),
    {
        let p = Vec2 {
            x: target.position.x - own.position.x,
            y: target.position.y - own.position.y,
        };
        let motion = self.estimator.update(target.velocity, own.velocity);
        let bullet = predict_intercept(
            p,
            motion.velocity_delta,
            motion.acceleration,
            motion.jerk,
            BULLET_SPEED,
        );
        let ship = predict_intercept(
            p,
            motion.velocity_delta,
            motion.acceleration,
            motion.jerk,
            PURSUIT_SPEED,
        );
        if bullet.length() == 0 || ship.length() == 0 {
            None
        } else {
            Some(
                InterceptPlan {
                    relative_position: p,
                    motion,
                    bullet_intercept: bullet,
                    ship_intercept: ship,
                },
            )
        }
    }

    /// Issues this tick's command from `plan` and the bearings of its two
    /// intercept vectors, and remembers the projectile bearing.
    pub fn command(
        &mut self,
        plan: &InterceptPlan,
        heading: i64,
        angular_velocity: i64,
        bullet_bearing: i64,
        ship_bearing: i64,
        tick: u32,
        max_forward_acceleration: i64,
        max_angular_acceleration: i64,
    ) -> (r: ActuationCommand)
        requires
            old(self).wf(),
            plan.in_range(),
            abs(angular_velocity as int) <= MAX_MAGNITUDE,
            0 <= max_forward_acceleration <= MAX_MAGNITUDE,
            0 <= max_angular_acceleration <= MAX_MAGNITUDE,
        ensures
            r == command_for(
                old(self).memory,
                *plan,
                heading as int,
                angular_velocity as int,
                bullet_bearing as int,
                ship_bearing as int,
                tick as int,
                max_forward_acceleration as int,
                max_angular_acceleration as int,
            ),
            final(self).wf(),
            final(self).estimator == old(self).estimator,
            final(self).memory == remembered(old(self).memory, bullet_bearing as int, r.attitude),
            final(self).bullets_fired == (if r.fire && old(self).bullets_fired < u32::MAX {
                old(self).bullets_fired + 1
            } else {
                old(self).bullets_fired as int
            }),
            abs(r.attitude.impulse as int) <= max_angular_acceleration,
    {
        let attitude = self.memory.track(
            heading,
            angular_velocity,
            bullet_bearing,
            max_angular_acceleration,
        );
        let range = plan.bullet_intercept.length();
        proof {
            assert(abs(attitude.angle_delta as int) <= MAX_MAGNITUDE);
        }
        let fire = should_fire(attitude.angle_delta, range, FIRE_TOLERANCE);
        let boost = should_boost(angle_diff(heading, ship_bearing), tick);
        let linear_thrust = thrust_toward(plan.ship_intercept, max_forward_acceleration);
        if fire && self.bullets_fired < u32::MAX {
            self.bullets_fired = self.bullets_fired + 1;
        }
        ActuationCommand { linear_thrust, torque: attitude.torque, fire, boost, attitude }
    }
}

} // verus!
