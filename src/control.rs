//! Attitude control and the actuation gates: torque toward a bearing, thrust
//! toward a point, and when to fire or boost.
use crate::fixed::{
    abs, clamp, div_floor, is_floor_sqrt, lemma_floor_sqrt_is, Vec2, MAX_COORDINATE,
    MAX_MAGNITUDE, SCALE, TICKS_PER_SECOND,
};
use crate::turn::{arrival_velocity, get_optimal_arrive_velocity};
use vstd::arithmetic::div_mod::{
    lemma_div_is_ordered, lemma_fundamental_div_mod, lemma_fundamental_div_mod_converse,
};
use vstd::prelude::*;

verus! {

/// A full turn, in microradians.
pub const FULL_TURN: i64 = 6_283_185;

/// Largest rate, in microradians per second, at which a bearing can turn
/// between two ticks: half a turn per tick.
pub const MAX_TURN_RATE: i64 = 188_495_550;

/// Angular tolerance times range under which a projectile still hits, in
/// millionths of a radian-metre: 1.65 turn-metres.
pub const FIRE_TOLERANCE: i64 = 10_367_256;

/// Ticks to wait before the first boost, while no estimate is valid yet.
pub const BOOST_WARMUP_TICKS: u32 = 2;

/// The smallest signed rotation from angle `from` to angle `to`, in
/// `(-FULL_TURN / 2, FULL_TURN / 2]`.
pub open spec fn shortest_turn(from: int, to: int) -> int {
    let c = (to - from) % (FULL_TURN as int);
    if 2 * c > FULL_TURN {
        c - FULL_TURN
    } else {
        c
    }
}

/// The smallest signed rotation from `a` to `b`.
pub fn angle_diff(a: i64, b: i64) -> (r: i64)
    ensures
        r == shortest_turn(a as int, b as int),
        -FULL_TURN < 2 * r <= FULL_TURN,
{
    let x: i128 = b as i128 - a as i128;
    let t: i128 = FULL_TURN as i128;
    let c: i128 = if x >= 0 {
        x % t
    } else {
        let m: i128 = (-x) % t;
        proof {
            let q = (-x) / (t as int);
            lemma_fundamental_div_mod(-x, t as int);
            if m == 0 {
                lemma_fundamental_div_mod_converse(x as int, t as int, -q, 0);
            } else {
                lemma_fundamental_div_mod_converse(x as int, t as int, -q - 1, t - m);
            }
        }
        if m == 0 {
            0
        } else {
            t - m
        }
    };
    if 2 * c > t {
        (c - t) as i64
    } else {
        c as i64
    }
}

/// What the controller carries from one tick to the next: the bearing it
/// tracked, and that bearing's rate and change of rate.
#[derive(Clone, Copy, Debug, PartialEq, Eq)]
pub struct ControllerMemory {
    pub last_target_heading: i64,
    pub last_angular_velocity: i64,
    pub last_angular_acceleration: i64,
}

/// One tick's rotational command, with the intermediate values behind it.
#[derive(Clone, Copy, Debug, PartialEq, Eq)]
pub struct AttitudeCommand {
    /// Rotation from the current heading to the bearing.
    pub angle_delta: i64,
    /// Rate at which the bearing turns.
    pub target_angular_velocity: i64,
    /// Angular velocity from which braking arrives on the bearing at its rate.
    pub desired_velocity: i64,
    /// Change of angular velocity asked for, within the acceleration limit.
    pub impulse: i64,
    /// The impulse spread over one tick.
    pub torque: i64,
}

/// The command for one tick: the velocity change toward the arrival velocity,
/// clamped to the acceleration limit, and issued over one tick.
pub open spec fn attitude_command(
    memory: ControllerMemory,
    heading: int,
    angular_velocity: int,
    target_heading: int,
    max_angular_acceleration: int,
) -> AttitudeCommand {
    let delta = shortest_turn(heading, target_heading);
    let rate = shortest_turn(memory.last_target_heading as int, target_heading) * TICKS_PER_SECOND;
    let desired = arrival_velocity(delta, max_angular_acceleration, rate);
    let impulse = clamp(
        desired - angular_velocity,
        -max_angular_acceleration,
        max_angular_acceleration,
    );
    AttitudeCommand {
        angle_delta: delta as i64,
        target_angular_velocity: rate as i64,
        desired_velocity: desired as i64,
        impulse: impulse as i64,
        torque: (impulse * TICKS_PER_SECOND) as i64,
    }
}

/// The memory after a tick that tracked `target_heading` and issued `command`.
pub open spec fn remembered(
    memory: ControllerMemory,
    target_heading: int,
    command: AttitudeCommand,
) -> ControllerMemory {
    ControllerMemory {
        last_target_heading: target_heading as i64,
        last_angular_velocity: command.target_angular_velocity,
        last_angular_acceleration: ((command.target_angular_velocity - memory.last_angular_velocity)
            * TICKS_PER_SECOND) as i64,
    }
}

impl ControllerMemory {
    pub open spec fn wf(self) -> bool {
        abs(self.last_angular_velocity as int) <= MAX_TURN_RATE
    }

    /// Memory for a controller that starts with its bearing at `heading`,
    /// not turning.
    pub fn new(heading: i64) -> (r: ControllerMemory)
        ensures
            r.wf(),
            r.last_target_heading == heading,
            r.last_angular_velocity == 0,
            r.last_angular_acceleration == 0,
    {
        ControllerMemory {
            last_target_heading: heading,
            last_angular_velocity: 0,
            last_angular_acceleration: 0,
        }
    }

    /// Turns toward `target_heading` while matching its rate: returns this
    /// tick's command and remembers the bearing.
    pub fn track(
        &mut self,
        heading: i64,
        angular_velocity: i64,
        target_heading: i64,
        max_angular_acceleration: i64,
    ) -> (r: AttitudeCommand)
        requires
            old(self).wf(),
            abs(angular_velocity as int) <= MAX_MAGNITUDE,
            0 <= max_angular_acceleration <= MAX_MAGNITUDE,
        ensures
            r == attitude_command(
                *old(self),
                heading as int,
                angular_velocity as int,
                target_heading as int,
                max_angular_acceleration as int,
            ),
            *final(self) == remembered(*old(self), target_heading as int, r),
            final(self).wf(),
            abs(r.impulse as int) <= max_angular_acceleration,
            abs(r.torque as int) <= TICKS_PER_SECOND * max_angular_acceleration,
    {
        let angle_delta = angle_diff(heading, target_heading);
        let target_angular_velocity = angle_diff(self.last_target_heading, target_heading)
            * TICKS_PER_SECOND;
        let desired_velocity = get_optimal_arrive_velocity(
            angle_delta,
            max_angular_acceleration,
            target_angular_velocity,
        );
        let wanted = desired_velocity - angular_velocity;
        let impulse = if wanted < -max_angular_acceleration {
            -max_angular_acceleration
        } else if wanted > max_angular_acceleration {
            max_angular_acceleration
        } else {
            wanted
        };
        let command = AttitudeCommand {
            angle_delta,
            target_angular_velocity,
            desired_velocity,
            impulse,
            torque: impulse * TICKS_PER_SECOND,
        };
        self.last_angular_acceleration = (target_angular_velocity - self.last_angular_velocity)
            * TICKS_PER_SECOND;
        self.last_angular_velocity = target_angular_velocity;
        self.last_target_heading = target_heading;
        command
    }
}

/// Whatever the heading, the bearing, its rate and the angular velocity, the
/// commanded velocity change stays within the acceleration limit.
pub proof fn lemma_impulse_within_limit(
    memory: ControllerMemory,
    heading: int,
    angular_velocity: int,
    target_heading: int,
    max_angular_acceleration: int,
)
    requires
        0 <= max_angular_acceleration <= MAX_MAGNITUDE,
    ensures
        abs(
            attitude_command(
                memory,
                heading,
                angular_velocity,
                target_heading,
                max_angular_acceleration,
            ).impulse as int,
        ) <= max_angular_acceleration,
{
}

/// Already on the bearing and turning with it, the controller commands no
/// torque, provided the bearing is not turning in the positive sense. (For a
/// positive rate the arrival law, which takes the sign of `-rate²` at zero
/// distance, asks for the opposite rate.)
pub proof fn lemma_on_target_needs_no_torque(
    memory: ControllerMemory,
    heading: int,
    max_angular_acceleration: int,
)
    requires
        shortest_turn(memory.last_target_heading as int, heading) <= 0,
        max_angular_acceleration >= 0,
    ensures
        attitude_command(
            memory,
            heading,
            shortest_turn(memory.last_target_heading as int, heading) * TICKS_PER_SECOND,
            heading,
            max_angular_acceleration,
        ).torque == 0,
{
    let rate = shortest_turn(memory.last_target_heading as int, heading) * TICKS_PER_SECOND;
    assert(shortest_turn(heading, heading) == 0);
    let q = 2 * max_angular_acceleration * 0 - rate * rate;
    assert(q == -(rate * rate));
    assert(is_floor_sqrt(-rate, rate * rate)) by (nonlinear_arith)
        requires
            rate <= 0,
    ;
    lemma_floor_sqrt_is(-rate, rate * rate);
    if rate < 0 {
        assert(rate * rate > 0) by (nonlinear_arith)
            requires
                rate < 0,
        ;
    }
    assert(arrival_velocity(0, max_angular_acceleration, rate) == rate);
}

/// Whether a projectile fired now hits: the aim error `angle_delta` is
/// within `tolerance / range`, compared without dividing.
pub open spec fn fire_decision(angle_delta: int, range: int, tolerance: int) -> bool {
    abs(angle_delta) * range <= tolerance * SCALE
}

/// Fire when the aim error is within a tolerance that shrinks with range.
pub fn should_fire(angle_delta: i64, range: u64, tolerance: i64) -> (r: bool)
    requires
        abs(angle_delta as int) <= MAX_MAGNITUDE,
        range <= 2 * MAX_COORDINATE,
        abs(tolerance as int) <= MAX_MAGNITUDE,
    ensures
        r == fire_decision(angle_delta as int, range as int, tolerance as int),
{
    let delta: i128 = if angle_delta < 0 { -(angle_delta as i128) } else { angle_delta as i128 };
    proof {
        assert(delta * range <= MAX_MAGNITUDE * (2 * MAX_COORDINATE)) by (nonlinear_arith)
            requires
                0 <= delta <= MAX_MAGNITUDE,
                0 <= range <= 2 * MAX_COORDINATE,
        ;
    }
    delta * (range as i128) <= (tolerance as i128) * 1_000_000
}

/// Boost when heading within a fifth of a turn of the pursuit bearing, once
/// the first ticks are over.
pub fn should_boost(angle_delta: i64, tick: u32) -> (r: bool)
    requires
        abs(angle_delta as int) <= MAX_MAGNITUDE,
    ensures
        r == (5 * abs(angle_delta as int) <= FULL_TURN && tick > BOOST_WARMUP_TICKS),
{
    let delta: i64 = if angle_delta < 0 { -angle_delta } else { angle_delta };
    5 * delta <= FULL_TURN && tick > BOOST_WARMUP_TICKS
}

/// `direction` rescaled to length `magnitude`, each component rounded down;
/// the zero vector has no direction and gives zero.
pub open spec fn scaled_toward(direction: Vec2, magnitude: int) -> Vec2 {
    let len = direction.length_spec();
    if len == 0 {
        Vec2 { x: 0, y: 0 }
    } else {
        Vec2 {
            x: (direction.x * magnitude / len) as i64,
            y: (direction.y * magnitude / len) as i64,
        }
    }
}

proof fn lemma_component_within_length(c: int, other: int, len: int)
    requires
        is_floor_sqrt(len, c * c + other * other),
    ensures
        abs(c) <= len,
{
    assert(other * other >= 0) by (nonlinear_arith);
    assert(abs(c) <= len) by (nonlinear_arith)
        requires
            c * c + other * other < (len + 1) * (len + 1),
            len >= 0,
            other * other >= 0,
            abs(c) == (if c < 0 { -c } else { c }),
    ;
}

proof fn lemma_scaled_component(c: int, m: int, len: int)
    requires
        abs(c) <= len,
        len >= 1,
        m >= 0,
    ensures
        abs(c * m / len) <= m,
{
    assert(-(len * m) <= c * m <= len * m) by (nonlinear_arith)
        requires
            abs(c) <= len,
            m >= 0,
            abs(c) == (if c < 0 { -c } else { c }),
    ;
    lemma_div_is_ordered(-(len * m), c * m, len);
    lemma_div_is_ordered(c * m, len * m, len);
    vstd::arithmetic::div_mod::lemma_div_by_multiple(m, len);
    assert(len * m == m * len) by (nonlinear_arith);
    assert((-(len * m)) / len == -m) by {
        assert(-(len * m) == (-m) * len + 0) by (nonlinear_arith);
        lemma_fundamental_div_mod_converse(-(len * m), len, -m, 0);
    }
}

/// Thrust of `max_acceleration` toward `direction`; none toward the zero vector.
pub fn thrust_toward(direction: Vec2, max_acceleration: i64) -> (r: Vec2)
    requires
        direction.bounded_by(MAX_COORDINATE as int),
        0 <= max_acceleration <= MAX_MAGNITUDE,
    ensures
        r == scaled_toward(direction, max_acceleration as int),
{
    let len: u64 = direction.length();
    if len == 0 {
        return Vec2 { x: 0, y: 0 };
    }
    let m: i128 = max_acceleration as i128;
    let l: i128 = len as i128;
    proof {
        lemma_component_within_length(direction.x as int, direction.y as int, len as int);
        lemma_component_within_length(direction.y as int, direction.x as int, len as int);
        assert(direction.y * direction.y + direction.x * direction.x == direction.length_squared_spec());
        lemma_scaled_component(direction.x as int, m as int, l as int);
        lemma_scaled_component(direction.y as int, m as int, l as int);
        assert(abs((direction.x as int) * m) <= MAX_COORDINATE * MAX_MAGNITUDE) by (nonlinear_arith)
            requires
                abs(direction.x as int) <= MAX_COORDINATE,
                0 <= m <= MAX_MAGNITUDE,
                abs(direction.x as int) == (if direction.x < 0 { -direction.x } else { direction.x as int }),
                abs((direction.x as int) * m) == (if direction.x * m < 0 { -(direction.x * m) } else { direction.x * m }),
        ;
        assert(abs((direction.y as int) * m) <= MAX_COORDINATE * MAX_MAGNITUDE) by (nonlinear_arith)
            requires
                abs(direction.y as int) <= MAX_COORDINATE,
                0 <= m <= MAX_MAGNITUDE,
                abs(direction.y as int) == (if direction.y < 0 { -direction.y } else { direction.y as int }),
                abs((direction.y as int) * m) == (if direction.y * m < 0 { -(direction.y * m) } else { direction.y * m }),
        ;
    }
    let x: i128 = div_floor((direction.x as i128) * m, l);
    let y: i128 = div_floor((direction.y as i128) * m, l);
    Vec2 { x: x as i64, y: y as i64 }
}

} // verus!
