//! Where a projectile, or the vehicle itself, meets a target whose motion is
//! extrapolated with the kinematic model.
use crate::fixed::{Vec2, MAX_COORDINATE, MAX_MAGNITUDE, MAX_TIME, SCALE};
use crate::kinematics::{delta_distance, displacement};
use vstd::prelude::*;

verus! {

/// Fixed-point iterations that the intercept solver runs; there is no
/// convergence test, so the cost per tick is fixed.
pub const INTERCEPT_ITERATIONS: u32 = 4;

/// Relative position, velocity, acceleration and jerk all lie in the range
/// that the kinematic model accepts.
pub open spec fn motion_in_range(p: Vec2, v: Vec2, a: Vec2, j: Vec2) -> bool {
    p.bounded_by(MAX_MAGNITUDE as int) && v.bounded_by(MAX_MAGNITUDE as int) && a.bounded_by(
        MAX_MAGNITUDE as int,
    ) && j.bounded_by(MAX_MAGNITUDE as int)
}

/// Microseconds needed to cover the length of `x` at `speed`, rounded down
/// and capped at the prediction horizon `MAX_TIME`.
pub open spec fn time_to_cover(x: Vec2, speed: int) -> int {
    let t = x.length_spec() * SCALE / speed;
    if t > MAX_TIME {
        MAX_TIME as int
    } else {
        t
    }
}

/// Where the target is, relative to the reference, `t` microseconds ahead.
pub open spec fn predicted_offset(p: Vec2, v: Vec2, a: Vec2, j: Vec2, t: int) -> Vec2 {
    Vec2 {
        x: (p.x + displacement(t, v.x as int, a.x as int, j.x as int)) as i64,
        y: (p.y + displacement(t, v.y as int, a.y as int, j.y as int)) as i64,
    }
}

/// The solver's time estimate after `n` iterations: first the time to cover
/// the current distance, then each time the time to cover the distance to
/// where the target is predicted to be at the previous estimate.
pub open spec fn intercept_time(p: Vec2, v: Vec2, a: Vec2, j: Vec2, speed: int, n: nat) -> int
    decreases n,
{
    if n == 0 {
        time_to_cover(p, speed)
    } else {
        time_to_cover(
            predicted_offset(p, v, a, j, intercept_time(p, v, a, j, speed, (n - 1) as nat)),
            speed,
        )
    }
}

/// The intercept vector that the solver returns: the predicted offset at its
/// last time estimate.
pub open spec fn intercept(p: Vec2, v: Vec2, a: Vec2, j: Vec2, speed: int) -> Vec2 {
    predicted_offset(p, v, a, j, intercept_time(p, v, a, j, speed, (INTERCEPT_ITERATIONS - 1) as nat))
}

fn time_to_cover_at(x: &Vec2, speed: i64) -> (r: i64)
    requires
        x.bounded_by(MAX_COORDINATE as int),
        speed > 0,
    ensures
        r == time_to_cover(*x, speed as int),
        0 <= r <= MAX_TIME,
{
    let len: u64 = x.length();
    let t: i128 = (len as i128) * (SCALE as i128) / (speed as i128);
    if t > MAX_TIME as i128 {
        MAX_TIME
    } else {
        t as i64
    }
}

fn offset_at(p: &Vec2, v: &Vec2, a: &Vec2, j: &Vec2, t: i64) -> (r: Vec2)
    requires
        motion_in_range(*p, *v, *a, *j),
        0 <= t <= MAX_TIME,
    ensures
        r == predicted_offset(*p, *v, *a, *j, t as int),
        r.bounded_by(MAX_COORDINATE as int),
{
    let dx = delta_distance(t, v.x, a.x, j.x);
    let dy = delta_distance(t, v.y, a.y, j.y);
    Vec2 { x: p.x + dx, y: p.y + dy }
}

/// Solves for the intercept vector of a reference moving at `spd` against a
/// target at relative position `enm_pos`, with relative velocity `enm_vel`
/// and estimated acceleration `enm_acc` and jerk `enm_jerk`, by a fixed
/// number of fixed-point iterations.
///
/// Each time estimate is capped at the prediction horizon `MAX_TIME`
/// (100 s): a target farther than 100 s of travel at `spd` is predicted
/// where it will be after 100 s.
pub fn predict_intercept(enm_pos: Vec2, enm_vel: Vec2, enm_acc: Vec2, enm_jerk: Vec2, spd: i64) -> (r:
    Vec2)
    requires
        motion_in_range(enm_pos, enm_vel, enm_acc, enm_jerk),
        spd > 0,
    ensures
        r == intercept(enm_pos, enm_vel, enm_acc, enm_jerk, spd as int),
        r.bounded_by(MAX_COORDINATE as int),
{
    let mut iterations: u32 = INTERCEPT_ITERATIONS;
    let mut intercept_vec: Vec2 = enm_pos;
    let mut ttt: i64 = time_to_cover_at(&intercept_vec, spd);
    let ghost mut k: nat = 0;
    while iterations > 0
        invariant
            motion_in_range(enm_pos, enm_vel, enm_acc, enm_jerk),
            spd > 0,
            k + iterations == INTERCEPT_ITERATIONS,
            ttt == intercept_time(enm_pos, enm_vel, enm_acc, enm_jerk, spd as int, k),
            0 <= ttt <= MAX_TIME,
            k > 0 ==> intercept_vec == predicted_offset(
                enm_pos,
                enm_vel,
                enm_acc,
                enm_jerk,
                intercept_time(enm_pos, enm_vel, enm_acc, enm_jerk, spd as int, (k - 1) as nat),
            ),
            intercept_vec.bounded_by(MAX_COORDINATE as int),
        decreases iterations,
    {
        intercept_vec = offset_at(&enm_pos, &enm_vel, &enm_acc, &enm_jerk, ttt);
        ttt = time_to_cover_at(&intercept_vec, spd);
        iterations = iterations - 1;
        proof {
            k = k + 1;
        }
    }
    intercept_vec
}

} // verus!
