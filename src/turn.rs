//! Closed-form rotation laws: time to turn through an angle, and the angular
//! velocity from which braking at full rate arrives exactly.
use crate::fixed::{
    abs, div_floor, floor_sqrt, is_floor_sqrt, isqrt, lemma_div_bounded, lemma_mul_bound,
    lemma_sqrt_bound, sign, MAX_MAGNITUDE, MAX_TIME, SCALE,
};
use vstd::prelude::*;

verus! {

/// Quotient rounded down, for a divisor of either sign.
pub open spec fn floor_div(n: int, d: int) -> int {
    if d > 0 {
        n / d
    } else {
        (-n) / (-d)
    }
}

/// `14400` times the discriminant of `d = v t + a t² / 2 + a t Δt / 2`, the
/// turn through `d` starting at rate `v` under constant acceleration `a`
/// (`Δt = 1 / 60` s).
pub open spec fn turn_discriminant(d: int, v: int, a: int) -> int {
    a * a + 240 * a * v + 28800 * a * d + 14400 * v * v
}

/// The sign restored after taking a square root of a magnitude: a zero
/// discriminant counts as positive, so that it keeps the double root.
pub open spec fn restored_sign(q: int) -> int {
    if q >= 0 {
        1
    } else {
        -1
    }
}

/// The root of that quadratic given by the quadratic formula, in
/// microseconds, rounded down. The square root is taken of the
/// discriminant's magnitude and its sign restored afterwards, so that a
/// negative discriminant still yields a number.
pub open spec fn time_to_turn(d: int, v: int, a: int) -> int {
    let q = turn_discriminant(d, v, a);
    floor_div(restored_sign(q) * (floor_sqrt(abs(q)) - a - 120 * v) * SCALE, 120 * a)
}

/// The velocity at which to start so as to cover `d` in `t` while braking
/// at `a`, with the half-tick correction: `d / t - a t / 2 - a Δt / 2`, in
/// micro-units, rounded down.
pub open spec fn average_arrival_velocity(d: int, t: int, a: int) -> int {
    floor_div(120 * SCALE * SCALE * d - 60 * a * t * t - SCALE * a * t, 120 * SCALE * t)
}

/// The velocity from which braking at `a` covers `d` and ends at `vf`:
/// the square root of `2 a d - vf²` in magnitude, with that quantity's sign.
pub open spec fn arrival_velocity(d: int, a: int, vf: int) -> int {
    let q = 2 * a * d - vf * vf;
    sign(q) * floor_sqrt(abs(q))
}

pub open spec fn rotation_in_range(d: int, v: int, a: int) -> bool {
    abs(d) <= MAX_MAGNITUDE && abs(v) <= MAX_MAGNITUDE && abs(a) <= MAX_MAGNITUDE
}

/// The discriminant of the turn quadratic and the rounded-down square root
/// of its magnitude.
fn turn_root(distance: i64, velocity: i64, accel: i64) -> (r: (i128, u64))
    requires
        rotation_in_range(distance as int, velocity as int, accel as int),
    ensures
        r.0 == turn_discriminant(distance as int, velocity as int, accel as int),
        r.1 == floor_sqrt(abs(r.0 as int)),
        r.1 <= 30_000_000_000_000,
{
    let d: i128 = distance as i128;
    let v: i128 = velocity as i128;
    let a: i128 = accel as i128;
    proof {
        lemma_mul_bound(a as int, a as int, MAX_MAGNITUDE as int, MAX_MAGNITUDE as int);
        lemma_mul_bound(a as int, v as int, MAX_MAGNITUDE as int, MAX_MAGNITUDE as int);
        lemma_mul_bound(a as int, d as int, MAX_MAGNITUDE as int, MAX_MAGNITUDE as int);
        lemma_mul_bound(v as int, v as int, MAX_MAGNITUDE as int, MAX_MAGNITUDE as int);
    }
    let q: i128 = a * a + 240 * (a * v) + 28800 * (a * d) + 14400 * (v * v);
    let q_abs: u128 = if q < 0 { (-q) as u128 } else { q as u128 };
    let root: u64 = isqrt(q_abs);
    proof {
        assert(q == turn_discriminant(d as int, v as int, a as int)) by (nonlinear_arith)
            requires
                q == a * a + 240 * (a * v) + 28800 * (a * d) + 14400 * (v * v),
        ;
        lemma_sqrt_bound(root as int, q_abs as int, 30_000_000_000_000);
    }
    (q, root)
}

/// `time_to_turn` from the discriminant `q` and its root `root`.
fn turn_time_from_root(q: i128, root: u64, distance: i64, velocity: i64, accel: i64) -> (r: i64)
    requires
        rotation_in_range(distance as int, velocity as int, accel as int),
        accel != 0,
        q == turn_discriminant(distance as int, velocity as int, accel as int),
        root == floor_sqrt(abs(q as int)),
        root <= 30_000_000_000_000,
    ensures
        r == time_to_turn(distance as int, velocity as int, accel as int),
{
    let v: i128 = velocity as i128;
    let a: i128 = accel as i128;
    let base: i128 = root as i128 - a - 120 * v;
    let n: i128 = if q >= 0 { base } else { -base };
    assert(abs(n as int) <= 50_000_000_000_000);
    let ns: i128 = n * 1_000_000;
    let t: i128 = if a > 0 { div_floor(ns, 120 * a) } else { div_floor(-ns, -120 * a) };
    proof {
        assert(n == restored_sign(q as int) * (floor_sqrt(abs(q as int)) - a - 120 * v));
        lemma_div_bounded(ns as int, if a > 0 { 120 * a } else { -120 * a }, 500_000_000_000_000_000);
        lemma_div_bounded(-ns, if a > 0 { 120 * a } else { -120 * a }, 500_000_000_000_000_000);
    }
    t as i64
}

/// Time in microseconds to turn through `distance` starting at relative
/// rate `velocity` under constant angular acceleration `accel`; `None` where
/// `accel` is zero and there is no quadratic to solve. A negative
/// discriminant still yields a number, by the restored sign.
pub fn get_ttt(distance: i64, velocity: i64, accel: i64) -> (r: Option<i64>)
    requires
        rotation_in_range(distance as int, velocity as int, accel as int),
    ensures
        accel == 0 ==> r is None,
        accel != 0 ==> r == Some(time_to_turn(distance as int, velocity as int, accel as int) as i64),
{
    if accel == 0 {
        return None;
    }
    let (q, root) = turn_root(distance, velocity, accel);
    Some(turn_time_from_root(q, root, distance, velocity, accel))
}

/// Time in microseconds to turn through `distance` starting at
/// `initial_velocity`, the same root as `get_ttt`: the square root is taken
/// of the discriminant's magnitude and its sign restored, so a negative
/// discriminant still yields a number. `None` where `accel` is zero.
pub fn get_ttt_2(distance: i64, initial_velocity: i64, accel: i64) -> (r: Option<i64>)
    requires
        rotation_in_range(distance as int, initial_velocity as int, accel as int),
    ensures
        accel == 0 ==> r is None,
        accel != 0 ==> r == Some(
            time_to_turn(distance as int, initial_velocity as int, accel as int) as i64,
        ),
{
    if accel == 0 {
        return None;
    }
    let (q, root) = turn_root(distance, initial_velocity, accel);
    Some(turn_time_from_root(q, root, distance, initial_velocity, accel))
}

/// The starting velocity that covers `distance` in `time` microseconds
/// while braking at `max_accel`; `None` for a zero time.
pub fn get_optimal_arrival_velocity_v3(distance: i64, time: i64, max_accel: i64) -> (r: Option<i64>)
    requires
        abs(distance as int) <= MAX_MAGNITUDE,
        abs(max_accel as int) <= MAX_MAGNITUDE,
        abs(time as int) <= MAX_TIME,
    ensures
        time == 0 ==> r is None,
        time != 0 ==> r == Some(average_arrival_velocity(distance as int, time as int, max_accel as int) as i64),
{
    if time == 0 {
        return None;
    }
    let d: i128 = distance as i128;
    let t: i128 = time as i128;
    let a: i128 = max_accel as i128;
    let ghost ta: int = abs(t as int);
    let ghost bound: int = 100_005_001_000_000_000int;
    proof {
        lemma_mul_bound(t as int, t as int, MAX_TIME as int, MAX_TIME as int);
        lemma_mul_bound(a as int, t as int, MAX_MAGNITUDE as int, MAX_TIME as int);
        lemma_mul_bound(a as int, t * t, MAX_MAGNITUDE as int, MAX_TIME * MAX_TIME);
    }
    let tt: i128 = t * t;
    let n: i128 = 120_000_000_000_000 * d - 60 * (a * tt) - 1_000_000 * (a * t);
    let den: i128 = 120_000_000 * t;
    proof {
        assert(n == 120 * SCALE * SCALE * distance - 60 * max_accel * time * time - SCALE * max_accel
            * time) by (nonlinear_arith)
            requires
                n == 120_000_000_000_000 * d - 60 * (a * tt) - 1_000_000 * (a * t),
                tt == t * t,
                d == distance,
                a == max_accel,
                t == time,
        ;
        assert(abs(n as int) <= 120_000_000 * ta * bound) by (nonlinear_arith)
            requires
                n == 120_000_000_000_000 * d - 60 * (a * (t * t)) - 1_000_000 * (a * t),
                ta == abs(t as int),
                ta >= 1,
                ta <= MAX_TIME,
                -MAX_MAGNITUDE <= d <= MAX_MAGNITUDE,
                -MAX_MAGNITUDE <= a <= MAX_MAGNITUDE,
                bound == 100_005_001_000_000_000int,
                abs(t as int) == (if t < 0 { -t } else { t as int }),
                abs(n as int) == (if n < 0 { -n } else { n as int }),
        ;
        lemma_div_bounded(n as int, 120_000_000 * ta, bound);
        lemma_div_bounded(-n, 120_000_000 * ta, bound);
    }
    let r: i128 = if t > 0 { div_floor(n, den) } else { div_floor(-n, -den) };
    Some(r as i64)
}

/// The angular velocity to hold now so that braking at `max_accel` turns
/// through `distance` and ends at `final_velocity`, without overshoot.
pub fn get_optimal_arrive_velocity(distance: i64, max_accel: i64, final_velocity: i64) -> (r: i64)
    requires
        rotation_in_range(distance as int, final_velocity as int, max_accel as int),
    ensures
        r == arrival_velocity(distance as int, max_accel as int, final_velocity as int),
        abs(r as int) <= 200_000_000_000,
{
    let d: i128 = distance as i128;
    let a: i128 = max_accel as i128;
    let vf: i128 = final_velocity as i128;
    proof {
        lemma_mul_bound(a as int, d as int, MAX_MAGNITUDE as int, MAX_MAGNITUDE as int);
        lemma_mul_bound(vf as int, vf as int, MAX_MAGNITUDE as int, MAX_MAGNITUDE as int);
    }
    let vel_sqr: i128 = 2 * (a * d) - vf * vf;
    let mag: u128 = if vel_sqr < 0 { (-vel_sqr) as u128 } else { vel_sqr as u128 };
    let root: u64 = isqrt(mag);
    proof {
        lemma_sqrt_bound(root as int, mag as int, 200_000_000_000);
        assert(vel_sqr == 2 * max_accel * distance - final_velocity * final_velocity)
            by (nonlinear_arith)
            requires
                vel_sqr == 2 * (a * d) - vf * vf,
                a == max_accel,
                d == distance,
                vf == final_velocity,
        ;
        assert(mag == abs(vel_sqr as int));
        assert(root == floor_sqrt(abs(vel_sqr as int)));
    }
    if vel_sqr > 0 {
        root as i64
    } else if vel_sqr < 0 {
        -(root as i64)
    } else {
        0
    }
}

/// The arrival law holds up to the rounding of the square root: the final
/// velocity squared equals `2 a d - v0 |v0|` within `2 |v0|`, and `v0` takes
/// the sign of `2 a d - vf²`. Decelerating at `a` from `v0` through `d` thus
/// ends at `vf`.
pub proof fn lemma_arrival_velocity_reaches_final(d: int, a: int, vf: int)
    ensures
        abs(vf * vf - (2 * a * d - arrival_velocity(d, a, vf) * abs(arrival_velocity(d, a, vf))))
            <= 2 * abs(arrival_velocity(d, a, vf)),
        sign(arrival_velocity(d, a, vf)) == sign(2 * a * d - vf * vf),
{
    let q = 2 * a * d - vf * vf;
    let s = floor_sqrt(abs(q));
    crate::fixed::lemma_floor_sqrt_exists(abs(q));
    assert(is_floor_sqrt(s, abs(q)));
    let v0 = arrival_velocity(d, a, vf);
    assert(v0 == sign(q) * s);
    if q > 0 {
        assert(s >= 1) by (nonlinear_arith)
            requires
                q >= 1,
                q < (s + 1) * (s + 1),
                s >= 0,
        ;
        assert(v0 * abs(v0) == s * s);
    } else if q < 0 {
        assert(s >= 1) by (nonlinear_arith)
            requires
                -q >= 1,
                -q < (s + 1) * (s + 1),
                s >= 0,
        ;
        assert(v0 * abs(v0) == -(s * s)) by (nonlinear_arith)
            requires
                v0 == -s,
                s >= 1,
                abs(v0) == s,
        ;
    }
    assert(abs(q) - s * s <= 2 * s) by (nonlinear_arith)
        requires
            abs(q) < (s + 1) * (s + 1),
    ;
    if q > 0 {
        assert(abs(v0) == s);
        assert(vf * vf - (2 * a * d - v0 * abs(v0)) == -(abs(q) - s * s));
    } else if q < 0 {
        assert(abs(v0) == s);
        assert(vf * vf - (2 * a * d - v0 * abs(v0)) == abs(q) - s * s);
    } else {
        assert(s == 0) by (nonlinear_arith)
            requires
                s * s <= 0,
                s >= 0,
        ;
        assert(v0 == 0);
        assert(v0 * abs(v0) == 0);
    }
}

} // verus!
