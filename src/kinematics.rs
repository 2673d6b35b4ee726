//! Motion under constant jerk, as the host's integrator evolves it.
use crate::fixed::{
    abs, div_floor, lemma_mul_bound, MAX_MAGNITUDE, MAX_TIME, SCALE, TICKS_PER_SECOND,
};
use vstd::arithmetic::div_mod::{
    lemma_div_is_ordered, lemma_fundamental_div_mod, lemma_fundamental_div_mod_converse,
};
use vstd::prelude::*;

verus! {

/// Largest magnitude of a displacement that `delta_distance` returns.
pub const MAX_DISPLACEMENT: i64 = 18_000_000_000_000_000;

/// Displacement over `tn / td` seconds, multiplied by `120 * td³`.
///
/// The motion starts at velocity `v` under acceleration `a` and jerk `j`, and
/// the term `a * t * Δt / 2` corrects for the host applying each tick's
/// acceleration in one step (`Δt / 2 = 1 / 120` s):
/// `t * (v + a * t / 2 + j * t² / 6 + a * Δt / 2)`.
pub open spec fn displacement_numerator(tn: int, td: int, v: int, a: int, j: int) -> int {
    120 * td * td * tn * v + 60 * td * a * tn * tn + 20 * j * tn * tn * tn + a * tn * td * td
}

/// Displacement over `t` microseconds, in micrometres, rounded down.
pub open spec fn displacement(t: int, v: int, a: int, j: int) -> int {
    displacement_numerator(t, SCALE as int, v, a, j) / (120 * SCALE * SCALE * SCALE)
}

pub open spec fn kinematics_in_range(v: int, a: int, j: int) -> bool {
    abs(v) <= MAX_MAGNITUDE && abs(a) <= MAX_MAGNITUDE && abs(j) <= MAX_MAGNITUDE
}

/// Displacement along one axis after `time` microseconds, starting at
/// `inital_velocity` under constant `accel` and `jerk`, with the half-tick
/// correction for the host's integrator.
pub fn delta_distance(time: i64, inital_velocity: i64, accel: i64, jerk: i64) -> (r: i64)
    requires
        0 <= time <= MAX_TIME,
        kinematics_in_range(inital_velocity as int, accel as int, jerk as int),
    ensures
        r == displacement(time as int, inital_velocity as int, accel as int, jerk as int),
        abs(r as int) <= MAX_DISPLACEMENT,
{
    let t: i128 = time as i128;
    let v: i128 = inital_velocity as i128;
    let a: i128 = accel as i128;
    let j: i128 = jerk as i128;
    let s: i128 = SCALE as i128;
    let ghost m: int = MAX_MAGNITUDE as int;
    let ghost tm: int = MAX_TIME as int;
    proof {
        lemma_mul_bound(t as int, t as int, tm, tm);
    }
    let tt: i128 = t * t;
    proof {
        lemma_mul_bound(tt as int, t as int, tm * tm, tm);
    }
    let ttt: i128 = tt * t;
    let k1: i128 = 120 * s * s;
    proof {
        lemma_mul_bound(k1 as int, t as int, 120 * SCALE * SCALE, tm);
        lemma_mul_bound(60 * s, a as int, 60 * SCALE, m);
        lemma_mul_bound(s * s, a as int, SCALE * SCALE, m);
        lemma_mul_bound(k1 * t, v as int, 120 * SCALE * SCALE * tm, m);
        lemma_mul_bound(60 * s * a, tt as int, 60 * SCALE * m, tm * tm);
        lemma_mul_bound(20 * j, ttt as int, 20 * m, tm * tm * tm);
        lemma_mul_bound(s * s * a, t as int, SCALE * SCALE * m, tm);
    }
    let term1: i128 = (k1 * t) * v;
    let term2: i128 = (60 * s * a) * tt;
    let term3: i128 = (20 * j) * ttt;
    let term4: i128 = (s * s * a) * t;
    let n: i128 = term1 + term2 + term3 + term4;
    let d: i128 = 120 * s * s * s;
    proof {
        assert(n == displacement_numerator(t as int, SCALE as int, v as int, a as int, j as int))
            by (nonlinear_arith)
            requires
                s == SCALE,
                tt == t * t,
                ttt == tt * t,
                k1 == 120 * s * s,
                term1 == (k1 * t) * v,
                term2 == (60 * s * a) * tt,
                term3 == (20 * j) * ttt,
                term4 == (s * s * a) * t,
                n == term1 + term2 + term3 + term4,
        ;
        let bound: int = 2_100_000_000_000_000_000_000_000_000_000_000_000;
        lemma_div_is_ordered(-bound, n as int, d as int);
        lemma_div_is_ordered(n as int, bound, d as int);
        assert(bound / (d as int) == 17_500_000_000_000_000);
        assert((-bound) / (d as int) == -17_500_000_000_000_000);
    }
    div_floor(n, d) as i64
}

/// Displacement along one axis under constant acceleration alone: the jerk
/// argument is not used.
pub fn delta_distance_2(time: i64, initial_velocity: i64, accel: i64, jerk: i64) -> (r: i64)
    requires
        0 <= time <= MAX_TIME,
        kinematics_in_range(initial_velocity as int, accel as int, 0),
    ensures
        r == displacement(time as int, initial_velocity as int, accel as int, 0),
        abs(r as int) <= MAX_DISPLACEMENT,
{
    delta_distance(time, initial_velocity, accel, 0)
}

/// Longest simulation, in ticks, that `delta_distance_iterative` runs.
pub const MAX_TICKS: i32 = 6000;

/// State of the tick-by-tick simulation after `n` ticks, scaled by powers of
/// the tick rate so that it stays integral: `(216000 * position,
/// 3600 * velocity, 60 * acceleration)`. Each tick the velocity takes one
/// tick of acceleration, the position one tick of the new velocity, and the
/// acceleration one tick of jerk.
pub open spec fn simulated_state(n: nat, v: int, a: int, j: int) -> (int, int, int)
    decreases n,
{
    if n == 0 {
        (0, 3600 * v, 60 * a)
    } else {
        let prev = simulated_state((n - 1) as nat, v, a, j);
        (prev.0 + prev.1 + prev.2, prev.1 + prev.2, prev.2 + j)
    }
}

/// Displacement after `n` simulated ticks, in micrometres, rounded down.
pub open spec fn simulated_displacement(n: nat, v: int, a: int, j: int) -> int {
    simulated_state(n, v, a, j).0 / 216000
}

/// Displacement along one axis after `ticks` ticks of the host's own
/// integration, simulated tick by tick; no ticks (or a negative count) give
/// no displacement.
pub fn delta_distance_iterative(ticks: i32, velocity: i64, accel: i64, jerk: i64) -> (r: i64)
    requires
        ticks <= MAX_TICKS,
        kinematics_in_range(velocity as int, accel as int, jerk as int),
    ensures
        r == simulated_displacement(
            if ticks > 0 { ticks as nat } else { 0 },
            velocity as int,
            accel as int,
            jerk as int,
        ),
{
    let ghost total: nat = if ticks > 0 { ticks as nat } else { 0 };
    let mut remaining: i32 = ticks;
    let mut x: i128 = 0;
    let mut w: i128 = 3600 * (velocity as i128);
    let mut b: i128 = 60 * (accel as i128);
    let ghost mut k: nat = 0;
    while remaining > 0
        invariant
            kinematics_in_range(velocity as int, accel as int, jerk as int),
            total == (if ticks > 0 { ticks as nat } else { 0 }),
            total <= 6000,
            remaining > 0 ==> k + remaining == total,
            remaining <= 0 ==> k == total,
            (x as int, w as int, b as int) == simulated_state(k, velocity as int, accel as int, jerk as int),
            abs(b as int) <= (60 + k) * 100_000_000_000,
            abs(w as int) <= (3600 + 6060 * k) * 100_000_000_000,
            abs(x as int) <= k * 3_636_360_000_000_000_000,
        decreases remaining,
    {
        w = w + b;
        x = x + w;
        b = b + jerk as i128;
        remaining = remaining - 1;
        proof {
            k = k + 1;
        }
    }
    proof {
        let bound: int = 21_818_160_000_000_000_000_000int;
        lemma_div_is_ordered(-bound, x as int, 216000);
        lemma_div_is_ordered(x as int, bound, 216000);
    }
    div_floor(x, 216000) as i64
}

/// Closed form of the simulated state after `n` ticks.
pub proof fn lemma_simulated_closed_form(n: nat, v: int, a: int, j: int)
    ensures
        simulated_state(n, v, a, j).2 == 60 * a + n * j,
        2 * simulated_state(n, v, a, j).1 == 7200 * v + 120 * a * n + j * n * (n - 1),
        6 * simulated_state(n, v, a, j).0 == 21600 * v * n + 180 * a * n * (n + 1) + j * (n
            + 1) * n * (n - 1),
    decreases n,
{
    if n > 0 {
        let p = (n - 1) as nat;
        lemma_simulated_closed_form(p, v, a, j);
        let prev = simulated_state(p, v, a, j);
        let cur = simulated_state(n, v, a, j);
        assert(cur == (prev.0 + prev.1 + prev.2, prev.1 + prev.2, prev.2 + j));
        assert(cur.2 == 60 * a + n * j) by (nonlinear_arith)
            requires
                prev.2 == 60 * a + p * j,
                cur.2 == prev.2 + j,
                p == n - 1,
        ;
        assert(2 * cur.1 == 7200 * v + 120 * a * n + j * n * (n - 1)) by (nonlinear_arith)
            requires
                prev.2 == 60 * a + p * j,
                2 * prev.1 == 7200 * v + 120 * a * p + j * p * (p - 1),
                cur.1 == prev.1 + prev.2,
                p == n - 1,
        ;
        assert(6 * cur.0 == 21600 * v * n + 180 * a * n * (n + 1) + j * (n + 1) * n * (n - 1))
            by (nonlinear_arith)
            requires
                prev.2 == 60 * a + p * j,
                2 * prev.1 == 7200 * v + 120 * a * p + j * p * (p - 1),
                6 * prev.0 == 21600 * v * p + 180 * a * p * (p + 1) + j * (p + 1) * p * (p - 1),
                cur.0 == prev.0 + prev.1 + prev.2,
                p == n - 1,
        ;
    } else {
        let cur = simulated_state(n, v, a, j);
        assert(cur == (0int, 3600 * v, 60 * a));
        assert(n * j == 0 && j * n * (n - 1) == 0 && 21600 * v * n + 180 * a * n * (n + 1) + j * (n
            + 1) * n * (n - 1) == 0) by (nonlinear_arith)
            requires
                n == 0,
        ;
    }
}

/// Over `n` whole ticks the closed-form displacement exceeds the tick-by-tick
/// simulation by exactly `j * n * Δt³ / 6`: both sides below are those
/// displacements times `120 * 60³`. Without jerk the two agree exactly.
pub proof fn lemma_displacement_matches_simulation(n: nat, v: int, a: int, j: int)
    ensures
        displacement_numerator(n as int, TICKS_PER_SECOND as int, v, a, j) == 120
            * simulated_state(n, v, a, j).0 + 20 * j * n,
        j == 0 ==> displacement_numerator(n as int, TICKS_PER_SECOND as int, v, a, j) == 120
            * simulated_state(n, v, a, j).0,
{
    lemma_simulated_closed_form(n, v, a, j);
    let x = simulated_state(n, v, a, j).0;
    assert(displacement_numerator(n as int, 60, v, a, j) == 120 * x + 20 * j * n)
        by (nonlinear_arith)
        requires
            6 * x == 21600 * v * n + 180 * a * n * (n + 1) + j * (n + 1) * n * (n - 1),
            displacement_numerator(n as int, 60, v, a, j) == 120 * 60 * 60 * n * v + 60 * 60 * a
                * n * n + 20 * j * n * n * n + a * n * 60 * 60,
    ;
}

/// Two fractions with positive denominators that are equal as rationals
/// round down to the same integer.
proof fn lemma_equal_fractions_floor(a: int, c: int, b: int, d: int)
    requires
        c > 0,
        d > 0,
        a * d == b * c,
    ensures
        a / c == b / d,
{
    lemma_fundamental_div_mod(b, d);
    let q = b / d;
    let r = b % d;
    let s = a - q * c;
    assert(s * d == r * c) by (nonlinear_arith)
        requires
            a * d == b * c,
            b == d * q + r,
            s == a - q * c,
    ;
    assert(0 <= s < c) by (nonlinear_arith)
        requires
            s * d == r * c,
            0 <= r < d,
            c > 0,
            d > 0,
    ;
    lemma_fundamental_div_mod_converse(a, c, q, s);
}

/// Without jerk, over a number of ticks that is a multiple of three (a
/// whole number of microseconds, `50000 * m` for `3 * m` ticks), the
/// closed-form displacement and the tick-by-tick simulation agree exactly,
/// rounding included.
pub proof fn lemma_closed_form_equals_simulation(m: nat, v: int, a: int)
    ensures
        displacement(50000 * m as int, v, a, 0) == simulated_displacement(3 * m, v, a, 0),
{
    lemma_displacement_matches_simulation(3 * m, v, a, 0);
    let x = simulated_state(3 * m, v, a, 0).0;
    let n1 = displacement_numerator(50000 * m as int, SCALE as int, v, a, 0);
    let n2 = displacement_numerator(3 * m as int, 60, v, a, 0);
    assert(n2 == 120 * x);
    assert(27 * n1 == 125_000_000_000_000 * n2) by (nonlinear_arith)
        requires
            n1 == 120 * 1_000_000 * 1_000_000 * (50000 * m) * v + 60 * 1_000_000 * a * (50000
                * m) * (50000 * m) + 20 * 0 * (50000 * m) * (50000 * m) * (50000 * m) + a * (
            50000 * m) * 1_000_000 * 1_000_000,
            n2 == 120 * 60 * 60 * (3 * m) * v + 60 * 60 * a * (3 * m) * (3 * m) + 20 * 0 * (3
                * m) * (3 * m) * (3 * m) + a * (3 * m) * 60 * 60,
    ;
    assert(n1 * 216000 == x * 120_000_000_000_000_000_000);
    lemma_equal_fractions_floor(n1, 120_000_000_000_000_000_000, x, 216000);
}

} // verus!
