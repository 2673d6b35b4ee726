use oort_ai::fixed::{div_floor, isqrt, Vec2, SCALE};
use oort_ai::intercept::predict_intercept;
use oort_ai::kinematics::{delta_distance, delta_distance_2, delta_distance_iterative};
use oort_ai::turn::{
    get_optimal_arrival_velocity_v3, get_optimal_arrive_velocity, get_ttt, get_ttt_2,
};

const M: i64 = SCALE;

fn zero() -> Vec2 {
    Vec2::new(0, 0)
}

#[test]
fn displacement_at_constant_velocity() {
    assert_eq!(delta_distance(M, 10 * M, 0, 0), 10 * M);
    assert_eq!(delta_distance(0, 10 * M, 6 * M, 6 * M), 0);
}

#[test]
fn displacement_includes_half_tick_correction() {
    // 10 m/s for 1 s, plus 6 m/s² * 1 s² / 2, plus 6 m/s² * 1 s / 120.
    assert_eq!(delta_distance(M, 10 * M, 6 * M, 0), 13_050_000);
    // plus 6 m/s³ * 1 s³ / 6.
    assert_eq!(delta_distance(M, 10 * M, 6 * M, 6 * M), 14_050_000);
}

#[test]
fn displacement_rounds_down_when_negative() {
    // -1 µm/s for 0.5 s is -0.5 µm, rounded down to -1.
    assert_eq!(delta_distance(500_000, -1, 0, 0), -1);
}

#[test]
fn displacement_without_jerk_ignores_jerk_argument() {
    assert_eq!(delta_distance_2(M, 10 * M, 6 * M, 6 * M), 13_050_000);
    assert_eq!(delta_distance_2(M, 10 * M, 6 * M, 0), delta_distance(M, 10 * M, 6 * M, 0));
}

#[test]
fn simulation_matches_closed_form_without_jerk() {
    // 60 ticks are exactly one second.
    assert_eq!(delta_distance_iterative(60, 10 * M, 6 * M, 0), 13_050_000);
    for ticks in [3i32, 30, 60, 150, 300] {
        let t = ticks as i64 * M / 60;
        assert_eq!(
            delta_distance_iterative(ticks, -7 * M, 13 * M, 0),
            delta_distance(t, -7 * M, 13 * M, 0)
        );
    }
}

#[test]
fn simulation_differs_from_closed_form_by_jerk_term() {
    // The gap is j * n / 1296000 m: 6 * 60 / 1296000 m, about 278 µm.
    let sim = delta_distance_iterative(60, 10 * M, 6 * M, 6 * M);
    assert_eq!(sim, 14_049_722);
    assert_eq!(delta_distance(M, 10 * M, 6 * M, 6 * M) - sim, 278);
}

#[test]
fn simulation_stays_within_five_percent_over_five_seconds() {
    let cases = [(0i64, 50 * M, 0i64), (100 * M, -30 * M, 5 * M), (-20 * M, 80 * M, -40 * M)];
    for (v, a, j) in cases {
        let mut ticks: i32 = 0;
        while ticks <= 300 {
            if ticks % 3 == 0 {
                let t = ticks as i64 * M / 60;
                let closed = delta_distance(t, v, a, j) as f64;
                let sim = delta_distance_iterative(ticks, v, a, j) as f64;
                let denom = f64::max(1.0, sim.abs() / M as f64);
                assert!(((closed - sim) / M as f64).abs() / denom < 0.05);
            }
            ticks += 1;
        }
    }
}

#[test]
fn simulation_of_no_ticks_is_no_displacement() {
    assert_eq!(delta_distance_iterative(0, 10 * M, 6 * M, 6 * M), 0);
    assert_eq!(delta_distance_iterative(-5, 10 * M, 6 * M, 6 * M), 0);
}

#[test]
fn intercept_of_receding_target_at_constant_velocity() {
    let p = Vec2::new(1000 * M, 0);
    let v = Vec2::new(50 * M, 0);
    let x = predict_intercept(p, v, zero(), zero(), 1000 * M);
    // Analytic: t* = 1000 / 950 s, x* = 1052.63 m.
    let analytic = 1000.0 * 1000.0 / 950.0;
    let got = x.x as f64 / M as f64;
    assert!(((got - analytic) / analytic).abs() < 1e-3);
    assert_eq!(x, Vec2::new(1_052_631_250, 0));
}

#[test]
fn intercept_is_self_consistent() {
    let p = Vec2::new(1000 * M, 0);
    let v = Vec2::new(50 * M, 0);
    let x = predict_intercept(p, v, zero(), zero(), 1000 * M);
    let last_time = 1_052_625.0;
    let time_of_x = x.length() as f64 * M as f64 / (1000 * M) as f64;
    assert!(((time_of_x - last_time) / last_time).abs() < 1e-3);
}

#[test]
fn intercept_of_target_on_top_is_zero() {
    let v = Vec2::new(50 * M, 20 * M);
    assert_eq!(predict_intercept(zero(), v, zero(), zero(), 1000 * M), zero());
}

#[test]
fn intercept_of_crossing_target_leads_it() {
    let p = Vec2::new(1000 * M, 0);
    let v = Vec2::new(0, 100 * M);
    let x = predict_intercept(p, v, zero(), zero(), 1000 * M);
    assert_eq!(x.x, 1000 * M);
    // t* solves t = sqrt(1000² + (100 t)²) / 1000, about 1.005 s.
    assert!(x.y > 100 * M && x.y < 101 * M);
}

#[test]
fn arrival_velocity_for_positive_negative_and_zero_distance() {
    assert_eq!(get_optimal_arrive_velocity(M, 2 * M, 0), 2 * M);
    assert_eq!(get_optimal_arrive_velocity(-M, 2 * M, 0), -2 * M);
    assert_eq!(get_optimal_arrive_velocity(0, 2 * M, M), -M);
    assert_eq!(get_optimal_arrive_velocity(0, 2 * M, 0), 0);
    assert_eq!(get_optimal_arrive_velocity(M, 2 * M, M), 1_732_050);
}

#[test]
fn arrival_velocity_reaches_final_velocity() {
    for d in [-3 * M, -M, 0, 500_000, 2 * M] {
        for a in [M, 3 * M] {
            for vf in [-2 * M, 0, 700_000] {
                let v0 = get_optimal_arrive_velocity(d, a, vf) as i128;
                let lhs = (vf as i128) * (vf as i128);
                let rhs = 2 * (a as i128) * (d as i128) - v0 * v0.abs();
                assert!((lhs - rhs).abs() <= 2 * v0.abs());
            }
        }
    }
}

#[test]
fn time_to_turn_positive_root() {
    // d = t² + t / 60: t ≈ 0.9917 s.
    assert_eq!(get_ttt(M, 0, 2 * M), Some(991_701));
    assert_eq!(get_ttt(M, M, 2 * M), Some(613_452));
}

#[test]
fn time_to_turn_negative_discriminant_restores_sign() {
    assert_eq!(get_ttt(-M, 0, 2 * M), Some(-991_632));
}

#[test]
fn time_to_turn_at_zero_discriminant_is_double_root() {
    // 2.41 rad/s braking at 1.2 rad/s² covers 2.4 rad in exactly 2 s.
    assert_eq!(get_ttt(2_400_000, 2_410_000, -1_200_000), Some(2 * M));
    assert_eq!(get_ttt_2(2_400_000, 2_410_000, -1_200_000), Some(2 * M));
}

#[test]
fn second_time_to_turn_keeps_restored_sign() {
    assert_eq!(get_ttt_2(M, 0, 2 * M), Some(991_701));
    assert_eq!(get_ttt_2(-M, 0, 2 * M), Some(-991_632));
    assert_eq!(get_ttt_2(-M, 0, 2 * M), get_ttt(-M, 0, 2 * M));
    assert_eq!(get_ttt_2(M, M, 0), None);
}

#[test]
fn average_arrival_velocity_over_a_given_time() {
    // 10 m in 2 s braking at 3 m/s²: 5 - 3 - 0.025 m/s.
    assert_eq!(get_optimal_arrival_velocity_v3(10 * M, 2 * M, 3 * M), Some(1_975_000));
    assert_eq!(get_optimal_arrival_velocity_v3(10 * M, -2 * M, 3 * M), Some(-2_025_000));
    assert_eq!(get_optimal_arrival_velocity_v3(-5 * M, 500_000, 0), Some(-10 * M));
    assert_eq!(get_optimal_arrival_velocity_v3(10 * M, 0, 3 * M), None);
}

#[test]
fn time_to_turn_without_acceleration_is_none() {
    assert_eq!(get_ttt(M, M, 0), None);
}

#[test]
fn integer_square_root_rounds_down() {
    assert_eq!(isqrt(0), 0);
    assert_eq!(isqrt(15), 3);
    assert_eq!(isqrt(16), 4);
    assert_eq!(isqrt(1_000_000_000_000), 1_000_000);
    assert_eq!(Vec2::new(3, 4).length(), 5);
    assert_eq!(Vec2::new(3, 4).length_squared(), 25);
}

#[test]
fn floor_division_rounds_toward_negative_infinity() {
    assert_eq!(div_floor(7, 2), 3);
    assert_eq!(div_floor(-7, 2), -4);
    assert_eq!(div_floor(-6, 2), -3);
    assert_eq!(div_floor(0, 5), 0);
}
