//! Targeting and attitude control for a simulated vehicle, in fixed-point
//! arithmetic.
//!
//! Each tick the vehicle estimates a target's acceleration and jerk from
//! successive samples (`estimator`), predicts where a projectile or the
//! vehicle itself would meet the target (`kinematics`, `intercept`), turns
//! toward that point under a minimum-time arrival law (`turn`, `control`),
//! and decides whether to fire and boost (`control`, `deflection`).
pub mod behavior;
pub mod control;
pub mod deflection;
pub mod estimator;
pub mod fixed;
pub mod intercept;
pub mod kinematics;
pub mod turn;
