//! Acceleration and jerk of a target, estimated from its successive velocity
//! samples by backward differences.
use crate::fixed::{abs, clamp, div_floor, Vec2, MAX_MAGNITUDE, SCALE, TICKS_PER_SECOND};
use vstd::arithmetic::div_mod::{lemma_div_is_ordered, lemma_div_multiples_vanish};
use vstd::prelude::*;

verus! {

/// Largest magnitude of a sampled position or velocity component, so that
/// differences of two samples stay in the kinematic model's range.
pub const MAX_SAMPLE: i64 = 50_000_000_000;

/// A difference taken to the representable range.
pub open spec fn saturate(x: int) -> int {
    clamp(x, -MAX_MAGNITUDE as int, MAX_MAGNITUDE as int)
}

/// Exponential smoothing: `old` moved toward `raw` by `weight / SCALE` of the
/// way, rounded down. A weight of `SCALE` takes `raw` as it is.
pub open spec fn blend(old: int, raw: int, weight: int) -> int {
    old + weight * (raw - old) / (SCALE as int)
}

/// The target's estimated motion for one tick.
#[derive(Clone, Copy, Debug, PartialEq, Eq)]
pub struct EstimatedMotion {
    /// Velocity of the target relative to the observer.
    pub velocity_delta: Vec2,
    pub acceleration: Vec2,
    pub jerk: Vec2,
}

/// What the estimator keeps between ticks.
#[derive(Clone, Copy, Debug, PartialEq, Eq)]
pub struct DerivativeEstimator {
    pub last_velocity: Vec2,
    pub last_acceleration: Vec2,
    pub last_jerk: Vec2,
    /// Samples seen so far, counted up to two: an acceleration needs one
    /// earlier sample and a jerk two.
    pub samples: u32,
    /// Smoothing weight, out of `SCALE`.
    pub weight: i64,
}

/// Estimated acceleration along one axis from velocity `v`.
pub open spec fn acceleration_estimate(e: DerivativeEstimator, last_v: int, last_a: int, v: int) -> int {
    if e.samples == 0 {
        0
    } else {
        blend(last_a, saturate((v - last_v) * TICKS_PER_SECOND), e.weight as int)
    }
}

/// Estimated jerk along one axis, from this tick's acceleration estimate `a`.
pub open spec fn jerk_estimate(e: DerivativeEstimator, last_a: int, last_j: int, a: int) -> int {
    if e.samples < 2 {
        0
    } else {
        blend(last_j, saturate((a - last_a) * TICKS_PER_SECOND), e.weight as int)
    }
}

/// The estimate for a tick whose target velocity is `v` and observer
/// velocity `own`.
pub open spec fn estimate(e: DerivativeEstimator, v: Vec2, own: Vec2) -> EstimatedMotion {
    let ax = acceleration_estimate(e, e.last_velocity.x as int, e.last_acceleration.x as int, v.x as int);
    let ay = acceleration_estimate(e, e.last_velocity.y as int, e.last_acceleration.y as int, v.y as int);
    EstimatedMotion {
        velocity_delta: Vec2 { x: (v.x - own.x) as i64, y: (v.y - own.y) as i64 },
        acceleration: Vec2 { x: ax as i64, y: ay as i64 },
        jerk: Vec2 {
            x: jerk_estimate(e, e.last_acceleration.x as int, e.last_jerk.x as int, ax) as i64,
            y: jerk_estimate(e, e.last_acceleration.y as int, e.last_jerk.y as int, ay) as i64,
        },
    }
}

/// The estimator after a tick with target velocity `v` that produced `m`.
pub open spec fn advanced(e: DerivativeEstimator, v: Vec2, m: EstimatedMotion) -> DerivativeEstimator {
    DerivativeEstimator {
        last_velocity: v,
        last_acceleration: m.acceleration,
        last_jerk: m.jerk,
        samples: if e.samples < 2 { (e.samples + 1) as u32 } else { 2 },
        weight: e.weight,
    }
}

/// A blend of two values in range stays between them.
proof fn lemma_blend_between(old: int, raw: int, weight: int)
    requires
        0 <= weight <= SCALE,
    ensures
        old <= raw ==> old <= blend(old, raw, weight) <= raw,
        raw <= old ==> raw <= blend(old, raw, weight) <= old,
{
    let d = raw - old;
    let s = SCALE as int;
    if d >= 0 {
        assert(0 <= weight * d <= s * d) by (nonlinear_arith)
            requires
                0 <= weight <= s,
                d >= 0,
        ;
        lemma_div_is_ordered(0, weight * d, s);
        lemma_div_is_ordered(weight * d, s * d, s);
        lemma_div_multiples_vanish(d, s);
    } else {
        assert(s * d <= weight * d <= 0) by (nonlinear_arith)
            requires
                0 <= weight <= s,
                d < 0,
        ;
        lemma_div_is_ordered(s * d, weight * d, s);
        lemma_div_is_ordered(weight * d, 0, s);
        lemma_div_multiples_vanish(d, s);
    }
}

impl DerivativeEstimator {
    pub open spec fn wf(self) -> bool {
        &&& self.last_velocity.bounded_by(MAX_SAMPLE as int)
        &&& self.last_acceleration.bounded_by(MAX_MAGNITUDE as int)
        &&& self.last_jerk.bounded_by(MAX_MAGNITUDE as int)
        &&& self.samples <= 2
        &&& 0 <= self.weight <= SCALE
    }

    /// The estimator before any sample.
    pub open spec fn with_weight_spec(weight: int) -> DerivativeEstimator {
        DerivativeEstimator {
            last_velocity: Vec2 { x: 0, y: 0 },
            last_acceleration: Vec2 { x: 0, y: 0 },
            last_jerk: Vec2 { x: 0, y: 0 },
            samples: 0,
            weight: weight as i64,
        }
    }

    /// An estimator that has seen no sample, smoothing with `weight` out of
    /// `SCALE` (`SCALE` for no smoothing).
    pub fn with_weight(weight: i64) -> (r: DerivativeEstimator)
        requires
            0 <= weight <= SCALE,
        ensures
            r == DerivativeEstimator::with_weight_spec(weight as int),
            r.wf(),
    {
        let zero = Vec2 { x: 0, y: 0 };
        DerivativeEstimator {
            last_velocity: zero,
            last_acceleration: zero,
            last_jerk: zero,
            samples: 0,
            weight,
        }
    }

    /// An estimator that has seen no sample and does not smooth.
    pub fn new() -> (r: DerivativeEstimator)
        ensures
            r == DerivativeEstimator::with_weight_spec(SCALE as int),
    {
        DerivativeEstimator::with_weight(SCALE)
    }

    fn blend_axis(&self, old: i64, raw: i64) -> (r: i64)
        requires
            self.wf(),
            abs(old as int) <= MAX_MAGNITUDE,
            abs(raw as int) <= MAX_MAGNITUDE,
        ensures
            r == blend(old as int, raw as int, self.weight as int),
            abs(r as int) <= MAX_MAGNITUDE,
    {
        proof {
            lemma_blend_between(old as int, raw as int, self.weight as int);
            assert(abs((self.weight as int) * (raw - old)) <= SCALE * (2 * MAX_MAGNITUDE))
                by (nonlinear_arith)
                requires
                    0 <= self.weight <= SCALE,
                    -2 * MAX_MAGNITUDE <= raw - old <= 2 * MAX_MAGNITUDE,
            ;
        }
        let step: i128 = div_floor((self.weight as i128) * ((raw as i128) - (old as i128)), 1_000_000);
        (old as i128 + step) as i64
    }

    fn saturate_difference(current: i64, previous: i64) -> (r: i64)
        requires
            abs(current as int) <= MAX_MAGNITUDE,
            abs(previous as int) <= MAX_MAGNITUDE,
        ensures
            r == saturate((current - previous) * TICKS_PER_SECOND),
    {
        let raw: i64 = (current - previous) * TICKS_PER_SECOND;
        if raw > MAX_MAGNITUDE {
            MAX_MAGNITUDE
        } else if raw < -MAX_MAGNITUDE {
            -MAX_MAGNITUDE
        } else {
            raw
        }
    }

    fn acceleration_axis(&self, last_v: i64, last_a: i64, v: i64) -> (r: i64)
        requires
            self.wf(),
            abs(last_v as int) <= MAX_SAMPLE,
            abs(last_a as int) <= MAX_MAGNITUDE,
            abs(v as int) <= MAX_SAMPLE,
        ensures
            r == acceleration_estimate(*self, last_v as int, last_a as int, v as int),
            abs(r as int) <= MAX_MAGNITUDE,
    {
        if self.samples == 0 {
            0
        } else {
            let raw = DerivativeEstimator::saturate_difference(v, last_v);
            self.blend_axis(last_a, raw)
        }
    }

    fn jerk_axis(&self, last_a: i64, last_j: i64, a: i64) -> (r: i64)
        requires
            self.wf(),
            abs(last_a as int) <= MAX_MAGNITUDE,
            abs(last_j as int) <= MAX_MAGNITUDE,
            abs(a as int) <= MAX_MAGNITUDE,
        ensures
            r == jerk_estimate(*self, last_a as int, last_j as int, a as int),
            abs(r as int) <= MAX_MAGNITUDE,
    {
        if self.samples < 2 {
            0
        } else {
            let raw = DerivativeEstimator::saturate_difference(a, last_a);
            self.blend_axis(last_j, raw)
        }
    }

    /// Takes this tick's target velocity `target_velocity` and observer
    /// velocity `own_velocity`, returns the estimated motion, and keeps what
    /// the next tick needs. Before the first and second earlier samples the
    /// acceleration and the jerk are zero.
    pub fn update(&mut self, target_velocity: Vec2, own_velocity: Vec2) -> (r: EstimatedMotion)
        requires
            old(self).wf(),
            target_velocity.bounded_by(MAX_SAMPLE as int),
            own_velocity.bounded_by(MAX_SAMPLE as int),
        ensures
            r == estimate(*old(self), target_velocity, own_velocity),
            *final(self) == advanced(*old(self), target_velocity, r),
            final(self).wf(),
            r.velocity_delta.bounded_by(MAX_MAGNITUDE as int),
            r.acceleration.bounded_by(MAX_MAGNITUDE as int),
            r.jerk.bounded_by(MAX_MAGNITUDE as int),
    {
        let ax = self.acceleration_axis(self.last_velocity.x, self.last_acceleration.x, target_velocity.x);
        let ay = self.acceleration_axis(self.last_velocity.y, self.last_acceleration.y, target_velocity.y);
        let jx = self.jerk_axis(self.last_acceleration.x, self.last_jerk.x, ax);
        let jy = self.jerk_axis(self.last_acceleration.y, self.last_jerk.y, ay);
        let motion = EstimatedMotion {
            velocity_delta: Vec2 {
                x: target_velocity.x - own_velocity.x,
                y: target_velocity.y - own_velocity.y,
            },
            acceleration: Vec2 { x: ax, y: ay },
            jerk: Vec2 { x: jx, y: jy },
        };
        self.last_velocity = target_velocity;
        self.last_acceleration = motion.acceleration;
        self.last_jerk = motion.jerk;
        if self.samples < 2 {
            self.samples = self.samples + 1;
        }
        motion
    }
}

} // verus!
