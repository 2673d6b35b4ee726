//! Fixed-point numbers and planar vectors.
//!
//! Every physical quantity is an `i64` count of millionths of its SI unit:
//! micrometres, micrometres per second, microradians and so on. A value `x`
//! therefore stands for the real number `x / SCALE`.
use vstd::arithmetic::div_mod::{lemma_fundamental_div_mod, lemma_fundamental_div_mod_converse};
use vstd::prelude::*;

verus! {

/// The fixed-point one: `SCALE` units make one SI unit.
pub const SCALE: i64 = 1_000_000;

/// Simulation ticks per second; a tick lasts `1 / TICKS_PER_SECOND` seconds.
pub const TICKS_PER_SECOND: i64 = 60;

/// Largest magnitude accepted for a position, velocity, acceleration or jerk
/// component (one hundred thousand SI units).
pub const MAX_MAGNITUDE: i64 = 100_000_000_000;

/// Longest elapsed time, in microseconds, that the kinematic model predicts over.
pub const MAX_TIME: i64 = 100_000_000;

/// Largest magnitude of a vector component that the library produces: a
/// position of `MAX_MAGNITUDE` plus the longest displacement the model yields.
pub const MAX_COORDINATE: i64 = 20_000_000_000_000_000;

pub open spec fn abs(x: int) -> int {
    if x < 0 {
        -x
    } else {
        x
    }
}

pub open spec fn sign(x: int) -> int {
    if x > 0 {
        1
    } else if x < 0 {
        -1
    } else {
        0
    }
}

pub open spec fn clamp(x: int, lo: int, hi: int) -> int {
    if x < lo {
        lo
    } else if x > hi {
        hi
    } else {
        x
    }
}

/// `r` is the integer square root of `n`, rounded down.
pub open spec fn is_floor_sqrt(r: int, n: int) -> bool {
    0 <= r && r * r <= n < (r + 1) * (r + 1)
}

/// The integer square root of a non-negative `n`, rounded down.
pub open spec fn floor_sqrt(n: int) -> int
    recommends
        n >= 0,
{
    choose|r: int| #[trigger] is_floor_sqrt(r, n)
}

pub proof fn lemma_floor_sqrt_exists(n: int)
    requires
        n >= 0,
    ensures
        exists|r: int| #[trigger] is_floor_sqrt(r, n),
    decreases n,
{
    if n == 0 {
        assert(is_floor_sqrt(0, 0));
    } else {
        lemma_floor_sqrt_exists(n - 1);
        let r = choose|r: int| #[trigger] is_floor_sqrt(r, n - 1);
        if (r + 1) * (r + 1) <= n {
            assert((r + 2) * (r + 2) > n) by (nonlinear_arith)
                requires
                    (r + 1) * (r + 1) == n,
                    r >= 0,
            ;
            assert(is_floor_sqrt(r + 1, n));
        } else {
            assert(is_floor_sqrt(r, n));
        }
    }
}

pub proof fn lemma_floor_sqrt_unique(r1: int, r2: int, n: int)
    requires
        is_floor_sqrt(r1, n),
        is_floor_sqrt(r2, n),
    ensures
        r1 == r2,
{
    if r1 < r2 {
        assert((r1 + 1) * (r1 + 1) <= r2 * r2) by (nonlinear_arith)
            requires
                0 <= r1 + 1 <= r2,
        ;
    } else if r2 < r1 {
        assert((r2 + 1) * (r2 + 1) <= r1 * r1) by (nonlinear_arith)
            requires
                0 <= r2 + 1 <= r1,
        ;
    }
}

/// Any rounded-down square root of `n` is `floor_sqrt(n)`.
pub proof fn lemma_floor_sqrt_is(r: int, n: int)
    requires
        is_floor_sqrt(r, n),
    ensures
        floor_sqrt(n) == r,
{
    lemma_floor_sqrt_exists(n);
    lemma_floor_sqrt_unique(floor_sqrt(n), r, n);
}

/// Division rounded towards negative infinity (the quotient of `/` in specs
/// for a positive divisor).
pub fn div_floor(n: i128, d: i128) -> (r: i128)
    requires
        d > 0,
        n > i128::MIN,
    ensures
        r == n / d,
{
    if n >= 0 {
        n / d
    } else {
        let m: i128 = -n - 1;
        let q: i128 = m / d;
        proof {
            let rem = m % d;
            lemma_fundamental_div_mod(m as int, d as int);
            assert(m == q * d + rem) by (nonlinear_arith)
                requires
                    m == d * q + rem,
            ;
            assert(n == (-q - 1) * d + (d - 1 - rem)) by (nonlinear_arith)
                requires
                    n == -m - 1,
                    m == q * d + rem,
            ;
            lemma_fundamental_div_mod_converse(n as int, d as int, -q - 1, d - 1 - rem);
        }
        -q - 1
    }
}

/// Integer square root, rounded down.
pub fn isqrt(n: u128) -> (r: u64)
    requires
        n < 0x1000_0000_0000_0000_0000_0000_0000_0000u128,
    ensures
        is_floor_sqrt(r as int, n as int),
        r == floor_sqrt(n as int),
{
    let mut lo: u128 = 0;
    let mut hi: u128 = 0x4000_0000_0000_0000;
    assert(hi * hi == 0x1000_0000_0000_0000_0000_0000_0000_0000u128);
    while hi - lo > 1
        invariant
            lo < hi <= 0x4000_0000_0000_0000,
            lo * lo <= n,
            n < hi * hi,
        decreases hi - lo,
    {
        let mid: u128 = lo + (hi - lo) / 2;
        assert(mid * mid <= 0x1000_0000_0000_0000_0000_0000_0000_0000u128) by (nonlinear_arith)
            requires
                mid <= 0x4000_0000_0000_0000u128,
        ;
        if mid * mid <= n {
            lo = mid;
        } else {
            hi = mid;
        }
    }
    proof {
        assert(hi == lo + 1);
        lemma_floor_sqrt_is(lo as int, n as int);
    }
    lo as u64
}

/// A planar vector of fixed-point components.
#[derive(Clone, Copy, Debug, PartialEq, Eq)]
pub struct Vec2 {
    pub x: i64,
    pub y: i64,
}

impl Vec2 {
    pub open spec fn length_squared_spec(self) -> int {
        self.x * self.x + self.y * self.y
    }

    /// Euclidean length, rounded down.
    pub open spec fn length_spec(self) -> int {
        floor_sqrt(self.length_squared_spec())
    }

    /// Both components lie within `bound` of zero.
    pub open spec fn bounded_by(self, bound: int) -> bool {
        abs(self.x as int) <= bound && abs(self.y as int) <= bound
    }

    pub fn new(x: i64, y: i64) -> (r: Vec2)
        ensures
            r.x == x,
            r.y == y,
    {
        Vec2 { x, y }
    }

    pub fn length_squared(&self) -> (r: u128)
        requires
            self.bounded_by(MAX_COORDINATE as int),
        ensures
            r == self.length_squared_spec(),
            r <= 2 * MAX_COORDINATE * MAX_COORDINATE,
    {
        let x: i128 = self.x as i128;
        let y: i128 = self.y as i128;
        proof {
            lemma_square_bound(x as int, MAX_COORDINATE as int);
            lemma_square_bound(y as int, MAX_COORDINATE as int);
        }
        (x * x + y * y) as u128
    }

    pub fn length(&self) -> (r: u64)
        requires
            self.bounded_by(MAX_COORDINATE as int),
        ensures
            r == self.length_spec(),
            is_floor_sqrt(r as int, self.length_squared_spec()),
            r <= 2 * MAX_COORDINATE,
    {
        let n = self.length_squared();
        let r = isqrt(n);
        proof {
            lemma_sqrt_bound(r as int, n as int, 2 * MAX_COORDINATE);
        }
        r
    }
}

pub proof fn lemma_square_bound(x: int, bound: int)
    requires
        abs(x) <= bound,
    ensures
        0 <= x * x <= bound * bound,
{
    assert(0 <= x * x <= bound * bound) by (nonlinear_arith)
        requires
            -bound <= x <= bound,
    ;
}

/// The rounded-down root of a number below `b * b` is below `b`.
pub proof fn lemma_sqrt_bound(r: int, n: int, b: int)
    requires
        is_floor_sqrt(r, n),
        n <= b * b,
        b >= 0,
    ensures
        r <= b,
{
    if r > b {
        assert(r * r > b * b) by (nonlinear_arith)
            requires
                r > b >= 0,
        ;
    }
}

/// `|x * y| <= bx * by` when `|x| <= bx` and `|y| <= by`.
pub proof fn lemma_mul_bound(x: int, y: int, bx: int, by: int)
    requires
        abs(x) <= bx,
        abs(y) <= by,
    ensures
        abs(x * y) <= bx * by,
{
    assert(abs(x * y) <= bx * by) by (nonlinear_arith)
        requires
            -bx <= x <= bx,
            -by <= y <= by,
            abs(x * y) == (if x * y < 0 { -(x * y) } else { x * y }),
    ;
}

/// A quotient rounded down by `d` of a dividend within `d * b` of zero is
/// within `b` of zero.
pub proof fn lemma_div_bounded(x: int, d: int, b: int)
    requires
        abs(x) <= d * b,
        d >= 1,
        b >= 0,
    ensures
        abs(x / d) <= b,
{
    lemma_fundamental_div_mod(x, d);
    let q = x / d;
    let r = x % d;
    if q > b {
        assert(d * q >= d * (b + 1)) by (nonlinear_arith)
            requires
                q >= b + 1,
                d >= 1,
        ;
        assert(d * (b + 1) == d * b + d) by (nonlinear_arith);
    } else if q < -b {
        assert(d * (q + 1) <= d * (-b)) by (nonlinear_arith)
            requires
                q + 1 <= -b,
                d >= 1,
        ;
        assert(d * (q + 1) == d * q + d) by (nonlinear_arith);
        assert(d * (-b) == -(d * b)) by (nonlinear_arith);
    }
}

} // verus!
