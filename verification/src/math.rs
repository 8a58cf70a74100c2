//! Two-dimensional fixed-point geometry: vectors, angles, rectangles.
//!
//! Lengths are in milli-pixels, angles in microradians, times in microseconds.
//! Unit vectors are scaled by `UNIT` (1000), so a direction vector has
//! components in `[-UNIT, UNIT]`.

use vstd::prelude::*;

verus! {

/// Scale of unit vectors: a normalized vector has length about `UNIT`.
pub const UNIT: i64 = 1000;

/// Half a turn (pi) in microradians.
pub const HALF_TURN: i64 = 3_141_592;

/// A quarter turn (pi/2) in microradians.
pub const QUARTER_TURN: i64 = 1_570_796;

/// A full turn (two pi) in microradians.
pub const FULL_TURN: i64 = 6_283_184;

/// Coordinates of every simulated point stay inside this box; it is far
/// outside the playable world and only bounds the arithmetic.
pub const POS_LIMIT: i64 = 1_000_000_000;

/// Truncating division (round toward zero), the rounding that the engine
/// uses everywhere, stated over mathematical integers.
pub open spec fn div_trunc(a: int, b: int) -> int {
    if a >= 0 {
        a / b
    } else {
        -((-a) / b)
    }
}

/// `a * b / d` with truncation toward zero.
pub open spec fn spec_mul_div(a: int, b: int, d: int) -> int {
    div_trunc(a * b, d)
}

/// Computes `a * b / d` rounding toward zero, for magnitudes that stay
/// inside `i64`.
pub fn mul_div(a: i64, b: i64, d: i64) -> (r: i64)
    requires
        d > 0,
        a * b <= i64::MAX,
        -i64::MAX <= a * b,
    ensures
        r == spec_mul_div(a as int, b as int, d as int),
{
    let p: i64 = a * b;
    if p >= 0 {
        let q: u64 = (p as u64) / (d as u64);
        q as i64
    } else {
        let n: u64 = ((-p) as u64) / (d as u64);
        -(n as i64)
    }
}

/// Clamps both coordinates of a vector into `[-m, m]`. Points that are
/// already inside the box come back unchanged; the clamp is a defensive
/// floor, like a timer stopping at zero.
pub fn clamp_to_box(v: Vec2, m: i64) -> (r: Vec2)
    requires
        m >= 0,
    ensures
        r == spec_clamp_to_box(v, m as int),
        in_box(r, m as int),
        in_box(v, m as int) ==> r == v,
        r.x == if v.x < -m { -m as int } else if v.x > m { m as int } else { v.x as int },
        r.y == if v.y < -m { -m as int } else if v.y > m { m as int } else { v.y as int },
{
    Vec2 { x: clamp_i64(v.x, -m, m), y: clamp_i64(v.y, -m, m) }
}

/// Clamps `v` into `[lo, hi]`.
pub fn clamp_i64(v: i64, lo: i64, hi: i64) -> (r: i64)
    requires
        lo <= hi,
    ensures
        r == if v < lo { lo } else if v > hi { hi } else { v },
        lo <= r <= hi,
{
    if v < lo {
        lo
    } else if v > hi {
        hi
    } else {
        v
    }
}

/// Decrements a timer by `dt`, clamping at zero.
pub fn timer_sub(t: i64, dt: i64) -> (r: i64)
    requires
        t >= 0,
        dt >= 0,
    ensures
        r == if t - dt >= 0 { t - dt } else { 0 },
        0 <= r <= t,
{
    if t >= dt {
        t - dt
    } else {
        0
    }
}

/// Floor of the square root of a non-negative integer, as a recursive
/// definition.
pub open spec fn spec_isqrt(n: int) -> int
    decreases n,
{
    if n <= 0 {
        0
    } else {
        let r = spec_isqrt(n - 1);
        if (r + 1) * (r + 1) <= n {
            r + 1
        } else {
            r
        }
    }
}

/// The floor square root squeezes its argument between consecutive squares.
pub proof fn lemma_isqrt_bounds(n: int)
    requires
        n >= 0,
    ensures
        spec_isqrt(n) >= 0,
        spec_isqrt(n) * spec_isqrt(n) <= n,
        n < (spec_isqrt(n) + 1) * (spec_isqrt(n) + 1),
    decreases n,
{
    if n > 0 {
        lemma_isqrt_bounds(n - 1);
        let r = spec_isqrt(n - 1);
        if (r + 1) * (r + 1) <= n {
            assert(n < (r + 2) * (r + 2)) by (nonlinear_arith)
                requires r >= 0, n - 1 < (r + 1) * (r + 1);
        }
    }
}

/// Any value squeezed between the same consecutive squares is the floor
/// square root.
pub proof fn lemma_isqrt_unique(n: int, r: int)
    requires
        n >= 0,
        r >= 0,
        r * r <= n,
        n < (r + 1) * (r + 1),
    ensures
        r == spec_isqrt(n),
{
    lemma_isqrt_bounds(n);
    let s = spec_isqrt(n);
    assert(r == s) by (nonlinear_arith)
        requires
            r >= 0,
            s >= 0,
            r * r <= n,
            n < (r + 1) * (r + 1),
            s * s <= n,
            n < (s + 1) * (s + 1);
}

/// Floor of the square root of a non-negative 64-bit integer.
pub fn isqrt(n: i64) -> (r: i64)
    requires
        n >= 0,
    ensures
        r == spec_isqrt(n as int),
        0 <= r,
        r * r <= n,
        n < (r + 1) * (r + 1),
{
    if n >= 9_223_372_030_926_249_001 {
        // n is at least 3_037_000_499^2, the largest square that fits.
        assert(9_223_372_030_926_249_001 == 3_037_000_499i64 * 3_037_000_499) by (nonlinear_arith);
        assert((3_037_000_499i64 + 1) * (3_037_000_499i64 + 1) > i64::MAX) by (nonlinear_arith);
        proof {
            lemma_isqrt_unique(n as int, 3_037_000_499);
        }
        return 3_037_000_499;
    }
    let mut lo: i64 = 0;
    let mut hi: i64 = 3_037_000_500;
    assert(n < 3_037_000_500i64 * 3_037_000_500) by (nonlinear_arith)
        requires n <= i64::MAX;
    while lo + 1 < hi
        invariant
            0 <= lo < hi <= 3_037_000_500,
            lo * lo <= n,
            n < hi * hi,
        decreases hi - lo,
    {
        let mid: i64 = (((lo as u64) + (hi as u64)) / 2) as i64;
        assert(lo < mid < hi);
        assert(mid * mid <= 3_037_000_499i64 * 3_037_000_499 <= i64::MAX) by (nonlinear_arith)
            requires 0 < mid <= 3_037_000_499i64;
        if mid * mid <= n {
            lo = mid;
        } else {
            hi = mid;
        }
    }
    proof {
        lemma_isqrt_unique(n as int, lo as int);
    }
    lo
}

/// A point or direction in the plane, in milli-pixels.
#[derive(Clone, Copy, Debug, PartialEq, Eq, Structural)]
pub struct Vec2 {
    pub x: i64,
    pub y: i64,
}

/// True when both coordinates of `v` lie in `[-m, m]`.
pub open spec fn in_box(v: Vec2, m: int) -> bool {
    -m <= v.x <= m && -m <= v.y <= m
}

/// Builds a vector from its coordinates.
pub fn vec2(x: i64, y: i64) -> (r: Vec2)
    ensures
        r.x == x,
        r.y == y,
{
    Vec2 { x, y }
}

/// Component-wise sum.
pub fn vec2_add(a: Vec2, b: Vec2) -> (r: Vec2)
    requires
        -i64::MAX <= a.x + b.x <= i64::MAX,
        -i64::MAX <= a.y + b.y <= i64::MAX,
    ensures
        r.x == a.x + b.x,
        r.y == a.y + b.y,
{
    Vec2 { x: a.x + b.x, y: a.y + b.y }
}

/// Component-wise difference.
pub fn vec2_sub(a: Vec2, b: Vec2) -> (r: Vec2)
    requires
        -i64::MAX <= a.x - b.x <= i64::MAX,
        -i64::MAX <= a.y - b.y <= i64::MAX,
    ensures
        r.x == a.x - b.x,
        r.y == a.y - b.y,
{
    Vec2 { x: a.x - b.x, y: a.y - b.y }
}

/// Scales a vector by the ratio `num / den`, rounding toward zero.
pub fn vec2_scale(v: Vec2, num: i64, den: i64) -> (r: Vec2)
    requires
        den > 0,
        -i64::MAX <= v.x * num <= i64::MAX,
        -i64::MAX <= v.y * num <= i64::MAX,
    ensures
        r.x == spec_mul_div(v.x as int, num as int, den as int),
        r.y == spec_mul_div(v.y as int, num as int, den as int),
{
    Vec2 { x: mul_div(v.x, num, den), y: mul_div(v.y, num, den) }
}

/// Component-wise sum, for composing specifications.
pub open spec fn spec_vec2_add(a: Vec2, b: Vec2) -> Vec2 {
    Vec2 { x: (a.x + b.x) as i64, y: (a.y + b.y) as i64 }
}

/// Component-wise difference, for composing specifications.
pub open spec fn spec_vec2_sub(a: Vec2, b: Vec2) -> Vec2 {
    Vec2 { x: (a.x - b.x) as i64, y: (a.y - b.y) as i64 }
}

/// Scaling by a ratio, rounding toward zero, for composing specifications.
pub open spec fn spec_vec2_scale(v: Vec2, num: int, den: int) -> Vec2 {
    Vec2 {
        x: spec_mul_div(v.x as int, num, den) as i64,
        y: spec_mul_div(v.y as int, num, den) as i64,
    }
}

/// Both coordinates clamped into `[-m, m]`, for composing specifications.
pub open spec fn spec_clamp_to_box(v: Vec2, m: int) -> Vec2 {
    Vec2 {
        x: (if v.x < -m { -m } else if v.x > m { m } else { v.x as int }) as i64,
        y: (if v.y < -m { -m } else if v.y > m { m } else { v.y as int }) as i64,
    }
}

/// Squared distance between two points.
pub open spec fn spec_dist2(a: Vec2, b: Vec2) -> int {
    (a.x - b.x) * (a.x - b.x) + (a.y - b.y) * (a.y - b.y)
}

/// Two points are within (strictly closer than) distance `c` of each other.
pub open spec fn spec_near(a: Vec2, b: Vec2, c: int) -> bool {
    spec_dist2(a, b) < c * c
}

/// Squared distance does not depend on the order of its endpoints.
pub proof fn lemma_dist2_symm(a: Vec2, b: Vec2)
    ensures
        spec_dist2(a, b) == spec_dist2(b, a),
{
    assert((a.x - b.x) * (a.x - b.x) == (b.x - a.x) * (b.x - a.x)) by (nonlinear_arith);
    assert((a.y - b.y) * (a.y - b.y) == (b.y - a.y) * (b.y - a.y)) by (nonlinear_arith);
}

proof fn lemma_dist2_bounds(a: Vec2, b: Vec2)
    requires
        in_box(a, POS_LIMIT as int),
        in_box(b, POS_LIMIT as int),
    ensures
        0 <= spec_dist2(a, b) <= 8_000_000_000_000_000_000,
        (a.x - b.x) * (a.x - b.x) <= i64::MAX,
        (a.y - b.y) * (a.y - b.y) <= i64::MAX,
{
    let dx = a.x - b.x;
    let dy = a.y - b.y;
    assert(dx * dx <= 2_000_000_000 * 2_000_000_000 && dx * dx >= 0) by (nonlinear_arith)
        requires -2_000_000_000 <= dx <= 2_000_000_000;
    assert(dy * dy <= 2_000_000_000 * 2_000_000_000 && dy * dy >= 0) by (nonlinear_arith)
        requires -2_000_000_000 <= dy <= 2_000_000_000;
}

/// Squared distance between two in-box points.
pub fn dist2(a: Vec2, b: Vec2) -> (r: i64)
    requires
        in_box(a, POS_LIMIT as int),
        in_box(b, POS_LIMIT as int),
    ensures
        r == spec_dist2(a, b),
        0 <= r <= 8_000_000_000_000_000_000,
{
    proof {
        lemma_dist2_bounds(a, b);
    }
    let dx: i64 = a.x - b.x;
    let dy: i64 = a.y - b.y;
    dx * dx + dy * dy
}

/// Decides `spec_near(a, b, c)`: are `a` and `b` strictly closer than `c`?
pub fn within(a: Vec2, b: Vec2, c: i64) -> (r: bool)
    requires
        in_box(a, POS_LIMIT as int),
        in_box(b, POS_LIMIT as int),
        0 <= c <= 3_000_000_000,
    ensures
        r == spec_near(a, b, c as int),
{
    proof {
        assert(c * c <= 3_000_000_000i64 * 3_000_000_000 <= i64::MAX) by (nonlinear_arith)
            requires 0 <= c <= 3_000_000_000i64;
    }
    dist2(a, b) < c * c
}

/// Decides whether `v` is strictly longer than `c`, for vectors that may be
/// too large for a direct squared-distance computation.
pub fn vec2_longer_than(v: Vec2, c: i64) -> (r: bool)
    requires
        in_box(v, 2_000_000_000),
        0 <= c <= 1_000_000,
    ensures
        r == (spec_dist2(v, Vec2 { x: 0, y: 0 }) > c * c),
{
    if v.x > 1_000_000 || v.x < -1_000_000 || v.y > 1_000_000 || v.y < -1_000_000 {
        proof {
            assert(spec_dist2(v, Vec2 { x: 0, y: 0 }) > c * c) by (nonlinear_arith)
                requires
                    v.x > 1_000_000 || v.x < -1_000_000 || v.y > 1_000_000 || v.y < -1_000_000,
                    -2_000_000_000 <= v.x <= 2_000_000_000,
                    -2_000_000_000 <= v.y <= 2_000_000_000,
                    0 <= c <= 1_000_000;
        }
        true
    } else {
        proof {
            assert(c * c <= 1_000_000_000_000) by (nonlinear_arith)
                requires 0 <= c <= 1_000_000i64;
        }
        dist2(v, Vec2 { x: 0, y: 0 }) > c * c
    }
}

/// Length of a vector, rounded down.
pub fn vec2_length(v: Vec2) -> (r: i64)
    requires
        in_box(v, POS_LIMIT as int),
    ensures
        r == spec_isqrt(v.x * v.x + v.y * v.y),
        0 <= r,
        r * r <= v.x * v.x + v.y * v.y,
        v.x * v.x + v.y * v.y < (r + 1) * (r + 1),
{
    proof {
        lemma_dist2_bounds(v, Vec2 { x: 0, y: 0 });
    }
    let n: i64 = v.x * v.x + v.y * v.y;
    isqrt(n)
}

/// Distance between two points, rounded down.
pub fn vec2_distance(a: Vec2, b: Vec2) -> (r: i64)
    requires
        in_box(a, POS_LIMIT as int),
        in_box(b, POS_LIMIT as int),
    ensures
        r == spec_isqrt(spec_dist2(a, b)),
        0 <= r,
        r * r <= spec_dist2(a, b),
        spec_dist2(a, b) < (r + 1) * (r + 1),
{
    let n: i64 = dist2(a, b);
    isqrt(n)
}

/// Square of `HALF_TURN`, used by the sine approximation.
pub const HALF_TURN_SQ: i64 = HALF_TURN * HALF_TURN;

/// Normalizes an angle into `[0, FULL_TURN)`.
pub fn wrap_angle(a: i64) -> (r: i64)
    requires
        a > i64::MIN,
    ensures
        0 <= r < FULL_TURN,
        r == (a as int) % (FULL_TURN as int),
{
    if a >= 0 {
        let m: i64 = ((a as u64) % (FULL_TURN as u64)) as i64;
        m
    } else {
        let n: i64 = -a;
        let m: i64 = ((n as u64) % (FULL_TURN as u64)) as i64;
        proof {
            let f = FULL_TURN as int;
            vstd::arithmetic::div_mod::lemma_fundamental_div_mod(n as int, f);
            let q = (n as int) / f;
            if m == 0 {
                vstd::arithmetic::div_mod::lemma_fundamental_div_mod_converse(
                    a as int, f, -q, 0);
            } else {
                vstd::arithmetic::div_mod::lemma_fundamental_div_mod_converse(
                    a as int, f, -q - 1, f - m);
            }
        }
        if m == 0 {
            0
        } else {
            FULL_TURN - m
        }
    }
}

/// The wrapped signed difference from `from` to `to`, in
/// `[-HALF_TURN, HALF_TURN)`.
pub open spec fn spec_angle_delta(from: int, to: int) -> int {
    (to - from + HALF_TURN) % (FULL_TURN as int) - HALF_TURN
}

/// Signed shortest rotation from `from` to `to`.
pub fn signed_angle_delta(from: i64, to: i64) -> (r: i64)
    requires
        0 <= from < FULL_TURN,
        0 <= to < FULL_TURN,
    ensures
        -HALF_TURN <= r < HALF_TURN,
        r == spec_angle_delta(from as int, to as int),
{
    let w: i64 = wrap_angle(to - from + HALF_TURN);
    w - HALF_TURN
}

/// Absolute shortest rotation between two angles, in `[0, HALF_TURN]`.
pub open spec fn spec_angle_difference(a: int, b: int) -> int {
    let d = spec_angle_delta(a, b);
    if d < 0 {
        -d
    } else {
        d
    }
}

/// Absolute angular difference between two wrapped angles.
pub fn angle_difference(a: i64, b: i64) -> (r: i64)
    requires
        0 <= a < FULL_TURN,
        0 <= b < FULL_TURN,
    ensures
        0 <= r <= HALF_TURN,
        r == spec_angle_difference(a as int, b as int),
{
    let d: i64 = signed_angle_delta(a, b);
    if d < 0 {
        -d
    } else {
        d
    }
}

/// Where `rotate_towards` lands: the target once the remaining difference
/// fits under `max_delta`, else one step of `max_delta` toward it.
pub open spec fn spec_rotate_towards(cur: int, target: int, max_delta: int) -> int {
    let d = spec_angle_delta(cur, target);
    if -max_delta <= d <= max_delta {
        target
    } else if d >= 0 {
        (cur + max_delta) % (FULL_TURN as int)
    } else {
        (cur - max_delta) % (FULL_TURN as int)
    }
}

/// Rotates `cur` toward `target` by at most `max_delta`, wrapping the result.
pub fn rotate_towards(cur: i64, target: i64, max_delta: i64) -> (r: i64)
    requires
        0 <= cur < FULL_TURN,
        0 <= target < FULL_TURN,
        0 <= max_delta <= 1_000_000_000,
    ensures
        0 <= r < FULL_TURN,
        r == spec_rotate_towards(cur as int, target as int, max_delta as int),
{
    let d: i64 = signed_angle_delta(cur, target);
    if -max_delta <= d && d <= max_delta {
        target
    } else if d >= 0 {
        wrap_angle(cur + max_delta)
    } else {
        wrap_angle(cur - max_delta)
    }
}

/// Sine on `[0, HALF_TURN]`: the rational approximation the engine
/// computes, stated over the integers.
pub open spec fn spec_sin_half(x: int) -> int {
    let t = x * (HALF_TURN - x);
    (16000 * t) / (5 * HALF_TURN_SQ - 4 * t)
}

/// Sine of a wrapped angle, scaled by `UNIT`.
pub open spec fn spec_sin_milli(a: int) -> int {
    if a <= HALF_TURN {
        spec_sin_half(a)
    } else {
        -spec_sin_half(a - HALF_TURN)
    }
}

/// Cosine of a wrapped angle, scaled by `UNIT`.
pub open spec fn spec_cos_milli(a: int) -> int {
    spec_sin_milli((a + QUARTER_TURN) % (FULL_TURN as int))
}

/// The unit direction vector of a wrapped angle, scaled by `UNIT`.
pub open spec fn spec_vec2_from_angle(a: int) -> Vec2 {
    Vec2 { x: spec_cos_milli(a) as i64, y: spec_sin_milli(a) as i64 }
}

/// Sine on `[0, HALF_TURN]` by a rational approximation, scaled by `UNIT`.
fn sin_half(x: i64) -> (r: i64)
    requires
        0 <= x <= HALF_TURN,
    ensures
        r == spec_sin_half(x as int),
        0 <= r <= UNIT,
        x == 0 ==> r == 0,
        x == HALF_TURN ==> r == 0,
{
    proof {
        assert(x * (HALF_TURN - x) >= 0 && 4 * (x * (HALF_TURN - x)) <= HALF_TURN_SQ)
            by (nonlinear_arith)
            requires 0 <= x <= HALF_TURN, HALF_TURN_SQ == HALF_TURN * HALF_TURN;
    }
    let t: i64 = x * (HALF_TURN - x);
    let num: i64 = 16000 * t;
    let den: i64 = 5 * HALF_TURN_SQ - 4 * t;
    let r: i64 = ((num as u64) / (den as u64)) as i64;
    proof {
        let n = num as int;
        let d = den as int;
        assert(n <= UNIT * d) by (nonlinear_arith)
            requires
                n == 16000 * (t as int),
                d == 5 * HALF_TURN_SQ - 4 * (t as int),
                4 * (t as int) <= HALF_TURN_SQ,
                UNIT == 1000;
        vstd::arithmetic::div_mod::lemma_div_is_ordered(n, UNIT * d, d);
        vstd::arithmetic::div_mod::lemma_div_by_multiple(UNIT as int, d);
    }
    r
}

/// Sine of a wrapped angle, scaled by `UNIT`.
pub fn sin_milli(a: i64) -> (r: i64)
    requires
        0 <= a < FULL_TURN,
    ensures
        r == spec_sin_milli(a as int),
        -UNIT <= r <= UNIT,
        0 <= a <= HALF_TURN ==> r >= 0,
        HALF_TURN <= a ==> r <= 0,
        a == 0 ==> r == 0,
{
    if a <= HALF_TURN {
        sin_half(a)
    } else {
        -sin_half(a - HALF_TURN)
    }
}

/// Cosine of a wrapped angle, scaled by `UNIT`.
pub fn cos_milli(a: i64) -> (r: i64)
    requires
        0 <= a < FULL_TURN,
    ensures
        r == spec_cos_milli(a as int),
        -UNIT <= r <= UNIT,
{
    sin_milli(wrap_angle(a + QUARTER_TURN))
}

/// Unit direction vector (scaled by `UNIT`) of a wrapped angle.
pub fn vec2_from_angle(a: i64) -> (r: Vec2)
    requires
        0 <= a < FULL_TURN,
    ensures
        r == spec_vec2_from_angle(a as int),
        in_box(r, UNIT as int),
{
    Vec2 { x: cos_milli(a), y: sin_milli(a) }
}

/// Arc tangent of `p / q` on the first octant: the polynomial
/// approximation the engine computes, stated over the integers.
pub open spec fn spec_atan_frac(p: int, q: int) -> int {
    let z = (p * 1000) / q;
    (z * 785_398 + 273 * (z * (1000 - z))) / 1000
}

/// Polar angle of a vector, wrapped into `[0, FULL_TURN)`; the zero vector
/// maps to angle zero.
pub open spec fn spec_vec2_angle(v: Vec2) -> int {
    if v.x == 0 && v.y == 0 {
        0
    } else {
        let ax = if v.x < 0 { -v.x as int } else { v.x as int };
        let ay = if v.y < 0 { -v.y as int } else { v.y as int };
        let base = if ay <= ax {
            spec_atan_frac(ay, ax)
        } else {
            QUARTER_TURN - spec_atan_frac(ax, ay)
        };
        let signed = if v.x >= 0 && v.y >= 0 {
            base
        } else if v.x < 0 && v.y >= 0 {
            HALF_TURN - base
        } else if v.x < 0 {
            HALF_TURN + base
        } else {
            -base
        };
        signed % (FULL_TURN as int)
    }
}

/// Arc tangent of `p / q` for `0 <= p <= q`, in microradians.
fn atan_frac(p: i64, q: i64) -> (r: i64)
    requires
        0 <= p <= q,
        0 < q <= 4_000_000_000,
    ensures
        r == spec_atan_frac(p as int, q as int),
        0 <= r <= 785_398,
        p == 0 ==> r == 0,
{
    let z: i64 = mul_div(p, 1000, q);
    proof {
        vstd::arithmetic::div_mod::lemma_div_is_ordered(
            (p as int) * 1000, (q as int) * 1000, q as int);
        vstd::arithmetic::div_mod::lemma_div_by_multiple(1000, q as int);
        assert((p as int) * 1000 <= (q as int) * 1000) by (nonlinear_arith)
            requires p <= q;
        assert((p as int) * 1000 >= 0) by (nonlinear_arith)
            requires p >= 0;
        vstd::arithmetic::div_mod::lemma_div_pos_is_pos((p as int) * 1000, q as int);
    }
    assert(0 <= z <= 1000);
    proof {
        assert(0 <= (z as int) * (1000 - z as int) <= 250_000) by (nonlinear_arith)
            requires 0 <= z <= 1000;
        assert((z as int) * 785_398 + 273 * ((z as int) * (1000 - z as int))
            <= 785_398_000) by (nonlinear_arith)
            requires 0 <= z <= 1000;
        assert((z as int) * 785_398 >= 0) by (nonlinear_arith)
            requires 0 <= z;
    }
    let num: i64 = z * 785_398 + 273 * (z * (1000 - z));
    let r: i64 = ((num as u64) / 1000) as i64;
    proof {
        vstd::arithmetic::div_mod::lemma_div_is_ordered(num as int, 785_398_000, 1000);
    }
    r
}

/// Polar angle of a vector, wrapped into `[0, FULL_TURN)`; the zero vector
/// maps to angle zero.
pub fn vec2_angle(v: Vec2) -> (r: i64)
    requires
        in_box(v, 2_000_000_000),
    ensures
        r == spec_vec2_angle(v),
        0 <= r < FULL_TURN,
        v.x > 0 && v.y == 0 ==> r == 0,
        v.y >= 0 ==> r <= HALF_TURN,
{
    if v.x == 0 && v.y == 0 {
        return 0;
    }
    let ax: i64 = if v.x < 0 { -v.x } else { v.x };
    let ay: i64 = if v.y < 0 { -v.y } else { v.y };
    let base: i64 = if ay <= ax {
        atan_frac(ay, ax)
    } else {
        QUARTER_TURN - atan_frac(ax, ay)
    };
    let signed: i64 = if v.x >= 0 && v.y >= 0 {
        base
    } else if v.x < 0 && v.y >= 0 {
        HALF_TURN - base
    } else if v.x < 0 {
        HALF_TURN + base
    } else {
        -base
    };
    wrap_angle(signed)
}

/// Converts a wrapped angle in microradians to milli-degrees.
pub fn urad_to_millideg(a: i64) -> (r: i64)
    requires
        0 <= a < FULL_TURN,
    ensures
        r == spec_mul_div(a as int, 180_000, HALF_TURN as int),
        0 <= r < 360_000,
{
    proof {
        vstd::arithmetic::div_mod::lemma_div_is_ordered(
            0, (a as int) * 180_000, HALF_TURN as int);
        assert((a as int) * 180_000 >= 0) by (nonlinear_arith)
            requires a >= 0;
        assert((a as int) * 180_000 < 360_000 * (HALF_TURN as int)) by (nonlinear_arith)
            requires a < FULL_TURN, FULL_TURN == 2 * HALF_TURN;
        vstd::arithmetic::div_mod::lemma_div_is_ordered(
            (a as int) * 180_000, 360_000 * (HALF_TURN as int) - 1, HALF_TURN as int);
        vstd::arithmetic::div_mod::lemma_div_pos_is_pos((a as int) * 180_000, HALF_TURN as int);
        assert((360_000 * (HALF_TURN as int) - 1) / (HALF_TURN as int) == 359_999) by {
            vstd::arithmetic::div_mod::lemma_fundamental_div_mod_converse(
                360_000 * (HALF_TURN as int) - 1, HALF_TURN as int, 359_999,
                HALF_TURN as int - 1);
        }
    }
    mul_div(a, 180_000, HALF_TURN)
}

/// Scaling a nonzero vector to length about `UNIT`: each coordinate times
/// `UNIT`, divided by the floor length; the zero vector stays zero.
pub open spec fn spec_vec2_normalize(v: Vec2) -> Vec2 {
    if v.x == 0 && v.y == 0 {
        Vec2 { x: 0, y: 0 }
    } else {
        let len = spec_isqrt(v.x * v.x + v.y * v.y);
        Vec2 {
            x: div_trunc(v.x * 1000, len) as i64,
            y: div_trunc(v.y * 1000, len) as i64,
        }
    }
}

/// Scales a nonzero vector to length about `UNIT`, keeping its direction;
/// the zero vector stays zero.
pub fn vec2_normalize(v: Vec2) -> (r: Vec2)
    requires
        in_box(v, 2_000_000_000),
    ensures
        r == spec_vec2_normalize(v),
        in_box(r, UNIT as int),
        v.x == 0 && v.y == 0 ==> r.x == 0 && r.y == 0,
        v.x >= 0 ==> r.x >= 0,
        v.x <= 0 ==> r.x <= 0,
        v.y >= 0 ==> r.y >= 0,
        v.y <= 0 ==> r.y <= 0,
{
    if v.x == 0 && v.y == 0 {
        return Vec2 { x: 0, y: 0 };
    }
    proof {
        assert(v.x * v.x >= 0 && v.x * v.x <= 4_000_000_000_000_000_000) by (nonlinear_arith)
            requires -2_000_000_000 <= v.x <= 2_000_000_000;
        assert(v.y * v.y >= 0 && v.y * v.y <= 4_000_000_000_000_000_000) by (nonlinear_arith)
            requires -2_000_000_000 <= v.y <= 2_000_000_000;
    }
    let n: i64 = v.x * v.x + v.y * v.y;
    let len: i64 = isqrt(n);
    proof {
        // Each coordinate's magnitude is at most the floor length.
        lemma_abs_le_isqrt(v.x as int, v.y as int, len as int);
        lemma_abs_le_isqrt(v.y as int, v.x as int, len as int);
    }
    assert(len >= 1);
    let rx: i64 = mul_div(v.x, 1000, len);
    let ry: i64 = mul_div(v.y, 1000, len);
    proof {
        lemma_scaled_component_bounded(v.x as int, len as int);
        lemma_scaled_component_bounded(v.y as int, len as int);
    }
    Vec2 { x: rx, y: ry }
}

/// An axis-aligned rectangle in milli-pixels.
#[derive(Clone, Copy, Debug, PartialEq, Eq, Structural)]
pub struct Rect {
    pub x: i64,
    pub y: i64,
    pub w: i64,
    pub h: i64,
}

/// A rectangle with non-negative extent whose corners lie in `[-m, m]`.
pub open spec fn rect_wf(r: Rect, m: int) -> bool {
    &&& r.w >= 0
    &&& r.h >= 0
    &&& -m <= r.x
    &&& r.x + r.w <= m
    &&& -m <= r.y
    &&& r.y + r.h <= m
}

/// The rectangle grown by `m` on every side.
pub open spec fn spec_rect_inflate(r: Rect, m: int) -> Rect {
    Rect {
        x: (r.x - m) as i64,
        y: (r.y - m) as i64,
        w: (r.w + 2 * m) as i64,
        h: (r.h + 2 * m) as i64,
    }
}

/// Grows a rectangle by `m` on every side.
pub fn rect_inflate(r: &Rect, m: i64) -> (out: Rect)
    requires
        0 <= m <= 1_000_000,
        rect_wf(*r, 900_000_000),
    ensures
        out == spec_rect_inflate(*r, m as int),
        rect_wf(out, POS_LIMIT as int),
{
    Rect { x: r.x - m, y: r.y - m, w: r.w + 2 * m, h: r.h + 2 * m }
}

/// A point lies in the rectangle, boundary included.
pub open spec fn spec_rect_contains(r: Rect, p: Vec2) -> bool {
    r.x <= p.x <= r.x + r.w && r.y <= p.y <= r.y + r.h
}

/// Decides whether `p` lies in `r`, boundary included.
pub fn rect_contains(r: &Rect, p: Vec2) -> (b: bool)
    requires
        rect_wf(*r, POS_LIMIT as int),
        in_box(p, POS_LIMIT as int),
    ensures
        b == spec_rect_contains(*r, p),
{
    p.x >= r.x && p.x <= r.x + r.w && p.y >= r.y && p.y <= r.y + r.h
}

/// Whether a point lies inside the given bounds rectangle.
pub fn point_in_bounds(pos: Vec2, bounds: &Rect) -> (b: bool)
    requires
        rect_wf(*bounds, POS_LIMIT as int),
        in_box(pos, POS_LIMIT as int),
    ensures
        b == spec_rect_contains(*bounds, pos),
{
    rect_contains(bounds, pos)
}

/// Where `push_outside_rect` sends a point: unchanged when outside the
/// rectangle, else moved past the nearest edge by `margin`.
pub open spec fn spec_push_outside_rect(pos: Vec2, rect: Rect, margin: int) -> Vec2 {
    if !spec_rect_contains(rect, pos) {
        pos
    } else {
        let dl = pos.x - rect.x;
        let dr = rect.x + rect.w - pos.x;
        let dt = pos.y - rect.y;
        let db = rect.y + rect.h - pos.y;
        if dl <= dr && dl <= dt && dl <= db {
            Vec2 { x: (rect.x - margin) as i64, y: pos.y }
        } else if dr <= dt && dr <= db {
            Vec2 { x: (rect.x + rect.w + margin) as i64, y: pos.y }
        } else if dt <= db {
            Vec2 { x: pos.x, y: (rect.y - margin) as i64 }
        } else {
            Vec2 { x: pos.x, y: (rect.y + rect.h + margin) as i64 }
        }
    }
}

/// Ejects a point from a rectangle through the nearest of its four edges,
/// leaving it `margin` beyond that edge; points already outside are unmoved.
pub fn push_outside_rect(pos: Vec2, rect: Rect, margin: i64) -> (r: Vec2)
    requires
        margin >= 0,
        rect_wf(rect, POS_LIMIT - margin as int),
        in_box(pos, POS_LIMIT as int),
    ensures
        r == spec_push_outside_rect(pos, rect, margin as int),
        in_box(r, POS_LIMIT as int),
        margin > 0 ==> !spec_rect_contains(rect, r),
{
    if !rect_contains(&rect, pos) {
        return pos;
    }
    let dl: i64 = pos.x - rect.x;
    let dr: i64 = rect.x + rect.w - pos.x;
    let dt: i64 = pos.y - rect.y;
    let db: i64 = rect.y + rect.h - pos.y;
    if dl <= dr && dl <= dt && dl <= db {
        Vec2 { x: rect.x - margin, y: pos.y }
    } else if dr <= dt && dr <= db {
        Vec2 { x: rect.x + rect.w + margin, y: pos.y }
    } else if dt <= db {
        Vec2 { x: pos.x, y: rect.y - margin }
    } else {
        Vec2 { x: pos.x, y: rect.y + rect.h + margin }
    }
}

/// If `len` is the floor square root of `a*a + b*b`, then `|a| <= len`.
proof fn lemma_abs_le_isqrt(a: int, b: int, len: int)
    requires
        len >= 0,
        a * a + b * b < (len + 1) * (len + 1),
    ensures
        -len <= a <= len,
{
    assert(-len <= a <= len) by (nonlinear_arith)
        requires len >= 0, a * a + b * b < (len + 1) * (len + 1);
}

/// `x * 1000 / len` stays within `[-1000, 1000]` and keeps the sign of `x`
/// when `|x| <= len`.
proof fn lemma_scaled_component_bounded(x: int, len: int)
    requires
        len >= 1,
        -len <= x <= len,
    ensures
        -1000 <= spec_mul_div(x, 1000, len) <= 1000,
        x >= 0 ==> spec_mul_div(x, 1000, len) >= 0,
        x <= 0 ==> spec_mul_div(x, 1000, len) <= 0,
{
    if x >= 0 {
        assert(x * 1000 <= len * 1000) by (nonlinear_arith)
            requires x <= len;
        assert(x * 1000 >= 0) by (nonlinear_arith)
            requires x >= 0;
        vstd::arithmetic::div_mod::lemma_div_is_ordered(x * 1000, len * 1000, len);
        vstd::arithmetic::div_mod::lemma_div_by_multiple(1000, len);
        vstd::arithmetic::div_mod::lemma_div_pos_is_pos(x * 1000, len);
    } else {
        let y = -x;
        assert(y * 1000 <= len * 1000) by (nonlinear_arith)
            requires y <= len;
        assert(y * 1000 >= 0) by (nonlinear_arith)
            requires y >= 0;
        vstd::arithmetic::div_mod::lemma_div_is_ordered(y * 1000, len * 1000, len);
        vstd::arithmetic::div_mod::lemma_div_by_multiple(1000, len);
        vstd::arithmetic::div_mod::lemma_div_pos_is_pos(y * 1000, len);
        assert((-x) * 1000 == -(x * 1000)) by (nonlinear_arith);
    }
}

} // verus!
