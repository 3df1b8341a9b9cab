//! Fixed-point helpers: truncating division, integer square root and the
//! velocity clamp.

use vstd::prelude::*;

verus! {

/// A 2D vector of fixed-point integers.
#[derive(Clone, Copy, Debug, PartialEq, Eq, Structural)]
pub struct Vector2 {
    pub x: i64,
    pub y: i64,
}

/// Largest absolute velocity component the clamp accepts (2^43).
pub const VELOCITY_INPUT_LIMIT: i64 = 8_796_093_022_208;

/// Largest max-velocity an entity may carry (milli-units per second).
pub const SPEED_LIMIT: i64 = 1_000_000_000;

/// Division rounding toward zero, as integer division does in Rust.
pub open spec fn tdiv(a: int, d: int) -> int {
    if a >= 0 {
        a / d
    } else {
        -((-a) / d)
    }
}

pub open spec fn norm_sq(v: Vector2) -> int {
    v.x * v.x + v.y * v.y
}

/// `m` is the least non-negative integer whose square reaches `s`.
pub open spec fn is_ceil_sqrt(m: int, s: int) -> bool {
    0 <= m && s <= m * m && (m == 0 || (m - 1) * (m - 1) < s)
}

pub open spec fn ceil_sqrt(s: int) -> int {
    choose|m: int| is_ceil_sqrt(m, s)
}

/// The velocity after rescaling to `max` when its magnitude exceeds it:
/// each component is scaled by `max / ceil(|v|)`, rounded toward zero.
pub open spec fn clamp_spec(v: Vector2, max: int) -> Vector2 {
    if norm_sq(v) <= max * max {
        v
    } else {
        let m = ceil_sqrt(norm_sq(v));
        Vector2 { x: tdiv(v.x * max, m) as i64, y: tdiv(v.y * max, m) as i64 }
    }
}

proof fn lemma_square_monotonic(a: int, b: int)
    requires
        0 <= a <= b,
    ensures
        a * a <= b * b,
{
    assert(a * a <= b * b) by (nonlinear_arith)
        requires
            0 <= a <= b,
    ;
}

proof fn lemma_ceil_sqrt_unique(m1: int, m2: int, s: int)
    requires
        is_ceil_sqrt(m1, s),
        is_ceil_sqrt(m2, s),
    ensures
        m1 == m2,
{
    if m1 < m2 {
        lemma_square_monotonic(m1, m2 - 1);
    } else if m2 < m1 {
        lemma_square_monotonic(m2, m1 - 1);
    }
}

/// Once a witness is known, `ceil_sqrt` denotes it.
proof fn lemma_ceil_sqrt_is(m: int, s: int)
    requires
        is_ceil_sqrt(m, s),
    ensures
        ceil_sqrt(s) == m,
{
    lemma_ceil_sqrt_unique(ceil_sqrt(s), m, s);
}

/// The least `m` with `s <= m * m`, by binary search.
fn isqrt_ceil(s: u128) -> (r: u128)
    requires
        s <= 0x1_0000_0000_0000_0000_0000_00u128,
    ensures
        is_ceil_sqrt(r as int, s as int),
        r <= 0x1000_0000_0000u128,
{
    if s == 0 {
        return 0;
    }
    let mut lo: u128 = 0;
    let mut hi: u128 = 0x1000_0000_0000u128;
    assert(s <= hi * hi) by (nonlinear_arith)
        requires
            s <= 0x1_0000_0000_0000_0000_0000_00u128,
            hi == 0x1000_0000_0000u128,
    ;
    while lo + 1 < hi
        invariant
            lo < hi <= 0x1000_0000_0000u128,
            (lo as int) * (lo as int) < s,
            s <= (hi as int) * (hi as int),
        decreases hi - lo,
    {
        let mid: u128 = lo + (hi - lo) / 2;
        assert(mid * mid <= 0x1000_0000_0000u128 * 0x1000_0000_0000u128) by (nonlinear_arith)
            requires
                mid <= 0x1000_0000_0000u128,
        ;
        if mid * mid < s {
            lo = mid;
        } else {
            hi = mid;
        }
    }
    assert(hi == lo + 1);
    hi
}

proof fn lemma_floor_div_bound(a: int, max: int, m: int, q: int)
    requires
        0 <= a,
        0 <= max,
        0 < m,
        q == (a * max) / m,
    ensures
        0 <= q,
        q * m <= a * max,
        q * q * (m * m) <= a * a * (max * max),
{
    vstd::arithmetic::div_mod::lemma_fundamental_div_mod(a * max, m);
    assert(0 <= a * max) by (nonlinear_arith)
        requires
            0 <= a,
            0 <= max,
    ;
    vstd::arithmetic::div_mod::lemma_div_pos_is_pos(a * max, m);
    assert(q * m <= a * max) by (nonlinear_arith)
        requires
            a * max == m * q + (a * max) % m,
            0 <= (a * max) % m,
    ;
    assert(q * q * (m * m) <= a * a * (max * max)) by (nonlinear_arith)
        requires
            0 <= q * m <= a * max,
            0 <= q,
            0 < m,
    ;
}

proof fn lemma_rescaled_within(a: int, b: int, max: int, m: int, qa: int, qb: int)
    requires
        0 <= a,
        0 <= b,
        0 <= max,
        is_ceil_sqrt(m, a * a + b * b),
        max * max < a * a + b * b,
        qa == (a * max) / m,
        qb == (b * max) / m,
    ensures
        0 <= qa <= a,
        0 <= qb <= b,
        qa * qa + qb * qb <= max * max,
{
    assert(0 < m) by (nonlinear_arith)
        requires
            0 <= max,
            max * max < a * a + b * b,
            a * a + b * b <= m * m,
            0 <= m,
    ;
    lemma_floor_div_bound(a, max, m, qa);
    lemma_floor_div_bound(b, max, m, qb);
    let s = a * a + b * b;
    assert((qa * qa + qb * qb) * (m * m) <= s * (max * max)) by (nonlinear_arith)
        requires
            qa * qa * (m * m) <= a * a * (max * max),
            qb * qb * (m * m) <= b * b * (max * max),
            s == a * a + b * b,
    ;
    assert(s * (max * max) <= (m * m) * (max * max)) by (nonlinear_arith)
        requires
            s <= m * m,
    ;
    assert(qa * qa + qb * qb <= max * max) by (nonlinear_arith)
        requires
            (qa * qa + qb * qb) * (m * m) <= (m * m) * (max * max),
            0 < m,
    ;
    // max < m, so each rescaled component shrinks
    assert(max < m) by (nonlinear_arith)
        requires
            max * max < a * a + b * b,
            a * a + b * b <= m * m,
            0 <= max,
            0 < m,
    ;
    assert(a * max <= a * m) by (nonlinear_arith)
        requires
            max < m,
            0 <= a,
    ;
    assert(qa <= a) by (nonlinear_arith)
        requires
            qa * m <= a * m,
            0 < m,
    ;
    assert(b * max <= b * m) by (nonlinear_arith)
        requires
            max < m,
            0 <= b,
    ;
    assert(qb <= b) by (nonlinear_arith)
        requires
            qb * m <= b * m,
            0 < m,
    ;
}

/// Magnitude of a component, as a non-negative wide integer.
fn abs_wide(c: i64) -> (r: i128)
    ensures
        r >= 0,
        r == (if c >= 0 { c as int } else { -c }),
{
    if c >= 0 {
        c as i128
    } else {
        -(c as i128)
    }
}

/// Rescales `v` so that its magnitude does not exceed `max`; a velocity
/// already within `max` is returned unchanged.
pub fn clamp_velocity(v: Vector2, max: i64) -> (r: Vector2)
    requires
        0 <= max <= SPEED_LIMIT,
        -VELOCITY_INPUT_LIMIT <= v.x <= VELOCITY_INPUT_LIMIT,
        -VELOCITY_INPUT_LIMIT <= v.y <= VELOCITY_INPUT_LIMIT,
    ensures
        r == clamp_spec(v, max as int),
        norm_sq(r) <= max * max,
{
    let a = abs_wide(v.x);
    let b = abs_wide(v.y);
    let mx = max as i128;
    assert(a * a <= VELOCITY_INPUT_LIMIT * VELOCITY_INPUT_LIMIT) by (nonlinear_arith)
        requires
            0 <= a <= VELOCITY_INPUT_LIMIT,
    ;
    assert(b * b <= VELOCITY_INPUT_LIMIT * VELOCITY_INPUT_LIMIT) by (nonlinear_arith)
        requires
            0 <= b <= VELOCITY_INPUT_LIMIT,
    ;
    assert(mx * mx <= SPEED_LIMIT * SPEED_LIMIT) by (nonlinear_arith)
        requires
            0 <= mx <= SPEED_LIMIT,
    ;
    let s = a * a + b * b;
    assert(norm_sq(v) == s) by (nonlinear_arith)
        requires
            a == (if v.x >= 0 { v.x as int } else { -v.x }),
            b == (if v.y >= 0 { v.y as int } else { -v.y }),
            s == a * a + b * b,
    ;
    if s <= mx * mx {
        return v;
    }
    let m = isqrt_ceil(s as u128) as i128;
    proof {
        lemma_ceil_sqrt_is(m as int, s as int);
    }
    assert(a * mx <= VELOCITY_INPUT_LIMIT * SPEED_LIMIT) by (nonlinear_arith)
        requires
            0 <= a <= VELOCITY_INPUT_LIMIT,
            0 <= mx <= SPEED_LIMIT,
    ;
    assert(b * mx <= VELOCITY_INPUT_LIMIT * SPEED_LIMIT) by (nonlinear_arith)
        requires
            0 <= b <= VELOCITY_INPUT_LIMIT,
            0 <= mx <= SPEED_LIMIT,
    ;
    proof {
        lemma_rescaled_within(a as int, b as int, mx as int, m as int, (a * mx) as int / (m as int), (b * mx) as int / (m as int));
    }
    let qa = (a * mx) / m;
    let qb = (b * mx) / m;
    let x: i64 = if v.x >= 0 { qa as i64 } else { -(qa as i64) };
    let y: i64 = if v.y >= 0 { qb as i64 } else { -(qb as i64) };
    assert(v.x * mx == (if v.x >= 0 { a * mx } else { -(a * mx) })) by (nonlinear_arith)
        requires
            a == (if v.x >= 0 { v.x as int } else { -v.x }),
    ;
    assert(v.y * mx == (if v.y >= 0 { b * mx } else { -(b * mx) })) by (nonlinear_arith)
        requires
            b == (if v.y >= 0 { v.y as int } else { -v.y }),
    ;
    let r = Vector2 { x, y };
    assert(norm_sq(r) == qa * qa + qb * qb) by (nonlinear_arith)
        requires
            x == (if v.x >= 0 { qa as int } else { -qa }),
            y == (if v.y >= 0 { qb as int } else { -qb }),
            norm_sq(r) == x * x + y * y,
    ;
    r
}

/// A vector within magnitude `max` has each component within `max`.
pub proof fn lemma_component_bound(v: Vector2, max: int)
    requires
        0 <= max,
        norm_sq(v) <= max * max,
    ensures
        -max <= v.x <= max,
        -max <= v.y <= max,
{
    assert(-max <= v.x <= max) by (nonlinear_arith)
        requires
            0 <= max,
            v.x * v.x + v.y * v.y <= max * max,
    ;
    assert(-max <= v.y <= max) by (nonlinear_arith)
        requires
            0 <= max,
            v.x * v.x + v.y * v.y <= max * max,
    ;
}

/// Division of a wide integer by a positive divisor, rounding toward zero.
pub fn tdiv_wide(a: i128, d: i128) -> (r: i128)
    requires
        d > 0,
        a > i128::MIN,
    ensures
        r as int == tdiv(a as int, d as int),
{
    if a >= 0 {
        a / d
    } else {
        -((-a) / d)
    }
}

} // verus!
