//! The flashlight lighting model: a quadratic radial falloff around the screen
//! center times a linear fade with depth.
use vstd::prelude::*;
use vstd::arithmetic::div_mod::{lemma_div_is_ordered, lemma_div_pos_is_pos};
use vstd::arithmetic::mul::lemma_mul_inequality;
use crate::color::Color;
use crate::fixed::{FIX, isqrt, is_isqrt, lemma_isqrt_unique};

verus! {

/// Full brightness: brightness values are fractions of this constant.
pub const LIGHT_ONE: u64 = 65536;

/// Depth, in grid-pixel units, at which the linear fade reaches zero.
pub const FAR_PLANE: i64 = 1000;

/// Largest flashlight radius, in screen pixels.
pub const RADIUS_LIMIT: u32 = 65536;

/// Largest screen width or height, in pixels.
pub const SCREEN_LIMIT: u32 = 32768;

/// Quadratic falloff `(1 - dist / radius)²`, zero from the radius on.
pub open spec fn radial_term(dist: int, radius: int) -> int {
    if dist < radius {
        (radius - dist) * (radius - dist) * LIGHT_ONE / (radius * radius)
    } else {
        0
    }
}

/// Linear fade `max(0, 1 - depth / FAR_PLANE)` of a fixed-point depth; a depth
/// at or below zero is not faded.
pub open spec fn depth_term(depth: int) -> int {
    if depth <= 0 {
        LIGHT_ONE as int
    } else if depth < FAR_PLANE * FIX {
        (FAR_PLANE * FIX - depth) * LIGHT_ONE / (FAR_PLANE * FIX)
    } else {
        0
    }
}

/// Brightness at radial distance `dist` (screen pixels) from the screen center
/// and fixed-point depth `depth`, as a fraction of `LIGHT_ONE`.
pub open spec fn light_level(dist: int, depth: int, radius: int) -> int {
    radial_term(dist, radius) * depth_term(depth) / LIGHT_ONE as int
}

/// The whole-pixel distance of `(x, y)` from the center of a screen.
pub open spec fn center_distance(width: int, height: int, x: int, y: int) -> int
    recommends
        0 <= width,
        0 <= height,
{
    let dx = x - width / 2;
    let dy = y - height / 2;
    choose|r: int| #[trigger] is_isqrt(dx * dx + dy * dy, r)
}

/// A color channel scaled by a brightness.
pub open spec fn shade_channel(c: u8, level: int) -> int {
    c as int * level / LIGHT_ONE as int
}

/// A color with its red, green and blue channels scaled by a brightness.
pub open spec fn shaded(c: Color, level: int) -> Color {
    Color {
        r: shade_channel(c.r, level) as u8,
        g: shade_channel(c.g, level) as u8,
        b: shade_channel(c.b, level) as u8,
        a: c.a,
    }
}

proof fn lemma_radial_bounds(dist: int, radius: int)
    requires
        0 <= dist,
    ensures
        0 <= radial_term(dist, radius) <= LIGHT_ONE,
{
    if dist < radius {
        let k = (radius - dist) * (radius - dist);
        assert(0 <= k <= radius * radius) by (nonlinear_arith)
            requires k == (radius - dist) * (radius - dist), 0 <= dist < radius;
        assert(radius * radius > 0) by (nonlinear_arith)
            requires radius > 0;
        lemma_mul_inequality(k, radius * radius, LIGHT_ONE as int);
        assert(0 <= k * LIGHT_ONE) by (nonlinear_arith)
            requires k >= 0;
        lemma_div_is_ordered(k * LIGHT_ONE, radius * radius * LIGHT_ONE, radius * radius);
        assert(radius * radius * LIGHT_ONE / (radius * radius) == LIGHT_ONE) by (nonlinear_arith)
            requires radius * radius > 0;
        lemma_div_pos_is_pos(k * LIGHT_ONE, radius * radius);
    }
}

proof fn lemma_depth_bounds(depth: int)
    ensures
        0 <= depth_term(depth) <= LIGHT_ONE,
{
    if 0 < depth < FAR_PLANE * FIX {
        let k = FAR_PLANE * FIX - depth;
        lemma_div_is_ordered(k * LIGHT_ONE, FAR_PLANE * FIX * LIGHT_ONE, FAR_PLANE * FIX);
        lemma_div_pos_is_pos(k * LIGHT_ONE, FAR_PLANE * FIX);
    }
}

/// Brightness always lies between zero and full brightness.
pub proof fn lemma_light_bounds(dist: int, depth: int, radius: int)
    requires
        0 <= dist,
    ensures
        0 <= light_level(dist, depth, radius) <= LIGHT_ONE,
{
    let a = radial_term(dist, radius);
    let b = depth_term(depth);
    lemma_radial_bounds(dist, radius);
    lemma_depth_bounds(depth);
    assert(0 <= a * b <= LIGHT_ONE * LIGHT_ONE) by (nonlinear_arith)
        requires 0 <= a <= LIGHT_ONE, 0 <= b <= LIGHT_ONE;
    lemma_div_is_ordered(a * b, LIGHT_ONE * LIGHT_ONE, LIGHT_ONE as int);
    lemma_div_pos_is_pos(a * b, LIGHT_ONE as int);
}

/// Brightness never grows as the radial distance from the screen center or
/// the depth grows; it is zero from the flashlight radius on, and full at the
/// screen center at depth zero.
pub proof fn lemma_light_monotone(dist1: int, dist2: int, depth1: int, depth2: int, radius: int)
    requires
        0 <= dist1 <= dist2,
        depth1 <= depth2,
        0 < radius,
    ensures
        light_level(dist2, depth2, radius) <= light_level(dist1, depth1, radius),
        dist2 >= radius ==> light_level(dist2, depth2, radius) == 0,
        light_level(0, 0, radius) == LIGHT_ONE,
{
    let a1 = radial_term(dist1, radius);
    let a2 = radial_term(dist2, radius);
    let b1 = depth_term(depth1);
    let b2 = depth_term(depth2);
    lemma_radial_bounds(dist1, radius);
    lemma_radial_bounds(dist2, radius);
    lemma_depth_bounds(depth1);
    lemma_depth_bounds(depth2);
    if dist2 < radius {
        let k1 = (radius - dist1) * (radius - dist1);
        let k2 = (radius - dist2) * (radius - dist2);
        assert(k2 <= k1) by (nonlinear_arith)
            requires k1 == (radius - dist1) * (radius - dist1), k2 == (radius - dist2) * (radius - dist2),
                0 <= dist1 <= dist2 < radius;
        lemma_mul_inequality(k2, k1, LIGHT_ONE as int);
        assert(radius * radius > 0) by (nonlinear_arith)
            requires radius > 0;
        lemma_div_is_ordered(k2 * LIGHT_ONE, k1 * LIGHT_ONE, radius * radius);
    }
    assert(a2 <= a1);
    if 0 < depth2 < FAR_PLANE * FIX {
        if 0 < depth1 {
            lemma_div_is_ordered(
                (FAR_PLANE * FIX - depth2) * LIGHT_ONE,
                (FAR_PLANE * FIX - depth1) * LIGHT_ONE,
                FAR_PLANE * FIX,
            );
        }
    }
    assert(b2 <= b1);
    assert(a2 * b2 <= a1 * b1) by (nonlinear_arith)
        requires 0 <= a2 <= a1, 0 <= b2 <= b1;
    lemma_div_is_ordered(a2 * b2, a1 * b1, LIGHT_ONE as int);
    assert(radial_term(0, radius) == LIGHT_ONE) by (nonlinear_arith)
        requires radius > 0;
}

/// What the lighting does to a sampled color: each of red, green and blue
/// never grows as the radial distance or the depth grows; all three are zero
/// from the flashlight radius on, with alpha kept; at the screen center only
/// the depth fade applies, so at the center and depth zero the color is
/// unchanged.
pub proof fn lemma_shaded_monotone(c: Color, dist1: int, dist2: int, depth1: int, depth2: int, radius: int)
    requires
        0 <= dist1 <= dist2,
        depth1 <= depth2,
        0 < radius,
    ensures
        shaded(c, light_level(dist2, depth2, radius)).r <= shaded(c, light_level(dist1, depth1, radius)).r,
        shaded(c, light_level(dist2, depth2, radius)).g <= shaded(c, light_level(dist1, depth1, radius)).g,
        shaded(c, light_level(dist2, depth2, radius)).b <= shaded(c, light_level(dist1, depth1, radius)).b,
        dist2 >= radius ==> shaded(c, light_level(dist2, depth2, radius)) == (Color { r: 0, g: 0, b: 0, a: c.a }),
        light_level(0, depth1, radius) == depth_term(depth1),
        shaded(c, light_level(0, 0, radius)) == c,
{
    let l1 = light_level(dist1, depth1, radius);
    let l2 = light_level(dist2, depth2, radius);
    lemma_light_monotone(dist1, dist2, depth1, depth2, radius);
    lemma_light_bounds(dist1, depth1, radius);
    lemma_light_bounds(dist2, depth2, radius);
    lemma_channel_monotone(c.r, l2, l1);
    lemma_channel_monotone(c.g, l2, l1);
    lemma_channel_monotone(c.b, l2, l1);
    lemma_depth_bounds(depth1);
    if dist2 >= radius {
        assert(l2 == 0);
        assert(c.r as int * 0 == 0 && c.g as int * 0 == 0 && c.b as int * 0 == 0) by (nonlinear_arith);
        assert(0int / (LIGHT_ONE as int) == 0);
        assert(shade_channel(c.r, 0) == 0 && shade_channel(c.g, 0) == 0 && shade_channel(c.b, 0) == 0);
    }
    assert(radial_term(0, radius) == LIGHT_ONE) by (nonlinear_arith)
        requires radius > 0;
    let t = depth_term(depth1);
    assert(LIGHT_ONE * t / LIGHT_ONE as int == t) by (nonlinear_arith);
    assert(c.r as int * LIGHT_ONE / LIGHT_ONE as int == c.r) by (nonlinear_arith);
    assert(c.g as int * LIGHT_ONE / LIGHT_ONE as int == c.g) by (nonlinear_arith);
    assert(c.b as int * LIGHT_ONE / LIGHT_ONE as int == c.b) by (nonlinear_arith);
}

proof fn lemma_channel_monotone(v: u8, lo: int, hi: int)
    requires
        0 <= lo <= hi <= LIGHT_ONE,
    ensures
        0 <= shade_channel(v, lo) <= shade_channel(v, hi) <= v,
{
    lemma_mul_inequality(lo, hi, v as int);
    lemma_mul_inequality(hi, LIGHT_ONE as int, v as int);
    assert(0 <= lo * v) by (nonlinear_arith)
        requires 0 <= lo;
    assert(v as int * lo == lo * v && v as int * hi == hi * v) by (nonlinear_arith);
    lemma_div_is_ordered(v as int * lo, v as int * hi, LIGHT_ONE as int);
    lemma_div_is_ordered(v as int * hi, v as int * LIGHT_ONE, LIGHT_ONE as int);
    lemma_div_pos_is_pos(v as int * lo, LIGHT_ONE as int);
    assert(v as int * LIGHT_ONE / LIGHT_ONE as int == v) by (nonlinear_arith);
}

/// Brightness of the screen pixel `(x, y)` at fixed-point depth `depth`, for a
/// flashlight of the given radius centered on a `width` × `height` screen.
pub fn brightness(width: u32, height: u32, x: u32, y: u32, depth: i64, radius: u32) -> (b: u64)
    requires
        width <= SCREEN_LIMIT,
        height <= SCREEN_LIMIT,
        x <= SCREEN_LIMIT,
        y <= SCREEN_LIMIT,
        radius <= RADIUS_LIMIT,
    ensures
        b == light_level(center_distance(width as int, height as int, x as int, y as int), depth as int, radius as int),
        b <= LIGHT_ONE,
{
    let dx: i64 = x as i64 - (width / 2) as i64;
    let dy: i64 = y as i64 - (height / 2) as i64;
    assert(dx * dx <= 0x4000_0000 && dy * dy <= 0x4000_0000) by (nonlinear_arith)
        requires -0x8000 <= dx <= 0x8000, -0x8000 <= dy <= 0x8000;
    assert(dx * dx >= 0 && dy * dy >= 0) by (nonlinear_arith);
    let sq: u64 = (dx * dx + dy * dy) as u64;
    let dist: u64 = isqrt(sq);
    proof {
        let r = center_distance(width as int, height as int, x as int, y as int);
        assert(is_isqrt(sq as int, dist as int));
        assert(is_isqrt(sq as int, r));
        lemma_isqrt_unique(sq as int, r, dist as int);
    }
    let r: u64 = radius as u64;
    let radial: u64 = if dist < r {
        let m: u64 = r - dist;
        assert(m * m <= 0x1_0000_0000) by (nonlinear_arith)
            requires m <= 0x10000;
        let k: u64 = m * m;
        assert(k <= r * r) by (nonlinear_arith)
            requires k == (r - dist) * (r - dist), dist < r;
        assert(0 < r * r <= 0x1_0000_0000) by (nonlinear_arith)
            requires 0 < r <= 0x10000;
        k * LIGHT_ONE / (r * r)
    } else {
        0
    };
    let far: i64 = FAR_PLANE * FIX;
    let fade: u64 = if depth <= 0 {
        LIGHT_ONE
    } else if depth < far {
        ((far - depth) as u64) * LIGHT_ONE / (far as u64)
    } else {
        0
    };
    proof {
        lemma_radial_bounds(dist as int, radius as int);
        lemma_depth_bounds(depth as int);
        lemma_light_bounds(dist as int, depth as int, radius as int);
        assert(radial * fade <= LIGHT_ONE * LIGHT_ONE) by (nonlinear_arith)
            requires radial <= LIGHT_ONE, fade <= LIGHT_ONE;
    }
    radial * fade / LIGHT_ONE
}

/// Scales the red, green and blue channels of `c` by the brightness `level`;
/// alpha is kept.
pub fn shade(c: Color, level: u64) -> (r: Color)
    requires
        level <= LIGHT_ONE,
    ensures
        r == shaded(c, level as int),
        r.r <= c.r && r.g <= c.g && r.b <= c.b,
{
    proof {
        lemma_mul_inequality(level as int, LIGHT_ONE as int, c.r as int);
        lemma_mul_inequality(level as int, LIGHT_ONE as int, c.g as int);
        lemma_mul_inequality(level as int, LIGHT_ONE as int, c.b as int);
        lemma_div_is_ordered(c.r as int * level, c.r as int * LIGHT_ONE, LIGHT_ONE as int);
        lemma_div_is_ordered(c.g as int * level, c.g as int * LIGHT_ONE, LIGHT_ONE as int);
        lemma_div_is_ordered(c.b as int * level, c.b as int * LIGHT_ONE, LIGHT_ONE as int);
        lemma_div_pos_is_pos(c.r as int * level, LIGHT_ONE as int);
        lemma_div_pos_is_pos(c.g as int * level, LIGHT_ONE as int);
        lemma_div_pos_is_pos(c.b as int * level, LIGHT_ONE as int);
    }
    Color {
        r: ((c.r as u64) * level / LIGHT_ONE) as u8,
        g: ((c.g as u64) * level / LIGHT_ONE) as u8,
        b: ((c.b as u64) * level / LIGHT_ONE) as u8,
        a: c.a,
    }
}

} // verus!
