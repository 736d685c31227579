//! The floor: the lower half of the screen in a dark brown, lit by a linear
//! flashlight falloff around the screen center.
use vstd::prelude::*;
use crate::color::Color;
use crate::fixed::{is_isqrt, isqrt, lemma_isqrt_unique};
use crate::framebuffer::{Framebuffer, write_pixel};
use crate::lighting::{center_distance, LIGHT_ONE, RADIUS_LIMIT, SCREEN_LIMIT};

verus! {

/// Linear falloff `1 - dist / radius`, zero from the radius on, as a fraction
/// of `LIGHT_ONE`.
pub open spec fn floor_light(dist: int, radius: int) -> int {
    if dist < radius {
        (radius - dist) * LIGHT_ONE / radius
    } else {
        0
    }
}

/// The floor color at screen pixel `(x, y)`.
pub open spec fn floor_pixel(width: int, height: int, x: int, y: int, radius: int) -> Color {
    let b = floor_light(center_distance(width, height, x, y), radius);
    Color { r: (51 * b / LIGHT_ONE as int) as u8, g: (25 * b / LIGHT_ONE as int) as u8, b: 0, a: 255 }
}

/// Pixels after shading the first `n` pixels of row `y`.
pub open spec fn floor_row(p: Seq<Color>, width: int, height: int, y: int, radius: int, n: int) -> Seq<Color>
    decreases n,
{
    if n <= 0 {
        p
    } else {
        write_pixel(
            floor_row(p, width, height, y, radius, n - 1),
            width,
            height,
            n - 1,
            y,
            floor_pixel(width, height, n - 1, y, radius),
        )
    }
}

/// Pixels after shading the first `n` rows of the lower half.
pub open spec fn floor_drawn(p: Seq<Color>, width: int, height: int, radius: int, n: int) -> Seq<Color>
    decreases n,
{
    if n <= 0 {
        p
    } else {
        floor_row(floor_drawn(p, width, height, radius, n - 1), width, height, height / 2 + n - 1, radius, width)
    }
}

fn floor_color(width: u32, height: u32, x: u32, y: u32, radius: u32) -> (c: Color)
    requires
        x < width <= SCREEN_LIMIT,
        y < height <= SCREEN_LIMIT,
        radius <= RADIUS_LIMIT,
    ensures
        c == floor_pixel(width as int, height as int, x as int, y as int, radius as int),
{
    let dx: i64 = x as i64 - (width / 2) as i64;
    let dy: i64 = y as i64 - (height / 2) as i64;
    assert(0 <= dx * dx <= 0x4000_0000 && 0 <= dy * dy <= 0x4000_0000) by (nonlinear_arith)
        requires -0x8000 <= dx <= 0x8000, -0x8000 <= dy <= 0x8000;
    let sq: u64 = (dx * dx + dy * dy) as u64;
    let dist: u64 = isqrt(sq);
    proof {
        let r = center_distance(width as int, height as int, x as int, y as int);
        assert(is_isqrt(sq as int, dist as int));
        assert(is_isqrt(sq as int, r));
        lemma_isqrt_unique(sq as int, r, dist as int);
    }
    let r: u64 = radius as u64;
    let b: u64 = if dist < r {
        let m: u64 = r - dist;
        assert((m as int) * (LIGHT_ONE as int) / (r as int) <= LIGHT_ONE) by (nonlinear_arith)
            requires m <= r, r > 0;
        m * LIGHT_ONE / r
    } else {
        0
    };
    assert(51 * (b as int) / (LIGHT_ONE as int) <= 51 && 25 * (b as int) / (LIGHT_ONE as int) <= 25) by (nonlinear_arith)
        requires b <= LIGHT_ONE;
    Color { r: (51 * b / LIGHT_ONE) as u8, g: (25 * b / LIGHT_ONE) as u8, b: 0, a: 255 }
}

/// Shades the lower half of the screen with the floor color, darkening
/// linearly with the distance from the screen center out to the flashlight
/// radius.
pub fn render_floor(framebuffer: &mut Framebuffer, flashlight_radius: u32)
    requires
        old(framebuffer).wf(),
        flashlight_radius <= RADIUS_LIMIT,
    ensures
        final(framebuffer).wf(),
        final(framebuffer).width == old(framebuffer).width,
        final(framebuffer).height == old(framebuffer).height,
        final(framebuffer).background == old(framebuffer).background,
        final(framebuffer).pixels@ == floor_drawn(
            old(framebuffer).pixels@,
            old(framebuffer).width as int,
            old(framebuffer).height as int,
            flashlight_radius as int,
            old(framebuffer).height - old(framebuffer).height / 2,
        ),
{
    let width: i32 = framebuffer.width;
    let height: i32 = framebuffer.height;
    let ghost w = width as int;
    let ghost h = height as int;
    let ghost r = flashlight_radius as int;
    let mut y: i32 = height / 2;
    while y < height
        invariant
            height / 2 <= y <= height,
            framebuffer.wf(),
            framebuffer.width == old(framebuffer).width,
            framebuffer.height == old(framebuffer).height,
            framebuffer.background == old(framebuffer).background,
            width == framebuffer.width,
            height == framebuffer.height,
            w == width,
            h == height,
            r == flashlight_radius,
            flashlight_radius <= RADIUS_LIMIT,
            framebuffer.pixels@ == floor_drawn(old(framebuffer).pixels@, w, h, r, y - h / 2),
        decreases height - y,
    {
        let ghost before = framebuffer.pixels@;
        let mut x: i32 = 0;
        while x < width
            invariant
                height / 2 <= y < height,
                0 <= x <= width,
                framebuffer.wf(),
                framebuffer.width == old(framebuffer).width,
                framebuffer.height == old(framebuffer).height,
                framebuffer.background == old(framebuffer).background,
                width == framebuffer.width,
                height == framebuffer.height,
                w == width,
                h == height,
                r == flashlight_radius,
                flashlight_radius <= RADIUS_LIMIT,
                framebuffer.pixels@ == floor_row(before, w, h, y as int, r, x as int),
            decreases width - x,
        {
            let c = floor_color(width as u32, height as u32, x as u32, y as u32, flashlight_radius);
            framebuffer.set_pixel(x, y, c);
            x += 1;
        }
        y += 1;
    }
}

} // verus!
