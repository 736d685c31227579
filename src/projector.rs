//! The column projector: turns one ray hit into a perspective-correct,
//! textured and lit vertical strip of screen pixels.
use vstd::prelude::*;
use crate::caster::{Intersect, MAX_STEPS};
use crate::color::Color;
use crate::fixed::FIX;
use crate::lighting::{
    brightness, center_distance, light_level, shade, shaded, RADIUS_LIMIT, SCREEN_LIMIT,
};
use crate::textures::{TextureManager, TEXTURE_LIMIT};

verus! {

/// Scale of a wall strip's height relative to half the screen height.
pub const WALL_SCALE: i64 = 120;

/// A vertical strip of a wall: its screen column, its bounds on the screen
/// (which may reach past it), and its visible pixels from top to bottom.
pub struct Column {
    pub x: u32,
    pub top: i64,
    pub bottom: i64,
    pub pixels: Vec<(u32, Color)>,
}

impl View for Column {
    type V = (u32, i64, i64, Seq<(u32, Color)>);

    open spec fn view(&self) -> Self::V {
        (self.x, self.top, self.bottom, self.pixels@)
    }
}

/// Fisheye-corrected fixed-point distance: the raw distance times the cosine of
/// the ray's angle from the facing direction.
pub open spec fn corrected_distance(distance: int, cos_offset: int) -> int {
    distance * cos_offset
}

/// Height in pixels of the strip of a wall at the corrected distance; distances
/// under one unit count as one unit.
pub open spec fn strip_height(half_height: int, corrected: int) -> int {
    let eff = if corrected < FIX { FIX as int } else { corrected };
    half_height * WALL_SCALE * FIX / eff
}

pub open spec fn strip_top(half_height: int, corrected: int) -> int {
    half_height - strip_height(half_height, corrected) / 2
}

pub open spec fn strip_bottom(half_height: int, corrected: int) -> int {
    half_height + strip_height(half_height, corrected) / 2
}

/// First visible row of a strip.
pub open spec fn visible_start(top: int) -> int {
    if top < 0 {
        0
    } else {
        top
    }
}

/// Row after the last visible row of a strip.
pub open spec fn visible_end(bottom: int, height: int) -> int {
    if bottom < height {
        bottom
    } else {
        height
    }
}

/// The texture row for screen row `y` of a strip from `top` to `bottom`.
pub open spec fn texture_v(y: int, top: int, bottom: int, tex_height: int) -> int {
    (y - top) * tex_height / (bottom - top)
}

/// The lit color of screen row `y` of the strip of `hit` in screen column `x`.
pub open spec fn wall_pixel(
    tm: TextureManager,
    hit: Intersect,
    corrected: int,
    width: int,
    height: int,
    x: int,
    y: int,
    radius: int,
) -> Color {
    let top = strip_top(height / 2, corrected);
    let bottom = strip_bottom(height / 2, corrected);
    let ty = texture_v(y, top, bottom, tm.dims_of(hit.impact).1 as int);
    shaded(
        tm.sample(hit.impact, hit.tx as int, ty),
        light_level(center_distance(width, height, x, y), corrected, radius),
    )
}

/// The strip of `hit` in screen column `x`: its column, bounds and visible
/// pixels.
pub open spec fn wall_column(
    tm: TextureManager,
    hit: Intersect,
    cos_offset: int,
    x: int,
    width: int,
    height: int,
    radius: int,
) -> (u32, i64, i64, Seq<(u32, Color)>) {
    let corrected = corrected_distance(hit.distance as int, cos_offset);
    let top = strip_top(height / 2, corrected);
    let bottom = strip_bottom(height / 2, corrected);
    let start = visible_start(top);
    let end = visible_end(bottom, height);
    let n = if end > start { end - start } else { 0 };
    (
        x as u32,
        top as i64,
        bottom as i64,
        Seq::new(
            n as nat,
            |k: int| ((start + k) as u32, wall_pixel(tm, hit, corrected, width, height, x, start + k, radius)),
        ),
    )
}

/// Two hits whose distances times the cosines of their angular offsets agree
/// give strips of equal height and equal bounds, in whatever screen columns
/// they are drawn.
pub proof fn lemma_fisheye_invariant(
    tm: TextureManager,
    hit1: Intersect,
    cos1: int,
    x1: int,
    hit2: Intersect,
    cos2: int,
    x2: int,
    width: int,
    height: int,
    radius: int,
)
    requires
        hit1.distance * cos1 == hit2.distance * cos2,
    ensures
        strip_height(height / 2, corrected_distance(hit1.distance as int, cos1)) == strip_height(
            height / 2,
            corrected_distance(hit2.distance as int, cos2),
        ),
        wall_column(tm, hit1, cos1, x1, width, height, radius).1 == wall_column(tm, hit2, cos2, x2, width, height, radius).1,
        wall_column(tm, hit1, cos1, x1, width, height, radius).2 == wall_column(tm, hit2, cos2, x2, width, height, radius).2,
        wall_column(tm, hit1, cos1, x1, width, height, radius).3.len() == wall_column(
            tm,
            hit2,
            cos2,
            x2,
            width,
            height,
            radius,
        ).3.len(),
{
}

proof fn lemma_strip_bounds(half_height: int, corrected: int)
    requires
        0 <= half_height <= SCREEN_LIMIT,
    ensures
        0 <= strip_height(half_height, corrected) <= half_height * WALL_SCALE,
{
    let eff = if corrected < FIX { FIX as int } else { corrected };
    assert(0 <= half_height * WALL_SCALE * FIX / eff <= half_height * WALL_SCALE) by (nonlinear_arith)
        requires eff >= FIX, half_height >= 0;
}

/// Projects a hit, found by a ray at cosine `cos_offset` from the facing
/// direction, into screen column `x` of a `width` × `height` screen, lit by a
/// flashlight of the given radius.
pub fn project_column(
    texture_manager: &TextureManager,
    hit: Intersect,
    cos_offset: i64,
    x: u32,
    width: u32,
    height: u32,
    radius: u32,
) -> (c: Column)
    requires
        texture_manager.wf(),
        hit.distance <= MAX_STEPS,
        hit.tx < TEXTURE_LIMIT,
        -FIX <= cos_offset <= FIX,
        x < width <= SCREEN_LIMIT,
        height <= SCREEN_LIMIT,
        radius <= RADIUS_LIMIT,
    ensures
        c@ == wall_column(*texture_manager, hit, cos_offset as int, x as int, width as int, height as int, radius as int),
{
    let ghost tm = *texture_manager;
    assert(-0x4000_0000 <= hit.distance as i64 * cos_offset <= 0x4000_0000) by (nonlinear_arith)
        requires 0 <= hit.distance <= MAX_STEPS, -FIX <= cos_offset <= FIX;
    let corrected: i64 = hit.distance as i64 * cos_offset;
    let eff: i64 = if corrected < FIX { FIX } else { corrected };
    let hh: i64 = (height / 2) as i64;
    proof {
        lemma_strip_bounds(hh as int, corrected as int);
    }
    let sh: i64 = ((hh * WALL_SCALE * FIX) as u64 / eff as u64) as i64;
    let top: i64 = hh - sh / 2;
    let bottom: i64 = hh + sh / 2;
    let start: i64 = if top < 0 { 0 } else { top };
    let end: i64 = if bottom < height as i64 { bottom } else { height as i64 };
    let (_, tex_height) = texture_manager.dimensions(hit.impact);
    let ghost spec_col = wall_column(tm, hit, cos_offset as int, x as int, width as int, height as int, radius as int);
    let mut pixels: Vec<(u32, Color)> = Vec::new();
    let mut y: i64 = start;
    while y < end
        invariant
            texture_manager.wf(),
            tm == *texture_manager,
            start <= y,
            start >= 0,
            start >= top,
            end <= bottom,
            end <= height,
            y <= end || end < start,
            y == start || y <= end,
            hit.tx < TEXTURE_LIMIT,
            x < width <= SCREEN_LIMIT,
            height <= SCREEN_LIMIT,
            radius <= RADIUS_LIMIT,
            bottom - top <= hh * WALL_SCALE,
            hh <= SCREEN_LIMIT,
            0 < tex_height <= TEXTURE_LIMIT,
            tex_height == tm.dims_of(hit.impact).1,
            top == strip_top(height as int / 2, corrected as int),
            bottom == strip_bottom(height as int / 2, corrected as int),
            hh == height / 2,
            corrected == corrected_distance(hit.distance as int, cos_offset as int),
            pixels@.len() == y - start,
            forall|k: int|
                0 <= k < pixels@.len() ==> #[trigger] pixels@[k] == (
                    (start + k) as u32,
                    wall_pixel(tm, hit, corrected as int, width as int, height as int, x as int, start + k, radius as int),
                ),
        decreases end - y,
    {
        let span: u64 = (bottom - top) as u64;
        assert((y - top) as u64 * tex_height as u64 <= 0x1_0000_0000_0000) by (nonlinear_arith)
            requires 0 <= y - top <= bottom - top, bottom - top <= hh * WALL_SCALE, hh <= SCREEN_LIMIT,
                tex_height <= TEXTURE_LIMIT;
        let num: u64 = (y - top) as u64 * tex_height as u64;
        let ty: u64 = num / span;
        assert(ty < tex_height) by (nonlinear_arith)
            requires ty == num / span, num == (y - top) * tex_height, 0 <= y - top < span, span > 0,
                tex_height > 0;
        let color = texture_manager.get_pixel_color(hit.impact, hit.tx as u32, ty as u32);
        let level = brightness(width, height, x, y as u32, corrected, radius);
        pixels.push((y as u32, shade(color, level)));
        y += 1;
    }
    proof {
        assert(pixels@ =~= spec_col.3);
    }
    Column { x, top, bottom, pixels }
}

} // verus!
