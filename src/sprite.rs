//! The sprite billboard renderer: culls an entity by angle and distance, then
//! draws it as a camera-facing textured square, lit by the flashlight.
use vstd::prelude::*;
use crate::camera::{Camera, angle_difference, normalize_difference};
use crate::color::Color;
use crate::fixed::{COORD_LIMIT, FIX, HALF_TURN, TURN, is_isqrt, isqrt, lemma_isqrt_unique};
use crate::framebuffer::{Framebuffer, write_pixel};
use crate::lighting::{
    brightness, center_distance, light_level, shade, shaded, RADIUS_LIMIT, SCREEN_LIMIT,
};
use crate::textures::{TextureManager, TEXTURE_LIMIT};

verus! {

/// Scale of a sprite's size relative to the screen height.
pub const SPRITE_SCALE: i64 = 70;

/// Nearest distance, in grid-pixel units, at which a sprite is drawn.
pub const SPRITE_NEAR: i64 = 20;

/// Farthest distance, in grid-pixel units, at which a sprite is drawn.
pub const SPRITE_FAR: i64 = 400;

/// A point entity drawn as a billboard: a fixed-point position and a texture tag.
#[derive(Clone, Copy, Debug, PartialEq, Eq, Structural)]
pub struct Sprite {
    pub x: i64,
    pub y: i64,
    pub texture: char,
}

impl Sprite {
    pub open spec fn wf(&self) -> bool {
        0 <= self.x <= COORD_LIMIT && 0 <= self.y <= COORD_LIMIT
    }
}

/// Where a visible sprite lands on the screen: its fixed-point distance, its
/// size in pixels, and the screen rectangle `[start_x, end_x) × [start_y, end_y)`.
#[derive(Clone, Copy, Debug, PartialEq, Eq, Structural)]
pub struct SpriteLayout {
    pub dist: i64,
    pub size: i64,
    pub start_x: i64,
    pub start_y: i64,
    pub end_x: i64,
    pub end_y: i64,
}

/// An angular difference lies in the view when it is at most half the field of
/// view either way.
pub open spec fn in_view(diff: int, fov: int) -> bool {
    -fov <= 2 * diff <= fov
}

/// A fixed-point distance lies in the visible band.
pub open spec fn in_band(dist: int) -> bool {
    SPRITE_NEAR * FIX <= dist <= SPRITE_FAR * FIX
}

/// The fixed-point straight-line distance from the camera to the sprite.
pub open spec fn sprite_distance(cam: Camera, s: Sprite) -> int {
    let dx = s.x - cam.x;
    let dy = s.y - cam.y;
    choose|r: int| #[trigger] is_isqrt(dx * dx + dy * dy, r)
}

pub open spec fn max0(v: int) -> int {
    if v < 0 {
        0
    } else {
        v
    }
}

pub open spec fn min_of(a: int, b: int) -> int {
    if a < b {
        a
    } else {
        b
    }
}

/// The layout of a sprite seen at angle `bearing` from the camera on a
/// `width` × `height` screen; `None` when it is culled.
pub open spec fn layout_of(cam: Camera, s: Sprite, bearing: int, width: int, height: int) -> Option<SpriteLayout> {
    let diff = angle_difference(bearing, cam.angle as int);
    let dist = sprite_distance(cam, s);
    if !in_view(diff, cam.fov as int) || !in_band(dist) {
        None
    } else {
        let size = height * SPRITE_SCALE * FIX / dist;
        let center_x = (2 * diff + cam.fov) * width / (2 * cam.fov);
        let start_x = max0(center_x - size / 2);
        let start_y = max0(height / 2 - size / 2);
        Some(
            SpriteLayout {
                dist: dist as i64,
                size: size as i64,
                start_x: start_x as i64,
                start_y: start_y as i64,
                end_x: min_of(start_x + size, width) as i64,
                end_y: min_of(start_y + size, height) as i64,
            },
        )
    }
}

/// The color a sprite puts at screen pixel `(x, y)` of its rectangle, or
/// `None` where its texel is fully transparent (alpha zero).
pub open spec fn sprite_texel(
    tm: TextureManager,
    tag: char,
    l: SpriteLayout,
    width: int,
    height: int,
    x: int,
    y: int,
    radius: int,
) -> Option<Color> {
    let dims = tm.dims_of(tag);
    let c = tm.sample(tag, (x - l.start_x) * dims.0 / (l.size as int), (y - l.start_y) * dims.1 / (l.size as int));
    if c.a == 0 {
        None
    } else {
        Some(shaded(c, light_level(center_distance(width, height, x, y), l.dist as int, radius)))
    }
}

/// Pixels after drawing the first `n` rows of screen column `x` of a sprite.
pub open spec fn draw_rows(
    p: Seq<Color>,
    tm: TextureManager,
    tag: char,
    l: SpriteLayout,
    width: int,
    height: int,
    radius: int,
    x: int,
    n: int,
) -> Seq<Color>
    decreases n,
{
    if n <= 0 {
        p
    } else {
        let prev = draw_rows(p, tm, tag, l, width, height, radius, x, n - 1);
        let y = l.start_y + n - 1;
        match sprite_texel(tm, tag, l, width, height, x, y, radius) {
            Some(c) => write_pixel(prev, width, height, x, y, c),
            None => prev,
        }
    }
}

/// Pixels after drawing the first `n` screen columns of a sprite.
pub open spec fn draw_columns(
    p: Seq<Color>,
    tm: TextureManager,
    tag: char,
    l: SpriteLayout,
    width: int,
    height: int,
    radius: int,
    n: int,
) -> Seq<Color>
    decreases n,
{
    if n <= 0 {
        p
    } else {
        draw_rows(
            draw_columns(p, tm, tag, l, width, height, radius, n - 1),
            tm,
            tag,
            l,
            width,
            height,
            radius,
            l.start_x + n - 1,
            l.end_y - l.start_y,
        )
    }
}

/// Pixels after drawing a sprite seen at angle `bearing`.
pub open spec fn sprite_drawn(
    p: Seq<Color>,
    cam: Camera,
    s: Sprite,
    bearing: int,
    tm: TextureManager,
    width: int,
    height: int,
    radius: int,
) -> Seq<Color> {
    match layout_of(cam, s, bearing, width, height) {
        None => p,
        Some(l) => draw_columns(p, tm, s.texture, l, width, height, radius, l.end_x - l.start_x),
    }
}

/// Culling at the edge of the view: a sprite whose angular difference from the
/// facing direction exceeds half the field of view is never drawn, and one
/// within half the field of view is drawn whenever its distance lies in the
/// visible band.
pub proof fn lemma_cull_at_view_edge(cam: Camera, s: Sprite, d: int, width: int, height: int)
    requires
        cam.wf(),
        -HALF_TURN < d <= HALF_TURN,
    ensures
        (2 * d > cam.fov || 2 * d < -cam.fov) ==> layout_of(cam, s, cam.angle + d, width, height) is None,
        (-cam.fov <= 2 * d <= cam.fov && in_band(sprite_distance(cam, s))) ==> layout_of(
            cam,
            s,
            cam.angle + d,
            width,
            height,
        ) is Some,
{
    if d < 0 {
        assert((d + TURN) % (TURN as int) == d + TURN);
        assert(d % (TURN as int) == d + TURN) by {
            vstd::arithmetic::div_mod::lemma_mod_add_multiples_vanish(d, TURN as int);
        }
    } else {
        assert(d % (TURN as int) == d);
    }
    assert(angle_difference(cam.angle + d, cam.angle as int) == d);
}

/// A sprite straight behind the camera is culled whatever the field of view.
pub proof fn lemma_behind_is_culled(cam: Camera, s: Sprite, width: int, height: int)
    requires
        cam.wf(),
    ensures
        layout_of(cam, s, cam.angle + HALF_TURN, width, height) is None,
        layout_of(cam, s, cam.angle - HALF_TURN, width, height) is None,
{
    assert(angle_difference(cam.angle + HALF_TURN, cam.angle as int) == HALF_TURN);
    assert(angle_difference(cam.angle - HALF_TURN, cam.angle as int) == HALF_TURN);
}

/// Computes where a sprite seen at angle `bearing` from the camera lands on a
/// `width` × `height` screen; `None` when it lies outside the field of view or
/// the visible distance band.
pub fn sprite_layout(camera: &Camera, sprite: &Sprite, bearing: i64, width: u32, height: u32) -> (r: Option<SpriteLayout>)
    requires
        camera.wf(),
        sprite.wf(),
        -4 * TURN <= bearing <= 4 * TURN,
        width <= SCREEN_LIMIT,
        height <= SCREEN_LIMIT,
    ensures
        r == layout_of(*camera, *sprite, bearing as int, width as int, height as int),
        r matches Some(l) ==> 0 <= l.start_x <= l.end_x <= width && 0 <= l.start_y <= l.end_y <= height
            && l.end_x - l.start_x <= l.size && l.end_y - l.start_y <= l.size && 0 < l.dist && 0 <= l.size
            <= SCREEN_LIMIT * SPRITE_SCALE,
{
    let diff = normalize_difference(bearing, camera.angle);
    let fov = camera.fov;
    if 2 * diff > fov || 2 * diff < -fov {
        return None;
    }
    let dx: i64 = sprite.x - camera.x;
    let dy: i64 = sprite.y - camera.y;
    assert(0 <= dx * dx <= 0x1000_0000_0000_0000 && 0 <= dy * dy <= 0x1000_0000_0000_0000) by (nonlinear_arith)
        requires -COORD_LIMIT <= dx <= COORD_LIMIT, -COORD_LIMIT <= dy <= COORD_LIMIT;
    let sq: u64 = (dx * dx + dy * dy) as u64;
    let dist: u64 = isqrt(sq);
    proof {
        let r = sprite_distance(*camera, *sprite);
        assert(is_isqrt(sq as int, dist as int));
        assert(is_isqrt(sq as int, r));
        lemma_isqrt_unique(sq as int, r, dist as int);
    }
    if dist < (SPRITE_NEAR * FIX) as u64 || dist > (SPRITE_FAR * FIX) as u64 {
        return None;
    }
    let h: u64 = height as u64;
    let w: u64 = width as u64;
    let size: u64 = h * (SPRITE_SCALE * FIX) as u64 / dist;
    assert(size <= h * SPRITE_SCALE) by (nonlinear_arith)
        requires (size as int) == (h as int) * (SPRITE_SCALE * FIX) / (dist as int), dist >= SPRITE_NEAR * FIX;
    assert(0 <= (2 * diff + fov) * w <= 0x1_0000_0000) by (nonlinear_arith)
        requires 0 <= 2 * diff + fov <= 2 * fov, fov < HALF_TURN, 0 <= w <= SCREEN_LIMIT;
    let num: u64 = (2 * diff + fov) as u64 * w;
    assert(num as int <= 2 * fov * w) by (nonlinear_arith)
        requires num == (2 * diff + fov) * w, 2 * diff <= fov, w >= 0;
    let center_x: u64 = num / (2 * fov) as u64;
    assert(center_x <= w) by (nonlinear_arith)
        requires (center_x as int) == (num as int) / (2 * (fov as int)), num <= 2 * fov * w, fov > 0;
    let half: u64 = size / 2;
    let start_x: u64 = if center_x < half { 0 } else { center_x - half };
    let start_y: u64 = if h / 2 < half { 0 } else { h / 2 - half };
    let end_x: u64 = if start_x + size < w { start_x + size } else { w };
    let end_y: u64 = if start_y + size < h { start_y + size } else { h };
    Some(
        SpriteLayout {
            dist: dist as i64,
            size: size as i64,
            start_x: start_x as i64,
            start_y: start_y as i64,
            end_x: end_x as i64,
            end_y: end_y as i64,
        },
    )
}

proof fn lemma_scaled_index(o: int, size: int, extent: int)
    requires
        0 <= o < size,
        0 < extent,
    ensures
        0 <= o * extent / size < extent,
{
    assert(o * extent < size * extent) by (nonlinear_arith)
        requires 0 <= o < size, 0 < extent;
    assert(0 <= o * extent) by (nonlinear_arith)
        requires 0 <= o, 0 < extent;
    vstd::arithmetic::div_mod::lemma_div_pos_is_pos(o * extent, size);
    vstd::arithmetic::div_mod::lemma_div_is_ordered(o * extent, size * extent - 1, size);
    assert((size * extent - 1) / size < extent) by (nonlinear_arith)
        requires 0 < size, 0 < extent;
}

/// Draws a sprite seen at angle `bearing` from the camera: culled by angle and
/// distance, else a square of its texture centered on its screen column, lit by
/// the flashlight, with fully transparent texels (alpha zero) skipped.
pub fn draw_generic_sprite(
    framebuffer: &mut Framebuffer,
    camera: &Camera,
    sprite: &Sprite,
    bearing: i64,
    texture_manager: &TextureManager,
    flashlight_radius: u32,
)
    requires
        old(framebuffer).wf(),
        camera.wf(),
        sprite.wf(),
        -4 * TURN <= bearing <= 4 * TURN,
        texture_manager.wf(),
        flashlight_radius <= RADIUS_LIMIT,
    ensures
        final(framebuffer).wf(),
        final(framebuffer).width == old(framebuffer).width,
        final(framebuffer).height == old(framebuffer).height,
        final(framebuffer).background == old(framebuffer).background,
        final(framebuffer).pixels@ == sprite_drawn(
            old(framebuffer).pixels@,
            *camera,
            *sprite,
            bearing as int,
            *texture_manager,
            old(framebuffer).width as int,
            old(framebuffer).height as int,
            flashlight_radius as int,
        ),
{
    let width: u32 = framebuffer.width as u32;
    let height: u32 = framebuffer.height as u32;
    let l = match sprite_layout(camera, sprite, bearing, width, height) {
        None => {
            return;
        },
        Some(l) => l,
    };
    let ghost tm = *texture_manager;
    let ghost w = width as int;
    let ghost h = height as int;
    let ghost r = flashlight_radius as int;
    let tag = sprite.texture;
    let (tex_width, tex_height) = texture_manager.dimensions(tag);
    let mut x: i64 = l.start_x;
    while x < l.end_x
        invariant
            l.start_x <= x <= l.end_x <= width,
            0 <= l.start_x,
            0 <= l.start_y <= l.end_y <= height,
            l.end_x - l.start_x <= l.size,
            l.end_y - l.start_y <= l.size,
            0 < l.dist,
            l.size <= SCREEN_LIMIT * SPRITE_SCALE,
            width <= SCREEN_LIMIT,
            height <= SCREEN_LIMIT,
            flashlight_radius <= RADIUS_LIMIT,
            texture_manager.wf(),
            tm == *texture_manager,
            w == width,
            h == height,
            r == flashlight_radius,
            tag == sprite.texture,
            (tex_width, tex_height) == tm.dims_of(tag),
            0 < tex_width <= TEXTURE_LIMIT,
            0 < tex_height <= TEXTURE_LIMIT,
            framebuffer.wf(),
            framebuffer.width == old(framebuffer).width,
            framebuffer.height == old(framebuffer).height,
            framebuffer.background == old(framebuffer).background,
            width == framebuffer.width,
            height == framebuffer.height,
            framebuffer.pixels@ == draw_columns(old(framebuffer).pixels@, tm, tag, l, w, h, r, x - l.start_x),
        decreases l.end_x - x,
    {
        let ghost before = framebuffer.pixels@;
        let mut y: i64 = l.start_y;
        while y < l.end_y
            invariant
                l.start_x <= x < l.end_x <= width,
                0 <= l.start_x,
                0 <= l.start_y <= y <= l.end_y <= height,
                l.end_x - l.start_x <= l.size,
                l.end_y - l.start_y <= l.size,
                0 < l.dist,
                l.size <= SCREEN_LIMIT * SPRITE_SCALE,
                width <= SCREEN_LIMIT,
                height <= SCREEN_LIMIT,
                flashlight_radius <= RADIUS_LIMIT,
                texture_manager.wf(),
                tm == *texture_manager,
                w == width,
                h == height,
                r == flashlight_radius,
                tag == sprite.texture,
                (tex_width, tex_height) == tm.dims_of(tag),
                0 < tex_width <= TEXTURE_LIMIT,
                0 < tex_height <= TEXTURE_LIMIT,
                framebuffer.wf(),
                framebuffer.width == old(framebuffer).width,
                framebuffer.height == old(framebuffer).height,
                framebuffer.background == old(framebuffer).background,
                width == framebuffer.width,
                height == framebuffer.height,
                framebuffer.pixels@ == draw_rows(before, tm, tag, l, w, h, r, x as int, y - l.start_y),
            decreases l.end_y - y,
        {
            let size: u64 = l.size as u64;
            let ox: u64 = (x - l.start_x) as u64;
            let oy: u64 = (y - l.start_y) as u64;
            assert(ox * tex_width <= 0x100_0000_0000 && oy * tex_height <= 0x100_0000_0000) by (nonlinear_arith)
                requires ox < size, oy < size, size <= SCREEN_LIMIT * SPRITE_SCALE, tex_width
                    <= TEXTURE_LIMIT, tex_height <= TEXTURE_LIMIT;
            let nx: u64 = ox * tex_width as u64;
            let ny: u64 = oy * tex_height as u64;
            let tx: u64 = nx / size;
            let ty: u64 = ny / size;
            proof {
                lemma_scaled_index(ox as int, size as int, tex_width as int);
                lemma_scaled_index(oy as int, size as int, tex_height as int);
            }
            let color = texture_manager.get_pixel_color(tag, tx as u32, ty as u32);
            if color.a != 0 {
                let level = brightness(width, height, x as u32, y as u32, l.dist, flashlight_radius);
                framebuffer.set_pixel(x as i32, y as i32, shade(color, level));
            }
            y += 1;
        }
        x += 1;
    }
}

/// Pixels after drawing the first `n` sprites, each at its bearing.
pub open spec fn sprites_drawn(
    p: Seq<Color>,
    cam: Camera,
    sprites: Seq<Sprite>,
    bearings: Seq<i64>,
    tm: TextureManager,
    width: int,
    height: int,
    radius: int,
    n: int,
) -> Seq<Color>
    decreases n,
{
    if n <= 0 {
        p
    } else {
        sprite_drawn(
            sprites_drawn(p, cam, sprites, bearings, tm, width, height, radius, n - 1),
            cam,
            sprites[n - 1],
            bearings[n - 1] as int,
            tm,
            width,
            height,
            radius,
        )
    }
}

/// Draws sprites in order, each at the bearing of the same index, every later
/// one over the earlier ones.
pub fn render_sprites(
    framebuffer: &mut Framebuffer,
    camera: &Camera,
    sprites: &Vec<Sprite>,
    bearings: &Vec<i64>,
    texture_manager: &TextureManager,
    flashlight_radius: u32,
)
    requires
        old(framebuffer).wf(),
        camera.wf(),
        sprites@.len() == bearings@.len(),
        forall|i: int| 0 <= i < sprites@.len() ==> (#[trigger] sprites@[i]).wf(),
        forall|i: int| 0 <= i < bearings@.len() ==> -4 * TURN <= #[trigger] bearings@[i] <= 4 * TURN,
        texture_manager.wf(),
        flashlight_radius <= RADIUS_LIMIT,
    ensures
        final(framebuffer).wf(),
        final(framebuffer).width == old(framebuffer).width,
        final(framebuffer).height == old(framebuffer).height,
        final(framebuffer).background == old(framebuffer).background,
        final(framebuffer).pixels@ == sprites_drawn(
            old(framebuffer).pixels@,
            *camera,
            sprites@,
            bearings@,
            *texture_manager,
            old(framebuffer).width as int,
            old(framebuffer).height as int,
            flashlight_radius as int,
            sprites@.len() as int,
        ),
{
    let mut i: usize = 0;
    while i < sprites.len()
        invariant
            0 <= i <= sprites@.len(),
            sprites@.len() == bearings@.len(),
            forall|k: int| 0 <= k < sprites@.len() ==> (#[trigger] sprites@[k]).wf(),
            forall|k: int| 0 <= k < bearings@.len() ==> -4 * TURN <= #[trigger] bearings@[k] <= 4 * TURN,
            camera.wf(),
            texture_manager.wf(),
            flashlight_radius <= RADIUS_LIMIT,
            framebuffer.wf(),
            framebuffer.width == old(framebuffer).width,
            framebuffer.height == old(framebuffer).height,
            framebuffer.background == old(framebuffer).background,
            framebuffer.pixels@ == sprites_drawn(
                old(framebuffer).pixels@,
                *camera,
                sprites@,
                bearings@,
                *texture_manager,
                old(framebuffer).width as int,
                old(framebuffer).height as int,
                flashlight_radius as int,
                i as int,
            ),
        decreases sprites@.len() - i,
    {
        draw_generic_sprite(framebuffer, camera, &sprites[i], bearings[i], texture_manager, flashlight_radius);
        i += 1;
    }
}

} // verus!
