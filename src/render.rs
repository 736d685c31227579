//! The frame compositor: projects every screen column in parallel, then
//! writes the columns into the framebuffer on the calling thread.
use vstd::prelude::*;
use rayon::iter::{IntoParallelIterator, ParallelIterator};
use crate::camera::{Camera, TrigTable, wrap_angle, wrapped};
use crate::caster::{BLOCK_LIMIT, cast, cast_ray_intersect};
use crate::color::Color;
use crate::fixed::{QUARTER_TURN, HALF_TURN};
use crate::framebuffer::{Framebuffer, write_pixel};
use crate::grid::Grid;
use crate::lighting::{RADIUS_LIMIT, SCREEN_LIMIT};
use crate::projector::{Column, project_column, wall_column};
use crate::textures::TextureManager;

verus! {

/// Angle of the ray of screen column `i` relative to the facing direction: the
/// field of view spread evenly over the columns, from `-fov / 2` on.
pub open spec fn ray_offset(cam: Camera, i: int, width: int) -> int {
    cam.fov * i / width - cam.fov / 2
}

/// What screen column `i` shows: the strip of the wall that its ray hits, or
/// nothing when the ray finds no wall.
pub open spec fn screen_column(
    g: Seq<Seq<char>>,
    cam: Camera,
    table: TrigTable,
    block: int,
    tm: TextureManager,
    i: int,
    width: int,
    height: int,
    radius: int,
) -> (u32, i64, i64, Seq<(u32, Color)>) {
    let off = ray_offset(cam, i, width);
    let dir = table.direction_of(wrapped(cam.angle + off));
    match cast(g, cam, dir, block, tm) {
        Ok(hit) => wall_column(tm, hit, table.sines@[wrapped(off + QUARTER_TURN)] as int, i, width, height, radius),
        Err(_) => (i as u32, (height / 2) as i64, (height / 2) as i64, Seq::empty()),
    }
}

/// Pixels after writing the first `n` pixels of a strip in screen column `x`.
pub open spec fn blit_strip(
    pixels: Seq<Color>,
    width: int,
    height: int,
    x: int,
    strip: Seq<(u32, Color)>,
    n: int,
) -> Seq<Color>
    decreases n,
{
    if n <= 0 {
        pixels
    } else {
        write_pixel(
            blit_strip(pixels, width, height, x, strip, n - 1),
            width,
            height,
            x,
            strip[n - 1].0 as int,
            strip[n - 1].1,
        )
    }
}

/// Pixels after writing the first `n` columns, one after another.
pub open spec fn blit_frame(
    pixels: Seq<Color>,
    width: int,
    height: int,
    cols: Seq<(u32, i64, i64, Seq<(u32, Color)>)>,
    n: int,
) -> Seq<Color>
    decreases n,
{
    if n <= 0 {
        pixels
    } else {
        let c = cols[n - 1];
        blit_strip(blit_frame(pixels, width, height, cols, n - 1), width, height, c.0 as int, c.3, c.3.len() as int)
    }
}

/// A screen column lies in its own column and its rows on the screen.
pub proof fn lemma_screen_column_bounds(
    g: Seq<Seq<char>>,
    cam: Camera,
    table: TrigTable,
    block: int,
    tm: TextureManager,
    i: int,
    width: int,
    height: int,
    radius: int,
)
    requires
        0 <= i < width <= SCREEN_LIMIT,
        0 <= height <= SCREEN_LIMIT,
    ensures
        screen_column(g, cam, table, block, tm, i, width, height, radius).0 == i,
        forall|k: int|
            0 <= k < screen_column(g, cam, table, block, tm, i, width, height, radius).3.len() ==> (
            #[trigger] screen_column(g, cam, table, block, tm, i, width, height, radius).3[k]).0 < height,
{
}

/// Projects screen column `i`: casts its ray and turns the hit into a strip.
pub fn render_column(
    maze: &Grid,
    camera: &Camera,
    table: &TrigTable,
    block_size: usize,
    texture_manager: &TextureManager,
    i: u32,
    width: u32,
    height: u32,
    radius: u32,
) -> (c: Column)
    requires
        camera.wf(),
        table.wf(),
        0 < block_size <= BLOCK_LIMIT,
        texture_manager.wf(),
        i < width <= SCREEN_LIMIT,
        height <= SCREEN_LIMIT,
        radius <= RADIUS_LIMIT,
    ensures
        c@ == screen_column(
            maze@,
            *camera,
            *table,
            block_size as int,
            *texture_manager,
            i as int,
            width as int,
            height as int,
            radius as int,
        ),
{
    assert((camera.fov as int) * (i as int) <= 0x4000_0000) by (nonlinear_arith)
        requires i < width <= SCREEN_LIMIT, 0 <= camera.fov < HALF_TURN;
    let prod: u64 = camera.fov as u64 * i as u64;
    assert((prod as int) / (width as int) <= camera.fov) by (nonlinear_arith)
        requires prod == (camera.fov as int) * (i as int), i < width, camera.fov >= 0;
    let spread: i64 = (prod / width as u64) as i64;
    let offset: i64 = spread - camera.fov / 2;
    let a = wrap_angle(camera.angle + offset);
    let dir = table.direction(a);
    match cast_ray_intersect(maze, camera, dir, block_size, texture_manager) {
        Ok(hit) => {
            let cos_offset = table.cosine(offset);
            project_column(texture_manager, hit, cos_offset, i, width, height, radius)
        },
        Err(_) => {
            let hh: i64 = (height / 2) as i64;
            let c = Column { x: i, top: hh, bottom: hh, pixels: Vec::new() };
            assert(c@.3 =~= Seq::<(u32, Color)>::empty());
            c
        },
    }
}

/// Relies on rayon's `into_par_iter` over `0..width`, `map` and `collect`: the
/// collected vector holds the mapped value of each index, in index order.
#[verifier::external_body]
fn project_columns(
    maze: &Grid,
    camera: &Camera,
    table: &TrigTable,
    block_size: usize,
    texture_manager: &TextureManager,
    width: u32,
    height: u32,
    radius: u32,
) -> (r: Vec<Column>)
    requires
        camera.wf(),
        table.wf(),
        0 < block_size <= BLOCK_LIMIT,
        texture_manager.wf(),
        width <= SCREEN_LIMIT,
        height <= SCREEN_LIMIT,
        radius <= RADIUS_LIMIT,
    ensures
        r@.len() == width,
        forall|i: int|
            0 <= i < width ==> (#[trigger] r@[i])@ == screen_column(
                maze@,
                *camera,
                *table,
                block_size as int,
                *texture_manager,
                i,
                width as int,
                height as int,
                radius as int,
            ),
{
    (0..width).into_par_iter().map(
        |i| render_column(maze, camera, table, block_size, texture_manager, i, width, height, radius),
    ).collect()
}

/// Renders the walls of the first-person view: one ray per screen column,
/// projected in parallel, then written column by column into the framebuffer.
pub fn render_3d(
    framebuffer: &mut Framebuffer,
    maze: &Grid,
    block_size: usize,
    camera: &Camera,
    table: &TrigTable,
    texture_cache: &TextureManager,
    flashlight_radius: u32,
)
    requires
        old(framebuffer).wf(),
        camera.wf(),
        table.wf(),
        0 < block_size <= BLOCK_LIMIT,
        texture_cache.wf(),
        flashlight_radius <= RADIUS_LIMIT,
    ensures
        final(framebuffer).wf(),
        final(framebuffer).width == old(framebuffer).width,
        final(framebuffer).height == old(framebuffer).height,
        final(framebuffer).background == old(framebuffer).background,
        final(framebuffer).pixels@ == blit_frame(
            old(framebuffer).pixels@,
            old(framebuffer).width as int,
            old(framebuffer).height as int,
            Seq::new(
                old(framebuffer).width as nat,
                |i: int|
                    screen_column(
                        maze@,
                        *camera,
                        *table,
                        block_size as int,
                        *texture_cache,
                        i,
                        old(framebuffer).width as int,
                        old(framebuffer).height as int,
                        flashlight_radius as int,
                    ),
            ),
            old(framebuffer).width as int,
        ),
{
    let width: u32 = framebuffer.width as u32;
    let height: u32 = framebuffer.height as u32;
    let columns = project_columns(maze, camera, table, block_size, texture_cache, width, height, flashlight_radius);
    let ghost cols = Seq::new(
        width as nat,
        |i: int|
            screen_column(
                maze@,
                *camera,
                *table,
                block_size as int,
                *texture_cache,
                i,
                width as int,
                height as int,
                flashlight_radius as int,
            ),
    );
    let ghost start = framebuffer.pixels@;
    proof {
        assert forall|k: int| 0 <= k < width implies (#[trigger] cols[k]).0 == k && forall|j: int|
            0 <= j < cols[k].3.len() ==> (#[trigger] cols[k].3[j]).0 < height by {
            lemma_screen_column_bounds(
                maze@,
                *camera,
                *table,
                block_size as int,
                *texture_cache,
                k,
                width as int,
                height as int,
                flashlight_radius as int,
            );
        }
    }
    let mut i: usize = 0;
    while i < columns.len()
        invariant
            0 <= i <= columns@.len(),
            columns@.len() == width,
            width == old(framebuffer).width,
            height == old(framebuffer).height,
            start == old(framebuffer).pixels@,
            cols.len() == width,
            forall|k: int| 0 <= k < width ==> (#[trigger] columns@[k])@ == cols[k],
            forall|k: int| 0 <= k < width ==> (#[trigger] cols[k]).0 == k && forall|j: int|
                0 <= j < cols[k].3.len() ==> (#[trigger] cols[k].3[j]).0 < height,
            width <= SCREEN_LIMIT,
            height <= SCREEN_LIMIT,
            framebuffer.wf(),
            framebuffer.width == old(framebuffer).width,
            framebuffer.height == old(framebuffer).height,
            framebuffer.background == old(framebuffer).background,
            framebuffer.pixels@ == blit_frame(start, width as int, height as int, cols, i as int),
        decreases columns@.len() - i,
    {
        let col = &columns[i];
        assert(col@ == cols[i as int]);
        assert forall|j: int| 0 <= j < col.pixels@.len() implies (#[trigger] col.pixels@[j]).0 < height by {
            assert(cols[i as int].3[j] == col.pixels@[j]);
        }
        let ghost before = framebuffer.pixels@;
        let mut k: usize = 0;
        while k < col.pixels.len()
            invariant
                0 <= k <= col.pixels@.len(),
                col@ == cols[i as int],
                col.x == i,
                i < width <= SCREEN_LIMIT,
                height <= SCREEN_LIMIT,
                forall|j: int| 0 <= j < col.pixels@.len() ==> (#[trigger] col.pixels@[j]).0 < height,
                framebuffer.wf(),
                framebuffer.width == old(framebuffer).width,
                framebuffer.height == old(framebuffer).height,
                framebuffer.background == old(framebuffer).background,
                width == old(framebuffer).width,
                height == old(framebuffer).height,
                framebuffer.pixels@ == blit_strip(before, width as int, height as int, col.x as int, col.pixels@, k as int),
            decreases col.pixels@.len() - k,
        {
            let (y, c) = col.pixels[k];
            framebuffer.set_pixel(col.x as i32, y as i32, c);
            k += 1;
        }
        i += 1;
    }
}

} // verus!
