//! The top-down view: occupied cells as filled squares, the camera as a dot,
//! and a fan of traced rays across the field of view.
use vstd::prelude::*;
use crate::camera::{Camera, TrigTable, wrap_angle, wrapped};
use crate::caster::{BLOCK_LIMIT, cast, cast_ray, traced};
use crate::color::Color;
use crate::fixed::FIX;
use crate::framebuffer::{DRAW_LIMIT, Framebuffer, rect_filled, write_pixel};
use crate::grid::{EMPTY, Grid};
use crate::textures::TextureManager;

verus! {

/// Number of rays traced across the field of view in the top-down view.
pub const OVERHEAD_RAYS: i64 = 20;

/// The color of occupied cells in the top-down view.
pub open spec fn cell_color() -> Color {
    Color { r: 230, g: 41, b: 55, a: 255 }
}

/// Pixels after drawing one cell with corner `(xo, yo)`: an occupied cell is a
/// filled square, an empty one leaves the pixels as they were.
pub open spec fn cell_drawn(p: Seq<Color>, width: int, height: int, xo: int, yo: int, block: int, cell: char) -> Seq<Color> {
    if cell == EMPTY {
        p
    } else {
        rect_filled(p, width, height, xo, yo, block, cell_color(), block)
    }
}

/// Pixels after drawing the first `n` cells of row `j`.
pub open spec fn row_drawn(p: Seq<Color>, width: int, height: int, g: Seq<Seq<char>>, j: int, block: int, n: int) -> Seq<Color>
    decreases n,
{
    if n <= 0 {
        p
    } else {
        cell_drawn(row_drawn(p, width, height, g, j, block, n - 1), width, height, (n - 1) * block, j * block, block, g[j][n - 1])
    }
}

/// Pixels after drawing the first `m` rows of the grid.
pub open spec fn grid_drawn(p: Seq<Color>, width: int, height: int, g: Seq<Seq<char>>, block: int, m: int) -> Seq<Color>
    decreases m,
{
    if m <= 0 {
        p
    } else {
        row_drawn(grid_drawn(p, width, height, g, block, m - 1), width, height, g, m - 1, block, g[m - 1].len() as int)
    }
}

/// The angle of ray `i` of the fan.
pub open spec fn fan_angle(cam: Camera, i: int) -> int {
    wrapped(cam.angle - cam.fov / 2 + cam.fov * i / (OVERHEAD_RAYS as int))
}

/// Pixels after tracing the first `n` rays of the fan.
pub open spec fn fan_drawn(
    p: Seq<Color>,
    width: int,
    height: int,
    g: Seq<Seq<char>>,
    cam: Camera,
    table: TrigTable,
    block: int,
    tm: TextureManager,
    n: int,
) -> Seq<Color>
    decreases n,
{
    if n <= 0 {
        p
    } else {
        let prev = fan_drawn(p, width, height, g, cam, table, block, tm, n - 1);
        let dir = table.direction_of(fan_angle(cam, n - 1));
        match cast(g, cam, dir, block, tm) {
            Ok(hit) => traced(prev, width, height, cam, dir, hit.distance as int),
            Err(_) => prev,
        }
    }
}

/// The grid fits the drawable coordinate range at the given cell size.
pub open spec fn fits_drawing(g: Seq<Seq<char>>, block: int) -> bool {
    &&& g.len() * block <= DRAW_LIMIT
    &&& forall|j: int| 0 <= j < g.len() ==> (#[trigger] g[j]).len() * block <= DRAW_LIMIT
}

/// Draws one cell with corner `(xo, yo)`: an occupied cell as a filled square.
pub fn draw_cell(framebuffer: &mut Framebuffer, xo: usize, yo: usize, block_size: usize, cell: char)
    requires
        old(framebuffer).wf(),
        xo <= DRAW_LIMIT,
        yo <= DRAW_LIMIT,
        block_size <= DRAW_LIMIT,
    ensures
        final(framebuffer).wf(),
        final(framebuffer).width == old(framebuffer).width,
        final(framebuffer).height == old(framebuffer).height,
        final(framebuffer).background == old(framebuffer).background,
        final(framebuffer).pixels@ == cell_drawn(
            old(framebuffer).pixels@,
            old(framebuffer).width as int,
            old(framebuffer).height as int,
            xo as int,
            yo as int,
            block_size as int,
            cell,
        ),
{
    if cell == EMPTY {
        return;
    }
    framebuffer.fill_rect(xo as i32, yo as i32, block_size as i32, block_size as i32, Color::new(230, 41, 55, 255));
}

/// Draws the top-down view: every occupied cell, the camera as a white dot, and
/// a fan of `OVERHEAD_RAYS` rays traced in white up to their hits.
pub fn render_maze(
    framebuffer: &mut Framebuffer,
    maze: &Grid,
    block_size: usize,
    camera: &Camera,
    table: &TrigTable,
    texture_cache: &TextureManager,
)
    requires
        old(framebuffer).wf(),
        0 < block_size <= BLOCK_LIMIT,
        fits_drawing(maze@, block_size as int),
        camera.wf(),
        table.wf(),
        texture_cache.wf(),
    ensures
        final(framebuffer).wf(),
        final(framebuffer).width == old(framebuffer).width,
        final(framebuffer).height == old(framebuffer).height,
        final(framebuffer).background == old(framebuffer).background,
        final(framebuffer).pixels@ == fan_drawn(
            write_pixel(
                grid_drawn(
                    old(framebuffer).pixels@,
                    old(framebuffer).width as int,
                    old(framebuffer).height as int,
                    maze@,
                    block_size as int,
                    maze@.len() as int,
                ),
                old(framebuffer).width as int,
                old(framebuffer).height as int,
                (camera.x as int) / (FIX as int),
                (camera.y as int) / (FIX as int),
                Color { r: 255, g: 255, b: 255, a: 255 },
            ),
            old(framebuffer).width as int,
            old(framebuffer).height as int,
            maze@,
            *camera,
            *table,
            block_size as int,
            *texture_cache,
            OVERHEAD_RAYS as int,
        ),
{
    let ghost w = framebuffer.width as int;
    let ghost h = framebuffer.height as int;
    let ghost g = maze@;
    let ghost bs = block_size as int;
    let mut j: usize = 0;
    while j < maze.rows.len()
        invariant
            0 <= j <= g.len(),
            g == maze@,
            bs == block_size,
            0 < block_size <= BLOCK_LIMIT,
            fits_drawing(g, bs),
            framebuffer.wf(),
            framebuffer.width == old(framebuffer).width,
            framebuffer.height == old(framebuffer).height,
            framebuffer.background == old(framebuffer).background,
            w == framebuffer.width,
            h == framebuffer.height,
            framebuffer.pixels@ == grid_drawn(old(framebuffer).pixels@, w, h, g, bs, j as int),
        decreases g.len() - j,
    {
        let ghost before = framebuffer.pixels@;
        let row = &maze.rows[j];
        assert(row@ == g[j as int]);
        assert(j * block_size <= DRAW_LIMIT) by (nonlinear_arith)
            requires j < g.len(), g.len() * bs <= DRAW_LIMIT, bs == block_size, block_size > 0;
        let mut i: usize = 0;
        while i < row.len()
            invariant
                0 <= i <= row@.len(),
                0 <= j < g.len(),
                g == maze@,
                row@ == g[j as int],
                bs == block_size,
                0 < block_size <= BLOCK_LIMIT,
                j * block_size <= DRAW_LIMIT,
                fits_drawing(g, bs),
                framebuffer.wf(),
                framebuffer.width == old(framebuffer).width,
                framebuffer.height == old(framebuffer).height,
                framebuffer.background == old(framebuffer).background,
                w == framebuffer.width,
                h == framebuffer.height,
                framebuffer.pixels@ == row_drawn(before, w, h, g, j as int, bs, i as int),
            decreases row@.len() - i,
        {
            assert(g[j as int].len() * bs <= DRAW_LIMIT);
            assert(i * block_size <= DRAW_LIMIT) by (nonlinear_arith)
                requires i < row@.len(), row@.len() * bs <= DRAW_LIMIT, bs == block_size, block_size > 0;
            draw_cell(framebuffer, i * block_size, j * block_size, block_size, row[i]);
            i += 1;
        }
        j += 1;
    }
    let px: i32 = (camera.x / FIX) as i32;
    let py: i32 = (camera.y / FIX) as i32;
    framebuffer.set_pixel(px, py, Color::white());
    let ghost base = framebuffer.pixels@;
    let mut k: i64 = 0;
    while k < OVERHEAD_RAYS
        invariant
            0 <= k <= OVERHEAD_RAYS,
            g == maze@,
            bs == block_size,
            0 < block_size <= BLOCK_LIMIT,
            camera.wf(),
            table.wf(),
            texture_cache.wf(),
            framebuffer.wf(),
            framebuffer.width == old(framebuffer).width,
            framebuffer.height == old(framebuffer).height,
            framebuffer.background == old(framebuffer).background,
            w == framebuffer.width,
            h == framebuffer.height,
            framebuffer.pixels@ == fan_drawn(base, w, h, g, *camera, *table, bs, *texture_cache, k as int),
        decreases OVERHEAD_RAYS - k,
    {
        assert(0 <= camera.fov * k <= camera.fov * OVERHEAD_RAYS) by (nonlinear_arith)
            requires 0 <= k <= OVERHEAD_RAYS, camera.fov > 0;
        let a = wrap_angle(camera.angle - camera.fov / 2 + ((camera.fov * k) as u64 / OVERHEAD_RAYS as u64) as i64);
        let dir = table.direction(a);
        cast_ray(framebuffer, maze, camera, dir, block_size, true, texture_cache);
        k += 1;
    }
}

} // verus!
