//! The minimap: a scaled top-down view of the grid and the camera in the
//! top-right corner of the screen, with a short heading line.
use vstd::prelude::*;
use vstd::arithmetic::div_mod::lemma_hoist_over_denominator;
use crate::camera::{Camera, Direction, TrigTable};
use crate::caster::BLOCK_LIMIT;
use crate::color::Color;
use crate::fixed::{COORD_LIMIT, FIX};
use crate::framebuffer::{DRAW_LIMIT, Framebuffer, rect_filled, write_pixel};
use crate::grid::{EMPTY, Grid};
use crate::lighting::SCREEN_LIMIT;
use crate::overhead::fits_drawing;

verus! {

/// The minimap scale is `MINIMAP_NUM / MINIMAP_DEN`.
pub const MINIMAP_NUM: i64 = 15;

pub const MINIMAP_DEN: i64 = 100;

/// Gap between the minimap and the screen edges, in pixels.
pub const BORDER_OFFSET: i64 = 10;

/// Number of points of the heading line; it spans `HEADING_LENGTH` pixels.
pub const HEADING_POINTS: i64 = 15;

pub const HEADING_LENGTH: i64 = 15;

/// A length scaled down to the minimap.
pub open spec fn scaled(v: int) -> int {
    v * MINIMAP_NUM / (MINIMAP_DEN as int)
}

pub open spec fn cell_shade() -> Color {
    Color { r: 100, g: 100, b: 100, a: 180 }
}

pub open spec fn marker_color() -> Color {
    Color { r: 253, g: 249, b: 0, a: 255 }
}

/// Screen column of the minimap's left edge.
pub open spec fn origin_x(window_width: int, g: Seq<Seq<char>>, block: int) -> int {
    window_width - scaled(g[0].len() * block) - BORDER_OFFSET
}

/// Pixels after drawing the first `n` cells of row `j` on the minimap.
pub open spec fn mini_row_drawn(
    p: Seq<Color>,
    width: int,
    height: int,
    g: Seq<Seq<char>>,
    block: int,
    ox: int,
    j: int,
    n: int,
) -> Seq<Color>
    decreases n,
{
    if n <= 0 {
        p
    } else {
        let prev = mini_row_drawn(p, width, height, g, block, ox, j, n - 1);
        if g[j][n - 1] == EMPTY {
            prev
        } else {
            rect_filled(
                prev,
                width,
                height,
                ox + scaled((n - 1) * block),
                BORDER_OFFSET + scaled(j * block),
                scaled(block),
                cell_shade(),
                scaled(block),
            )
        }
    }
}

/// Pixels after drawing the first `m` rows of the grid on the minimap.
pub open spec fn mini_grid_drawn(
    p: Seq<Color>,
    width: int,
    height: int,
    g: Seq<Seq<char>>,
    block: int,
    ox: int,
    m: int,
) -> Seq<Color>
    decreases m,
{
    if m <= 0 {
        p
    } else {
        mini_row_drawn(
            mini_grid_drawn(p, width, height, g, block, ox, m - 1),
            width,
            height,
            g,
            block,
            ox,
            m - 1,
            g[m - 1].len() as int,
        )
    }
}

/// Offset of point `i` of the heading line along one axis.
pub open spec fn heading_offset(component: int, i: int) -> int {
    HEADING_LENGTH * component * i / ((HEADING_POINTS - 1) * FIX)
}

/// Pixels after drawing the first `n` points of the heading line from `(mx, my)`.
pub open spec fn heading_drawn(p: Seq<Color>, width: int, height: int, mx: int, my: int, dir: Direction, n: int) -> Seq<Color>
    decreases n,
{
    if n <= 0 {
        p
    } else {
        write_pixel(
            heading_drawn(p, width, height, mx, my, dir, n - 1),
            width,
            height,
            mx + heading_offset(dir.dx as int, n - 1),
            my + heading_offset(dir.dy as int, n - 1),
            marker_color(),
        )
    }
}

proof fn lemma_scaled_bounds(v: int)
    requires
        0 <= v <= DRAW_LIMIT,
    ensures
        0 <= scaled(v) <= DRAW_LIMIT / 4,
{
    assert(0 <= v * MINIMAP_NUM / (MINIMAP_DEN as int) <= DRAW_LIMIT / 4) by (nonlinear_arith)
        requires 0 <= v <= DRAW_LIMIT;
}

proof fn lemma_marker_bounds(v: int)
    requires
        0 <= v <= COORD_LIMIT,
    ensures
        0 <= scaled(v) / (FIX as int) <= 0x100_0000,
{
    assert(0 <= v * MINIMAP_NUM / (MINIMAP_DEN as int) / (FIX as int) <= 0x100_0000) by (nonlinear_arith)
        requires 0 <= v <= COORD_LIMIT;
}

/// Draws the minimap in the top-right corner of a screen `window_width` wide:
/// occupied cells as gray squares, the camera as a yellow 5 × 5 square, and a
/// yellow line along its heading.
pub fn render_minimap(
    framebuffer: &mut Framebuffer,
    maze: &Grid,
    camera: &Camera,
    table: &TrigTable,
    block_size: usize,
    window_width: i32,
)
    requires
        old(framebuffer).wf(),
        0 < maze@.len(),
        0 < block_size <= BLOCK_LIMIT,
        fits_drawing(maze@, block_size as int),
        camera.wf(),
        table.wf(),
        0 <= window_width <= SCREEN_LIMIT,
    ensures
        final(framebuffer).wf(),
        final(framebuffer).width == old(framebuffer).width,
        final(framebuffer).height == old(framebuffer).height,
        final(framebuffer).background == old(framebuffer).background,
        ({
            let w = old(framebuffer).width as int;
            let h = old(framebuffer).height as int;
            let ox = origin_x(window_width as int, maze@, block_size as int);
            let mx = ox + scaled(camera.x as int) / (FIX as int);
            let my = BORDER_OFFSET + scaled(camera.y as int) / (FIX as int);
            let cells = mini_grid_drawn(old(framebuffer).pixels@, w, h, maze@, block_size as int, ox, maze@.len() as int);
            let marked = rect_filled(cells, w, h, mx - 2, my - 2, 5, marker_color(), 5);
            final(framebuffer).pixels@ == heading_drawn(
                marked,
                w,
                h,
                mx,
                my,
                table.direction_of(camera.angle as int),
                HEADING_POINTS as int,
            )
        }),
{
    let ghost w = framebuffer.width as int;
    let ghost h = framebuffer.height as int;
    let ghost g = maze@;
    let ghost bs = block_size as int;
    let bsi: i64 = block_size as i64;
    let first = &maze.rows[0];
    assert(first@ == g[0]);
    assert(g[0].len() * bs <= DRAW_LIMIT);
    let span: i64 = (first.len() * block_size) as i64;
    let map_width: i64 = span * MINIMAP_NUM / MINIMAP_DEN;
    proof {
        lemma_scaled_bounds(span as int);
    }
    let ox: i64 = window_width as i64 - map_width - BORDER_OFFSET;
    let cell_size: i64 = bsi * MINIMAP_NUM / MINIMAP_DEN;
    let mut j: usize = 0;
    while j < maze.rows.len()
        invariant
            0 <= j <= g.len(),
            g == maze@,
            bs == block_size,
            bsi == block_size,
            0 < block_size <= BLOCK_LIMIT,
            fits_drawing(g, bs),
            ox == origin_x(window_width as int, g, bs),
            -DRAW_LIMIT / 2 <= ox <= SCREEN_LIMIT,
            cell_size == scaled(bs),
            framebuffer.wf(),
            framebuffer.width == old(framebuffer).width,
            framebuffer.height == old(framebuffer).height,
            framebuffer.background == old(framebuffer).background,
            w == framebuffer.width,
            h == framebuffer.height,
            framebuffer.pixels@ == mini_grid_drawn(old(framebuffer).pixels@, w, h, g, bs, ox as int, j as int),
        decreases g.len() - j,
    {
        let ghost before = framebuffer.pixels@;
        let row = &maze.rows[j];
        assert(row@ == g[j as int]);
        assert(j * bsi <= DRAW_LIMIT) by (nonlinear_arith)
            requires j < g.len(), g.len() * bs <= DRAW_LIMIT, bs == bsi, bsi > 0;
        let jb: i64 = (j * block_size) as i64;
        let ry: i64 = BORDER_OFFSET + jb * MINIMAP_NUM / MINIMAP_DEN;
        proof {
            lemma_scaled_bounds(jb as int);
        }
        let mut i: usize = 0;
        while i < row.len()
            invariant
                0 <= i <= row@.len(),
                0 <= j < g.len(),
                g == maze@,
                row@ == g[j as int],
                bs == block_size,
                bsi == block_size,
                0 < block_size <= BLOCK_LIMIT,
                j * bsi <= DRAW_LIMIT,
                ry == BORDER_OFFSET + scaled(j * bs),
                fits_drawing(g, bs),
                -DRAW_LIMIT / 2 <= ox <= SCREEN_LIMIT,
                cell_size == scaled(bs),
                framebuffer.wf(),
                framebuffer.width == old(framebuffer).width,
                framebuffer.height == old(framebuffer).height,
                framebuffer.background == old(framebuffer).background,
                w == framebuffer.width,
                h == framebuffer.height,
                framebuffer.pixels@ == mini_row_drawn(before, w, h, g, bs, ox as int, j as int, i as int),
            decreases row@.len() - i,
        {
            assert(g[j as int].len() * bs <= DRAW_LIMIT);
            assert(i * bsi <= DRAW_LIMIT) by (nonlinear_arith)
                requires i < row@.len(), row@.len() * bs <= DRAW_LIMIT, bs == bsi, bsi > 0;
            if row[i] != EMPTY {
                let ib: i64 = (i * block_size) as i64;
                let rx: i64 = ox + ib * MINIMAP_NUM / MINIMAP_DEN;
                proof {
                    lemma_scaled_bounds(bsi as int);
                    lemma_scaled_bounds(ib as int);
                }
                framebuffer.fill_rect(
                    rx as i32,
                    ry as i32,
                    cell_size as i32,
                    cell_size as i32,
                    Color::new(100, 100, 100, 180),
                );
            }
            i += 1;
        }
        j += 1;
    }
    proof {
        lemma_marker_bounds(camera.x as int);
        lemma_marker_bounds(camera.y as int);
    }
    let mx: i64 = ox + camera.x * MINIMAP_NUM / MINIMAP_DEN / FIX;
    let my: i64 = BORDER_OFFSET + camera.y * MINIMAP_NUM / MINIMAP_DEN / FIX;
    framebuffer.fill_rect((mx - 2) as i32, (my - 2) as i32, 5, 5, Color::new(253, 249, 0, 255));
    let dir = table.direction(camera.angle);
    let ghost marked = framebuffer.pixels@;
    let den: i64 = (HEADING_POINTS - 1) * FIX;
    let mut k: i64 = 0;
    while k < HEADING_POINTS
        invariant
            0 <= k <= HEADING_POINTS,
            den == (HEADING_POINTS - 1) * FIX,
            dir.wf(),
            -DRAW_LIMIT / 2 <= mx <= DRAW_LIMIT / 2,
            -DRAW_LIMIT / 2 <= my <= DRAW_LIMIT / 2,
            framebuffer.wf(),
            framebuffer.width == old(framebuffer).width,
            framebuffer.height == old(framebuffer).height,
            framebuffer.background == old(framebuffer).background,
            w == framebuffer.width,
            h == framebuffer.height,
            framebuffer.pixels@ == heading_drawn(marked, w, h, mx as int, my as int, dir, k as int),
        decreases HEADING_POINTS - k,
    {
        assert(-HEADING_LENGTH * den <= HEADING_LENGTH * dir.dx * k <= HEADING_LENGTH * den) by (nonlinear_arith)
            requires 0 <= k < HEADING_POINTS, -FIX <= dir.dx <= FIX, den == (HEADING_POINTS - 1) * FIX;
        assert(-HEADING_LENGTH * den <= HEADING_LENGTH * dir.dy * k <= HEADING_LENGTH * den) by (nonlinear_arith)
            requires 0 <= k < HEADING_POINTS, -FIX <= dir.dy <= FIX, den == (HEADING_POINTS - 1) * FIX;
        let nx: i64 = HEADING_LENGTH * dir.dx * k;
        let ny: i64 = HEADING_LENGTH * dir.dy * k;
        proof {
            lemma_hoist_over_denominator(nx as int, HEADING_LENGTH as int, den as nat);
            lemma_hoist_over_denominator(ny as int, HEADING_LENGTH as int, den as nat);
            assert(heading_offset(dir.dx as int, k as int) == (nx as int) / (den as int));
            assert(-HEADING_LENGTH <= (nx as int) / (den as int) <= HEADING_LENGTH) by (nonlinear_arith)
                requires -HEADING_LENGTH * den <= nx <= HEADING_LENGTH * den, den > 0;
            assert(-HEADING_LENGTH <= (ny as int) / (den as int) <= HEADING_LENGTH) by (nonlinear_arith)
                requires -HEADING_LENGTH * den <= ny <= HEADING_LENGTH * den, den > 0;
            assert(heading_offset(dir.dy as int, k as int) == (ny as int) / (den as int));
        }
        let sx: u64 = (nx + HEADING_LENGTH * den) as u64;
        let sy: u64 = (ny + HEADING_LENGTH * den) as u64;
        let qx: i64 = (sx / den as u64) as i64 - HEADING_LENGTH;
        let qy: i64 = (sy / den as u64) as i64 - HEADING_LENGTH;
        framebuffer.set_pixel((mx + qx) as i32, (my + qy) as i32, Color::new(253, 249, 0, 255));
        k += 1;
    }
}

} // verus!
