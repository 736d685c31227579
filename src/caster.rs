//! The ray intersection resolver: marches a probe from the camera along a ray
//! in unit steps until it meets an occupied cell.
use vstd::prelude::*;
use vstd::arithmetic::div_mod::{lemma_div_is_ordered, lemma_div_pos_is_pos, lemma_hoist_over_denominator};
use vstd::arithmetic::mul::{lemma_mul_inequality, lemma_mul_strict_inequality};
use crate::camera::{Camera, Direction, near_unit};
use crate::color::Color;
use crate::fixed::FIX;
use crate::framebuffer::{Framebuffer, write_pixel};
use crate::grid::{EMPTY, Grid, cell_at, enclosed};
use crate::textures::TextureManager;

verus! {

/// Most unit steps a ray takes before it is given up.
pub const MAX_STEPS: i64 = 1048576;

/// Largest tile edge length, in grid-pixel units.
pub const BLOCK_LIMIT: usize = 65536;

/// The first occupied cell along a ray.
#[derive(Clone, Copy, Debug, PartialEq, Eq, Structural)]
pub struct Intersect {
    /// Steps (grid-pixel units) from the camera to the hit.
    pub distance: u64,
    /// The tag of the struck cell.
    pub impact: char,
    /// Column of the struck tag's texture.
    pub tx: usize,
}

/// Why a ray found no wall.
#[derive(Clone, Copy, Debug, PartialEq, Eq, Structural)]
pub enum CastError {
    /// The probe left the grid before meeting an occupied cell.
    OutOfGrid,
    /// No occupied cell within `MAX_STEPS` steps.
    StepLimit,
}

/// The whole grid-pixel coordinate of the probe after `d` steps from the
/// fixed-point `origin` along the fixed-point component `step`.
pub open spec fn probe(origin: int, step: int, d: int) -> int {
    (origin + d * step) / (FIX as int)
}

/// The offset inside the struck cell that maps to the texture: `hitx` when it
/// lies strictly inside the cell's interior, else `hity`.
pub open spec fn texture_offset(hitx: int, hity: int, block: int) -> int {
    if 1 < hitx && hitx < block - 1 {
        hitx
    } else {
        hity
    }
}

/// The texture column of a hit at offsets `(hitx, hity)` in a cell of edge
/// `block`, for a texture `tex_width` wide.
pub open spec fn texture_u(hitx: int, hity: int, block: int, tex_width: int) -> int {
    texture_offset(hitx, hity, block) * tex_width / block
}

/// Outcome of the march from step `d` on.
pub open spec fn cast_from(
    g: Seq<Seq<char>>,
    cam: Camera,
    dir: Direction,
    block: int,
    tm: TextureManager,
    d: int,
) -> Result<Intersect, CastError>
    decreases MAX_STEPS + 1 - d,
{
    if d > MAX_STEPS {
        Err(CastError::StepLimit)
    } else {
        let x = probe(cam.x as int, dir.dx as int, d);
        let y = probe(cam.y as int, dir.dy as int, d);
        if x < 0 || y < 0 {
            Err(CastError::OutOfGrid)
        } else {
            match cell_at(g, x / block, y / block) {
                None => Err(CastError::OutOfGrid),
                Some(c) => if c != EMPTY {
                    Ok(
                        Intersect {
                            distance: d as u64,
                            impact: c,
                            tx: texture_u(x % block, y % block, block, tm.dims_of(c).0 as int) as usize,
                        },
                    )
                } else {
                    cast_from(g, cam, dir, block, tm, d + 1)
                },
            }
        }
    }
}

/// Outcome of casting the ray `dir` from the camera.
pub open spec fn cast(
    g: Seq<Seq<char>>,
    cam: Camera,
    dir: Direction,
    block: int,
    tm: TextureManager,
) -> Result<Intersect, CastError> {
    cast_from(g, cam, dir, block, tm, 0)
}

/// The texture column lies inside the texture.
pub proof fn lemma_texture_u_in_range(hitx: int, hity: int, block: int, tex_width: int)
    requires
        0 <= hitx < block,
        0 <= hity < block,
        0 < tex_width,
    ensures
        0 <= texture_u(hitx, hity, block, tex_width) < tex_width,
{
    let off = texture_offset(hitx, hity, block);
    lemma_mul_strict_inequality(off, block, tex_width);
    assert(off * tex_width == tex_width * off) by (nonlinear_arith);
    assert(block * tex_width == tex_width * block) by (nonlinear_arith);
    assert(0 <= off * tex_width) by (nonlinear_arith)
        requires 0 <= off, 0 < tex_width;
    lemma_div_pos_is_pos(off * tex_width, block);
    assert(off * tex_width / block < tex_width) by (nonlinear_arith)
        requires off * tex_width < tex_width * block, 0 < block;
}

/// Every step of an eastward ray before the wall column `k` stays in empty
/// cells, so the march from step `d` ends where the march from the wall's first
/// pixel does.
proof fn lemma_east_march(
    g: Seq<Seq<char>>,
    cam: Camera,
    block: int,
    tm: TextureManager,
    k: int,
    d: int,
)
    requires
        cam.wf(),
        0 < block,
        ((cam.x as int) / (FIX as int)) / block < k,
        k * block - (cam.x as int) / (FIX as int) <= MAX_STEPS,
        forall|i: int|
            ((cam.x as int) / (FIX as int)) / block <= i < k ==> #[trigger] cell_at(g, i, ((cam.y as int) / (FIX as int)) / block)
                == Some(EMPTY),
        0 <= d <= k * block - (cam.x as int) / (FIX as int),
    ensures
        cast_from(g, cam, Direction { dx: FIX, dy: 0 }, block, tm, d) == cast_from(
            g,
            cam,
            Direction { dx: FIX, dy: 0 },
            block,
            tm,
            k * block - (cam.x as int) / (FIX as int),
        ),
    decreases k * block - (cam.x as int) / (FIX as int) - d,
{
    let x0 = (cam.x as int) / (FIX as int);
    let dir = Direction { dx: FIX, dy: 0 };
    if d < k * block - x0 {
        lemma_hoist_over_denominator(cam.x as int, d, FIX as nat);
        assert(d * FIX == d * (FIX as int));
        assert(probe(cam.x as int, FIX as int, d) == x0 + d);
        assert(probe(cam.y as int, 0, d) == (cam.y as int) / (FIX as int));
        lemma_div_is_ordered(x0, x0 + d, block);
        lemma_div_is_ordered(x0 + d, k * block - 1, block);
        assert((k * block - 1) / block < k) by (nonlinear_arith)
            requires 0 < block;
        assert(cell_at(g, (x0 + d) / block, ((cam.y as int) / (FIX as int)) / block) == Some(EMPTY));
        lemma_div_pos_is_pos(cam.y as int, FIX as int);
        lemma_div_pos_is_pos(x0 + d, block);
        lemma_east_march(g, cam, block, tm, k, d + 1);
    }
}

/// A ray cast due east from a camera in an empty cell, toward the wall column
/// `k` with only empty cells between, hits that wall's tag at its first pixel:
/// within one step of the true distance to the wall face.
pub proof fn lemma_ray_hits_known_wall(g: Seq<Seq<char>>, cam: Camera, block: int, tm: TextureManager, k: int, tag: char)
    requires
        cam.wf(),
        0 < block,
        ((cam.x as int) / (FIX as int)) / block < k,
        k * block - (cam.x as int) / (FIX as int) <= MAX_STEPS,
        forall|i: int|
            ((cam.x as int) / (FIX as int)) / block <= i < k ==> #[trigger] cell_at(g, i, ((cam.y as int) / (FIX as int)) / block)
                == Some(EMPTY),
        cell_at(g, k, ((cam.y as int) / (FIX as int)) / block) == Some(tag),
        tag != EMPTY,
    ensures
        cast(g, cam, Direction { dx: FIX, dy: 0 }, block, tm) matches Ok(hit) && hit.impact == tag
            && hit.distance == k * block - (cam.x as int) / (FIX as int)
            && (k * block) * FIX - cam.x <= hit.distance * FIX < (k * block) * FIX - cam.x + FIX,
{
    let x0 = (cam.x as int) / (FIX as int);
    let dstar = k * block - x0;
    lemma_div_pos_is_pos(cam.x as int, FIX as int);
    assert(x0 < k * block) by (nonlinear_arith)
        requires x0 / block < k, block > 0, x0 >= 0;
    lemma_east_march(g, cam, block, tm, k, 0);
    lemma_hoist_over_denominator(cam.x as int, dstar, FIX as nat);
    assert(dstar * FIX == dstar * (FIX as int));
    assert(probe(cam.x as int, FIX as int, dstar) == k * block);
    assert((k * block) / block == k) by (nonlinear_arith)
        requires 0 < block;
    lemma_div_pos_is_pos(cam.y as int, FIX as int);
    lemma_div_pos_is_pos(cam.x as int, FIX as int);
    assert(x0 * FIX <= cam.x < x0 * FIX + FIX) by (nonlinear_arith)
        requires x0 == (cam.x as int) / (FIX as int), cam.x >= 0;
    assert(dstar * FIX == (k * block) * FIX - x0 * FIX) by (nonlinear_arith)
        requires dstar == k * block - x0;
    let dir = Direction { dx: FIX, dy: 0 };
    let y = probe(cam.y as int, 0, dstar);
    assert(y == (cam.y as int) / (FIX as int));
    assert(cast_from(g, cam, dir, block, tm, dstar) matches Ok(hit) && hit.impact == tag && hit.distance == dstar);
}

proof fn lemma_west_march(
    g: Seq<Seq<char>>,
    cam: Camera,
    block: int,
    tm: TextureManager,
    k: int,
    d: int,
)
    requires
        cam.wf(),
        0 < block,
        0 <= k < ((cam.x as int) / (FIX as int)) / block,
        (cam.x as int) / (FIX as int) - (k * block + block - 1) <= MAX_STEPS,
        forall|i: int|
            k < i <= ((cam.x as int) / (FIX as int)) / block ==> #[trigger] cell_at(
                g,
                i,
                ((cam.y as int) / (FIX as int)) / block,
            ) == Some(EMPTY),
        0 <= d <= (cam.x as int) / (FIX as int) - (k * block + block - 1),
    ensures
        cast_from(g, cam, Direction { dx: (-FIX) as i64, dy: 0 }, block, tm, d) == cast_from(
            g,
            cam,
            Direction { dx: (-FIX) as i64, dy: 0 },
            block,
            tm,
            (cam.x as int) / (FIX as int) - (k * block + block - 1),
        ),
    decreases (cam.x as int) / (FIX as int) - (k * block + block - 1) - d,
{
    let x0 = (cam.x as int) / (FIX as int);
    let dstar = x0 - (k * block + block - 1);
    if d < dstar {
        lemma_hoist_over_denominator(cam.x as int, -d, FIX as nat);
        assert(d * -FIX == (-d) * (FIX as int));
        assert(probe(cam.x as int, -FIX as int, d) == x0 - d);
        assert(probe(cam.y as int, 0, d) == (cam.y as int) / (FIX as int));
        lemma_div_is_ordered(x0 - d, x0, block);
        lemma_div_is_ordered(k * block + block, x0 - d, block);
        assert((k * block + block) / block == k + 1) by (nonlinear_arith)
            requires 0 < block;
        assert(cell_at(g, (x0 - d) / block, ((cam.y as int) / (FIX as int)) / block) == Some(EMPTY));
        lemma_div_pos_is_pos(cam.y as int, FIX as int);
        lemma_west_march(g, cam, block, tm, k, d + 1);
    }
}

/// The same law for a ray cast due west toward the wall column `k`: the hit
/// is at the wall's last pixel column, within one step of the true distance to
/// the wall face.
pub proof fn lemma_ray_hits_known_wall_west(
    g: Seq<Seq<char>>,
    cam: Camera,
    block: int,
    tm: TextureManager,
    k: int,
    tag: char,
)
    requires
        cam.wf(),
        0 < block,
        0 <= k < ((cam.x as int) / (FIX as int)) / block,
        (cam.x as int) / (FIX as int) - (k * block + block - 1) <= MAX_STEPS,
        forall|i: int|
            k < i <= ((cam.x as int) / (FIX as int)) / block ==> #[trigger] cell_at(
                g,
                i,
                ((cam.y as int) / (FIX as int)) / block,
            ) == Some(EMPTY),
        cell_at(g, k, ((cam.y as int) / (FIX as int)) / block) == Some(tag),
        tag != EMPTY,
    ensures
        cast(g, cam, Direction { dx: (-FIX) as i64, dy: 0 }, block, tm) matches Ok(hit) && hit.impact == tag
            && hit.distance == (cam.x as int) / (FIX as int) - (k * block + block - 1)
            && cam.x - (k * block + block) * FIX < hit.distance * FIX <= cam.x - (k * block + block) * FIX + FIX,
{
    let x0 = (cam.x as int) / (FIX as int);
    let dstar = x0 - (k * block + block - 1);
    lemma_div_pos_is_pos(cam.x as int, FIX as int);
    assert(k * block + block <= x0) by (nonlinear_arith)
        requires k < x0 / block, block > 0, x0 >= 0;
    lemma_west_march(g, cam, block, tm, k, 0);
    lemma_hoist_over_denominator(cam.x as int, -dstar, FIX as nat);
    assert(dstar * -FIX == (-dstar) * (FIX as int));
    assert(probe(cam.x as int, -FIX as int, dstar) == k * block + block - 1);
    assert((k * block + block - 1) / block == k) by (nonlinear_arith)
        requires 0 < block, 0 <= k;
    lemma_div_pos_is_pos(cam.y as int, FIX as int);
    assert(x0 * FIX <= cam.x < x0 * FIX + FIX) by (nonlinear_arith)
        requires x0 == (cam.x as int) / (FIX as int), cam.x >= 0;
    assert(dstar * FIX == x0 * FIX - (k * block + block) * FIX + FIX) by (nonlinear_arith)
        requires dstar == x0 - (k * block + block - 1);
    let dir = Direction { dx: (-FIX) as i64, dy: 0 };
    assert(probe(cam.y as int, 0, dstar) == (cam.y as int) / (FIX as int));
    assert(cast_from(g, cam, dir, block, tm, dstar) matches Ok(hit) && hit.impact == tag && hit.distance == dstar);
}

/// The grid's width and height in grid-pixel units, doubled, fit in the step
/// budget.
pub open spec fn within_step_budget(g: Seq<Seq<char>>, block: int) -> bool {
    0 < g.len() && 2 * g.len() * block <= MAX_STEPS && 2 * g[0].len() * block <= MAX_STEPS
}

/// The probe moves at most one whole grid-pixel per step along each axis.
proof fn lemma_probe_step(c: int, dx: int, d: int)
    requires
        -FIX <= dx <= FIX,
    ensures
        probe(c, dx, d) - 1 <= probe(c, dx, d + 1) <= probe(c, dx, d) + 1,
{
    let v = c + d * dx;
    assert(c + (d + 1) * dx == v + dx) by (nonlinear_arith)
        requires v == c + d * dx;
    lemma_div_is_ordered(v - FIX, v + dx, FIX as int);
    lemma_div_is_ordered(v + dx, v + FIX, FIX as int);
    lemma_hoist_over_denominator(v, -1, FIX as nat);
    lemma_hoist_over_denominator(v, 1, FIX as nat);
}

/// A pixel one away from a pixel of cell `i` lies in cell `i - 1`, `i` or `i + 1`.
proof fn lemma_neighbour_cell(p: int, q: int, block: int)
    requires
        0 < block,
        0 <= p,
        p - 1 <= q <= p + 1,
    ensures
        p / block - 1 <= q / block <= p / block + 1,
{
    let i = p / block;
    assert(i * block <= p < i * block + block) by (nonlinear_arith)
        requires i == p / block, 0 < block, 0 <= p;
    lemma_div_is_ordered(i * block - block, q, block);
    lemma_div_is_ordered(q, i * block + 2 * block - 1, block);
    assert((i * block - block) / block == i - 1) by (nonlinear_arith)
        requires 0 < block;
    assert((i * block + 2 * block - 1) / block == i + 1) by (nonlinear_arith)
        requires 0 < block;
}

/// From an empty cell of an enclosed grid the next probe stays in the grid.
proof fn lemma_enclosed_step(g: Seq<Seq<char>>, cam: Camera, dir: Direction, block: int, d: int)
    requires
        dir.wf(),
        0 < block,
        enclosed(g),
        probe(cam.x as int, dir.dx as int, d) >= 0,
        probe(cam.y as int, dir.dy as int, d) >= 0,
        cell_at(g, probe(cam.x as int, dir.dx as int, d) / block, probe(cam.y as int, dir.dy as int, d) / block)
            == Some(EMPTY),
    ensures
        probe(cam.x as int, dir.dx as int, d + 1) >= 0,
        probe(cam.y as int, dir.dy as int, d + 1) >= 0,
        cell_at(g, probe(cam.x as int, dir.dx as int, d + 1) / block, probe(cam.y as int, dir.dy as int, d + 1) / block)
            is Some,
{
    let px = probe(cam.x as int, dir.dx as int, d);
    let py = probe(cam.y as int, dir.dy as int, d);
    let qx = probe(cam.x as int, dir.dx as int, d + 1);
    let qy = probe(cam.y as int, dir.dy as int, d + 1);
    let i = px / block;
    let j = py / block;
    lemma_div_pos_is_pos(px, block);
    lemma_div_pos_is_pos(py, block);
    assert(g[j][i] == EMPTY);
    assert(g[j].len() == g[0].len());
    assert(j != 0 && j != g.len() - 1) by {
        assert(g[0][i] != EMPTY && g[g.len() - 1][i] != EMPTY);
    }
    assert(i != 0 && i != g[j].len() - 1) by {
        assert(g[j][0] != EMPTY && g[j][g[j].len() - 1] != EMPTY);
    }
    lemma_probe_step(cam.x as int, dir.dx as int, d);
    lemma_probe_step(cam.y as int, dir.dy as int, d);
    assert(i * block <= px && j * block <= py) by (nonlinear_arith)
        requires i == px / block, j == py / block, 0 < block, 0 <= px, 0 <= py;
    assert(block <= px && block <= py) by (nonlinear_arith)
        requires i * block <= px, j * block <= py, 1 <= i, 1 <= j, 0 < block;
    lemma_neighbour_cell(px, qx, block);
    lemma_neighbour_cell(py, qy, block);
    let j2 = qy / block;
    assert(g[j2].len() == g[0].len());
}

proof fn lemma_border_row(g: Seq<Seq<char>>, i: int)
    requires
        enclosed(g),
        0 <= i < g[0].len(),
    ensures
        g[0][i] != EMPTY,
        g[g.len() - 1][i] != EMPTY,
{
}

/// A probe in an empty cell of an enclosed grid has taken fewer than twice the
/// grid's extent in steps.
proof fn lemma_enclosed_bound(g: Seq<Seq<char>>, cam: Camera, dir: Direction, block: int, d: int)
    requires
        cam.wf(),
        dir.wf(),
        0 < block,
        0 <= d,
        enclosed(g),
        cell_at(g, ((cam.x as int) / (FIX as int)) / block, ((cam.y as int) / (FIX as int)) / block) is Some,
        probe(cam.x as int, dir.dx as int, d) >= 0,
        probe(cam.y as int, dir.dy as int, d) >= 0,
        cell_at(g, probe(cam.x as int, dir.dx as int, d) / block, probe(cam.y as int, dir.dy as int, d) / block)
            == Some(EMPTY),
    ensures
        d < 2 * g[0].len() * block || d < 2 * g.len() * block,
{
    let w = g[0].len() as int;
    let h = g.len() as int;
    let px = probe(cam.x as int, dir.dx as int, d);
    let py = probe(cam.y as int, dir.dy as int, d);
    let i = px / block;
    let j = py / block;
    lemma_div_pos_is_pos(px, block);
    lemma_div_pos_is_pos(py, block);
    assert(g[j].len() == w);
    assert(g[j][i] == EMPTY);
    assert(1 <= i <= w - 2) by {
        assert(g[j][0] != EMPTY && g[j][g[j].len() - 1] != EMPTY);
    }
    assert(0 <= i < g[0].len());
    lemma_border_row(g, i);
    assert(j != 0 && j != g.len() - 1);
    let cx = cam.x as int;
    let cy = cam.y as int;
    let c0 = (cx / (FIX as int)) / block;
    let r0 = (cy / (FIX as int)) / block;
    lemma_div_pos_is_pos(cx, FIX as int);
    lemma_div_pos_is_pos(cy, FIX as int);
    assert(g[r0].len() == w);
    assert(cx < w * block * FIX && cy < h * block * FIX) by (nonlinear_arith)
        requires c0 == (cx / (FIX as int)) / block, r0 == (cy / (FIX as int)) / block, c0 < w, r0 < h,
            0 < block, 0 <= cx, 0 <= cy;
    let vx = cx + d * dir.dx;
    let vy = cy + d * dir.dy;
    assert(block * FIX <= vx < (w - 1) * block * FIX) by (nonlinear_arith)
        requires px == vx / (FIX as int), i == px / block, 1 <= i <= w - 2, 0 < block, 0 <= px;
    assert(block * FIX <= vy < (h - 1) * block * FIX) by (nonlinear_arith)
        requires py == vy / (FIX as int), j == py / block, 1 <= j <= h - 2, 0 < block, 0 <= py;
    let wb = w * block;
    let hb = h * block;
    assert((w - 1) * block * FIX == wb * FIX - block * FIX) by (nonlinear_arith)
        requires wb == w * block;
    assert((h - 1) * block * FIX == hb * FIX - block * FIX) by (nonlinear_arith)
        requires hb == h * block;
    assert(w * block * FIX == wb * FIX && h * block * FIX == hb * FIX) by (nonlinear_arith)
        requires wb == w * block, hb == h * block;
    assert(block * FIX > 0) by (nonlinear_arith)
        requires block > 0;
    if dir.dx >= FIX / 2 {
        lemma_mul_inequality(FIX / 2, dir.dx as int, d);
        assert(d * dir.dx >= d * (FIX / 2)) by (nonlinear_arith)
            requires (FIX / 2) * d <= (dir.dx as int) * d;
        assert(d < 2 * wb);
    } else if dir.dx <= -FIX / 2 {
        lemma_mul_inequality(dir.dx as int, -FIX / 2, d);
        assert(d * dir.dx <= d * (-FIX / 2)) by (nonlinear_arith)
            requires (dir.dx as int) * d <= (-FIX / 2) * d;
        assert(d < 2 * wb);
    } else if dir.dy >= FIX / 2 {
        lemma_mul_inequality(FIX / 2, dir.dy as int, d);
        assert(d * dir.dy >= d * (FIX / 2)) by (nonlinear_arith)
            requires (FIX / 2) * d <= (dir.dy as int) * d;
        assert(d < 2 * hb);
    } else {
        assert(dir.dy <= -FIX / 2);
        lemma_mul_inequality(dir.dy as int, -FIX / 2, d);
        assert(d * dir.dy <= d * (-FIX / 2)) by (nonlinear_arith)
            requires (dir.dy as int) * d <= (-FIX / 2) * d;
        assert(d < 2 * hb);
    }
    assert(2 * wb == 2 * g[0].len() * block && 2 * hb == 2 * g.len() * block) by (nonlinear_arith)
        requires wb == w * block, hb == h * block, w == g[0].len(), h == g.len();
}

proof fn lemma_enclosed_from(g: Seq<Seq<char>>, cam: Camera, dir: Direction, block: int, tm: TextureManager, d: int)
    requires
        cam.wf(),
        dir.wf(),
        0 < block,
        enclosed(g),
        within_step_budget(g, block),
        cell_at(g, ((cam.x as int) / (FIX as int)) / block, ((cam.y as int) / (FIX as int)) / block) is Some,
        0 <= d <= MAX_STEPS,
        probe(cam.x as int, dir.dx as int, d) >= 0,
        probe(cam.y as int, dir.dy as int, d) >= 0,
        cell_at(g, probe(cam.x as int, dir.dx as int, d) / block, probe(cam.y as int, dir.dy as int, d) / block) is Some,
    ensures
        cast_from(g, cam, dir, block, tm, d) matches Ok(hit) && hit.impact != EMPTY,
    decreases MAX_STEPS - d,
{
    let px = probe(cam.x as int, dir.dx as int, d);
    let py = probe(cam.y as int, dir.dy as int, d);
    if cell_at(g, px / block, py / block) == Some(EMPTY) {
        lemma_enclosed_bound(g, cam, dir, block, d);
        lemma_enclosed_step(g, cam, dir, block, d);
        lemma_enclosed_from(g, cam, dir, block, tm, d + 1);
    }
}

/// In an enclosed grid small enough for the step budget, a ray from a camera
/// in an empty cell always hits an occupied cell.
pub proof fn lemma_enclosed_grid_hits(g: Seq<Seq<char>>, cam: Camera, dir: Direction, block: int, tm: TextureManager)
    requires
        cam.wf(),
        dir.wf(),
        0 < block,
        enclosed(g),
        within_step_budget(g, block),
        cell_at(g, ((cam.x as int) / (FIX as int)) / block, ((cam.y as int) / (FIX as int)) / block) == Some(EMPTY),
    ensures
        cast(g, cam, dir, block, tm) matches Ok(hit) && hit.impact != EMPTY,
{
    assert(probe(cam.x as int, dir.dx as int, 0) == (cam.x as int) / (FIX as int));
    assert(probe(cam.y as int, dir.dy as int, 0) == (cam.y as int) / (FIX as int));
    lemma_div_pos_is_pos(cam.x as int, FIX as int);
    lemma_div_pos_is_pos(cam.y as int, FIX as int);
    lemma_enclosed_from(g, cam, dir, block, tm, 0);
}

/// Marches the ray `dir` from the camera, one grid-pixel unit per step, to the
/// first occupied cell, and derives the texture column of the hit.
pub fn cast_ray_intersect(
    maze: &Grid,
    camera: &Camera,
    dir: Direction,
    block_size: usize,
    texture_manager: &TextureManager,
) -> (r: Result<Intersect, CastError>)
    requires
        camera.wf(),
        dir.wf(),
        0 < block_size <= BLOCK_LIMIT,
        texture_manager.wf(),
    ensures
        r == cast(maze@, *camera, dir, block_size as int, *texture_manager),
        r matches Ok(hit) ==> hit.impact != EMPTY && hit.distance <= MAX_STEPS && hit.tx
            < texture_manager.dims_of(hit.impact).0,
        enclosed(maze@) && within_step_budget(maze@, block_size as int) && cell_at(
            maze@,
            ((camera.x as int) / (FIX as int)) / (block_size as int),
            ((camera.y as int) / (FIX as int)) / (block_size as int),
        ) == Some(EMPTY) ==> r is Ok,
{
    proof {
        if enclosed(maze@) && within_step_budget(maze@, block_size as int) && cell_at(
            maze@,
            ((camera.x as int) / (FIX as int)) / (block_size as int),
            ((camera.y as int) / (FIX as int)) / (block_size as int),
        ) == Some(EMPTY) {
            lemma_enclosed_grid_hits(maze@, *camera, dir, block_size as int, *texture_manager);
        }
    }
    let ghost g = maze@;
    let ghost bs = block_size as int;
    let mut d: i64 = 0;
    while d <= MAX_STEPS
        invariant
            0 <= d <= MAX_STEPS + 1,
            camera.wf(),
            dir.wf(),
            0 < block_size <= BLOCK_LIMIT,
            texture_manager.wf(),
            g == maze@,
            bs == block_size as int,
            enclosed(g) && within_step_budget(g, bs) && cell_at(
                g,
                ((camera.x as int) / (FIX as int)) / bs,
                ((camera.y as int) / (FIX as int)) / bs,
            ) == Some(EMPTY) ==> cast(g, *camera, dir, bs, *texture_manager) is Ok,
            cast(g, *camera, dir, bs, *texture_manager) == cast_from(g, *camera, dir, bs, *texture_manager, d as int),
        decreases MAX_STEPS + 1 - d,
    {
        assert(-0x4000_0000 <= d * dir.dx <= 0x4000_0000 && -0x4000_0000 <= d * dir.dy <= 0x4000_0000)
            by (nonlinear_arith)
            requires 0 <= d <= MAX_STEPS, -FIX <= dir.dx <= FIX, -FIX <= dir.dy <= FIX;
        let fx: i64 = camera.x + d * dir.dx;
        let fy: i64 = camera.y + d * dir.dy;
        if fx < 0 || fy < 0 {
            proof {
                assert(fx < 0 ==> probe(camera.x as int, dir.dx as int, d as int) < 0);
                assert(fy < 0 ==> probe(camera.y as int, dir.dy as int, d as int) < 0);
                assert(cast_from(g, *camera, dir, bs, *texture_manager, d as int) == Err::<Intersect, CastError>(CastError::OutOfGrid));
            }
            return Err(CastError::OutOfGrid);
        }
        let x: usize = (fx as u64 / FIX as u64) as usize;
        let y: usize = (fy as u64 / FIX as u64) as usize;
        assert(x as int == probe(camera.x as int, dir.dx as int, d as int));
        assert(y as int == probe(camera.y as int, dir.dy as int, d as int));
        let i = x / block_size;
        let j = y / block_size;
        match maze.cell(i, j) {
            None => {
                assert(cast_from(g, *camera, dir, bs, *texture_manager, d as int) == Err::<Intersect, CastError>(CastError::OutOfGrid));
                return Err(CastError::OutOfGrid);
            },
            Some(c) => {
                if c != EMPTY {
                    let hitx = x % block_size;
                    let hity = y % block_size;
                    let maxhit = if 1 < hitx && hitx < block_size - 1 {
                        hitx
                    } else {
                        hity
                    };
                    let (tex_width, _) = texture_manager.dimensions(c);
                    proof {
                        lemma_texture_u_in_range(hitx as int, hity as int, bs, tex_width as int);
                    }
                    assert(maxhit * tex_width as usize <= 0x8000_0000) by (nonlinear_arith)
                        requires maxhit < BLOCK_LIMIT, tex_width <= 0x8000;
                    let tx = maxhit * tex_width as usize / block_size;
                    return Ok(Intersect { distance: d as u64, impact: c, tx });
                }
            },
        }
        d += 1;
    }
    Err(CastError::StepLimit)
}

/// Pixels after tracing the ray `dir` in white on a top-down view, one pixel
/// per step for the first `n` steps.
pub open spec fn traced(
    pixels: Seq<Color>,
    width: int,
    height: int,
    cam: Camera,
    dir: Direction,
    n: int,
) -> Seq<Color>
    decreases n,
{
    if n <= 0 {
        pixels
    } else {
        let prev = traced(pixels, width, height, cam, dir, n - 1);
        write_pixel(
            prev,
            width,
            height,
            probe(cam.x as int, dir.dx as int, n - 1),
            probe(cam.y as int, dir.dy as int, n - 1),
            Color { r: 255, g: 255, b: 255, a: 255 },
        )
    }
}

/// Casts the ray `dir`; when `draw` is set, also traces its path up to the hit
/// in white on the framebuffer, as seen from above.
pub fn cast_ray(
    framebuffer: &mut Framebuffer,
    maze: &Grid,
    camera: &Camera,
    dir: Direction,
    block_size: usize,
    draw: bool,
    texture_manager: &TextureManager,
) -> (r: Result<Intersect, CastError>)
    requires
        old(framebuffer).wf(),
        camera.wf(),
        dir.wf(),
        0 < block_size <= BLOCK_LIMIT,
        texture_manager.wf(),
    ensures
        r == cast(maze@, *camera, dir, block_size as int, *texture_manager),
        final(framebuffer).wf(),
        final(framebuffer).width == old(framebuffer).width,
        final(framebuffer).height == old(framebuffer).height,
        final(framebuffer).background == old(framebuffer).background,
        final(framebuffer).pixels@ == (match r {
            Ok(hit) => if draw {
                traced(
                    old(framebuffer).pixels@,
                    old(framebuffer).width as int,
                    old(framebuffer).height as int,
                    *camera,
                    dir,
                    hit.distance as int,
                )
            } else {
                old(framebuffer).pixels@
            },
            Err(_) => old(framebuffer).pixels@,
        }),
{
    let intersect = cast_ray_intersect(maze, camera, dir, block_size, texture_manager);
    if draw {
        if let Ok(hit) = intersect {
            let n: i64 = hit.distance as i64;
            let mut d: i64 = 0;
            while d < n
                invariant
                    0 <= d <= n <= MAX_STEPS,
                    camera.wf(),
                    dir.wf(),
                    framebuffer.wf(),
                    framebuffer.width == old(framebuffer).width,
                    framebuffer.height == old(framebuffer).height,
                    framebuffer.background == old(framebuffer).background,
                    framebuffer.pixels@ == traced(
                        old(framebuffer).pixels@,
                        old(framebuffer).width as int,
                        old(framebuffer).height as int,
                        *camera,
                        dir,
                        d as int,
                    ),
                decreases n - d,
            {
                assert(-0x4000_0000 <= d * dir.dx <= 0x4000_0000 && -0x4000_0000 <= d * dir.dy
                    <= 0x4000_0000) by (nonlinear_arith)
                    requires 0 <= d <= MAX_STEPS, -FIX <= dir.dx <= FIX, -FIX <= dir.dy <= FIX;
                let fx: i64 = camera.x + d * dir.dx;
                let fy: i64 = camera.y + d * dir.dy;
                if fx >= 0 && fy >= 0 {
                    let x: i32 = (fx as u64 / FIX as u64) as i32;
                    let y: i32 = (fy as u64 / FIX as u64) as i32;
                    assert(x as int == probe(camera.x as int, dir.dx as int, d as int));
                    assert(y as int == probe(camera.y as int, dir.dy as int, d as int));
                    framebuffer.set_pixel(x, y, Color::white());
                } else {
                    assert(fx < 0 ==> probe(camera.x as int, dir.dx as int, d as int) < 0);
                    assert(fy < 0 ==> probe(camera.y as int, dir.dy as int, d as int) < 0);
                }
                d += 1;
            }
        }
    }
    intersect
}

} // verus!
