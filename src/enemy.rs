//! Wandering enemies: they walk along grid axes, turn at walls by a fixed
//! preference, and alternate between two animation frames.
use vstd::prelude::*;
use crate::fixed::{COORD_LIMIT, FIX};
use crate::grid::{EMPTY, Grid, cell_at};
use crate::caster::BLOCK_LIMIT;

verus! {

/// Milliseconds between two animation frames.
pub const FRAME_MS: u64 = 400;

/// Largest speed, in grid-pixel units per second.
pub const SPEED_LIMIT: u64 = 65536;

/// Largest time step, in milliseconds.
pub const STEP_LIMIT_MS: u64 = 65536;

/// Which way an enemy first tries to turn when a wall is ahead.
#[derive(Clone, Copy, Debug, PartialEq, Eq, Structural)]
pub enum TurnPreference {
    Left,
    Right,
}

/// An enemy: a fixed-point position, its current animation frame, the time
/// spent in that frame, a heading of at most one unit per axis, its turn
/// preference, and its speed in grid-pixel units per second.
#[derive(Clone, Copy, Debug, PartialEq, Eq, Structural)]
pub struct Enemy {
    pub x: i64,
    pub y: i64,
    pub texture_key: char,
    pub animation_timer: u64,
    pub vx: i64,
    pub vy: i64,
    pub turn_preference: TurnPreference,
    pub speed: u64,
}

/// The whole grid-pixel coordinate of a fixed-point value, with negative values
/// counted as zero.
pub open spec fn pixel_of(v: int) -> int {
    if v < 0 {
        0
    } else {
        v / (FIX as int)
    }
}

/// Whether the cell holding the fixed-point point `(x, y)` is passable.
pub open spec fn is_open(g: Seq<Seq<char>>, x: int, y: int, block: int) -> bool {
    cell_at(g, pixel_of(x) / block, pixel_of(y) / block) == Some(EMPTY)
}

/// The point `dist` (fixed point) from `(x, y)` along the heading `(vx, vy)`.
pub open spec fn ahead(x: int, vx: int, dist: int) -> int {
    x + vx * dist
}

/// A fixed-point coordinate kept in `[0, COORD_LIMIT]`.
pub open spec fn clamped(v: int) -> int {
    if v < 0 {
        0
    } else if v > COORD_LIMIT {
        COORD_LIMIT as int
    } else {
        v
    }
}

/// The heading after a step: unchanged when the way a quarter cell ahead is
/// open; else the preferred side, the other side, or back, whichever first has
/// the cell half a cell away open.
pub open spec fn next_heading(e: Enemy, g: Seq<Seq<char>>, block: int) -> (int, int) {
    let q = block * FIX / 4;
    let h = block * FIX / 2;
    if is_open(g, ahead(e.x as int, e.vx as int, q), ahead(e.y as int, e.vy as int, q), block) {
        (e.vx as int, e.vy as int)
    } else {
        let right = (e.vy as int, -e.vx);
        let left = (-e.vy, e.vx as int);
        let (first, second) = match e.turn_preference {
            TurnPreference::Right => (right, left),
            TurnPreference::Left => (left, right),
        };
        if is_open(g, ahead(e.x as int, first.0, h), ahead(e.y as int, first.1, h), block) {
            first
        } else if is_open(g, ahead(e.x as int, second.0, h), ahead(e.y as int, second.1, h), block) {
            second
        } else {
            (-e.vx, -e.vy)
        }
    }
}

/// The distance, in fixed point, covered at `speed` in `dt_ms` milliseconds.
pub open spec fn travel(speed: int, dt_ms: int) -> int {
    speed * dt_ms * FIX / 1000
}

/// The enemy after `dt_ms` milliseconds.
pub open spec fn updated(e: Enemy, dt_ms: int, g: Seq<Seq<char>>, block: int) -> Enemy {
    let timer = e.animation_timer + dt_ms;
    let (key, timer) = if timer > FRAME_MS {
        (if e.texture_key == 'e' { 'f' } else { 'e' }, 0int)
    } else {
        (e.texture_key, timer)
    };
    let (vx, vy) = next_heading(e, g, block);
    let step = travel(e.speed as int, dt_ms);
    Enemy {
        x: clamped(e.x + vx * step) as i64,
        y: clamped(e.y + vy * step) as i64,
        texture_key: key,
        animation_timer: timer as u64,
        vx: vx as i64,
        vy: vy as i64,
        turn_preference: e.turn_preference,
        speed: e.speed,
    }
}

impl Enemy {
    pub open spec fn wf(&self) -> bool {
        &&& 0 <= self.x <= COORD_LIMIT
        &&& 0 <= self.y <= COORD_LIMIT
        &&& -1 <= self.vx <= 1
        &&& -1 <= self.vy <= 1
        &&& self.animation_timer <= FRAME_MS
        &&& self.speed <= SPEED_LIMIT
    }

    /// An enemy at grid-pixel position `(x, y)` (fixed point), heading along
    /// the positive x axis, in its first animation frame.
    pub fn new(x: i64, y: i64, turn_preference: TurnPreference, speed: u64) -> (e: Enemy)
        requires
            0 <= x <= COORD_LIMIT,
            0 <= y <= COORD_LIMIT,
            speed <= SPEED_LIMIT,
        ensures
            e == (Enemy {
                x,
                y,
                texture_key: 'e',
                animation_timer: 0,
                vx: 1,
                vy: 0,
                turn_preference,
                speed,
            }),
            e.wf(),
    {
        Enemy { x, y, texture_key: 'e', animation_timer: 0, vx: 1, vy: 0, turn_preference, speed }
    }

    /// Whether the cell `dist` (fixed point) from the enemy along `(vx, vy)` is
    /// passable.
    fn is_clear(&self, vx: i64, vy: i64, dist: i64, maze: &Grid, block_size: usize) -> (r: bool)
        requires
            self.wf(),
            -1 <= vx <= 1,
            -1 <= vy <= 1,
            0 <= dist <= BLOCK_LIMIT * FIX,
            0 < block_size <= BLOCK_LIMIT,
        ensures
            r == is_open(maze@, ahead(self.x as int, vx as int, dist as int), ahead(self.y as int, vy as int, dist as int), block_size as int),
    {
        assert(-dist <= vx * dist <= dist && -dist <= vy * dist <= dist) by (nonlinear_arith)
            requires -1 <= vx <= 1, -1 <= vy <= 1, dist >= 0;
        let cx: i64 = self.x + vx * dist;
        let cy: i64 = self.y + vy * dist;
        let px: usize = if cx < 0 { 0 } else { (cx as u64 / FIX as u64) as usize };
        let py: usize = if cy < 0 { 0 } else { (cy as u64 / FIX as u64) as usize };
        maze.cell(px / block_size, py / block_size) == Some(EMPTY)
    }

    /// Advances the enemy by `delta_ms` milliseconds: flips its animation frame
    /// once the frame has lasted over `FRAME_MS`, turns when a wall is a
    /// quarter cell ahead, and moves along its heading at its speed.
    pub fn update(&mut self, delta_ms: u64, maze: &Grid, block_size: usize)
        requires
            old(self).wf(),
            delta_ms <= STEP_LIMIT_MS,
            0 < block_size <= BLOCK_LIMIT,
        ensures
            *final(self) == updated(*old(self), delta_ms as int, maze@, block_size as int),
            final(self).wf(),
    {
        let timer: u64 = self.animation_timer + delta_ms;
        if timer > FRAME_MS {
            self.animation_timer = 0;
            self.texture_key = if self.texture_key == 'e' { 'f' } else { 'e' };
        } else {
            self.animation_timer = timer;
        }
        let quarter: i64 = (block_size as i64) * FIX / 4;
        let half: i64 = (block_size as i64) * FIX / 2;
        if !self.is_clear(self.vx, self.vy, quarter, maze, block_size) {
            let (rx, ry) = (self.vy, -self.vx);
            let (lx, ly) = (-self.vy, self.vx);
            let (first, second) = match self.turn_preference {
                TurnPreference::Right => ((rx, ry), (lx, ly)),
                TurnPreference::Left => ((lx, ly), (rx, ry)),
            };
            if self.is_clear(first.0, first.1, half, maze, block_size) {
                self.vx = first.0;
                self.vy = first.1;
            } else if self.is_clear(second.0, second.1, half, maze, block_size) {
                self.vx = second.0;
                self.vy = second.1;
            } else {
                self.vx = -self.vx;
                self.vy = -self.vy;
            }
        }
        assert(self.speed * delta_ms * FIX <= 0x40_0000_0000_0000) by (nonlinear_arith)
            requires self.speed <= SPEED_LIMIT, delta_ms <= STEP_LIMIT_MS;
        let step: i64 = (self.speed * delta_ms * FIX as u64 / 1000) as i64;
        assert(-step <= self.vx * step <= step && -step <= self.vy * step <= step) by (nonlinear_arith)
            requires -1 <= self.vx <= 1, -1 <= self.vy <= 1, step >= 0;
        let nx: i64 = self.x + self.vx * step;
        let ny: i64 = self.y + self.vy * step;
        self.x = if nx < 0 { 0 } else if nx > COORD_LIMIT { COORD_LIMIT } else { nx };
        self.y = if ny < 0 { 0 } else if ny > COORD_LIMIT { COORD_LIMIT } else { ny };
    }
}

/// Advances every enemy by `delta_ms` milliseconds.
pub fn update_enemies(enemies: &mut Vec<Enemy>, delta_ms: u64, maze: &Grid, block_size: usize)
    requires
        forall|i: int| 0 <= i < old(enemies)@.len() ==> (#[trigger] old(enemies)@[i]).wf(),
        delta_ms <= STEP_LIMIT_MS,
        0 < block_size <= BLOCK_LIMIT,
    ensures
        final(enemies)@.len() == old(enemies)@.len(),
        forall|i: int|
            0 <= i < final(enemies)@.len() ==> #[trigger] final(enemies)@[i] == updated(
                old(enemies)@[i],
                delta_ms as int,
                maze@,
                block_size as int,
            ),
{
    let mut i: usize = 0;
    while i < enemies.len()
        invariant
            0 <= i <= enemies@.len(),
            enemies@.len() == old(enemies)@.len(),
            delta_ms <= STEP_LIMIT_MS,
            0 < block_size <= BLOCK_LIMIT,
            forall|k: int| i <= k < enemies@.len() ==> #[trigger] enemies@[k] == old(enemies)@[k],
            forall|k: int| 0 <= k < old(enemies)@.len() ==> (#[trigger] old(enemies)@[k]).wf(),
            forall|k: int|
                0 <= k < i ==> #[trigger] enemies@[k] == updated(
                    old(enemies)@[k],
                    delta_ms as int,
                    maze@,
                    block_size as int,
                ),
        decreases enemies@.len() - i,
    {
        let mut e = enemies[i];
        e.update(delta_ms, maze, block_size);
        enemies.set(i, e);
        i += 1;
    }
}

} // verus!
