//! Per-frame game rules around the renderer: picking up collectables,
//! capture by enemies, and where the player may step.
use vstd::prelude::*;
use crate::caster::BLOCK_LIMIT;
use crate::enemy::{Enemy, is_open};
use crate::fixed::{COORD_LIMIT, FIX};
use crate::grid::{EMPTY, Grid};
use crate::sprite::Sprite;

verus! {

/// Distance, in grid-pixel units, under which the player picks an item up.
pub const COLLECT_DISTANCE: i64 = 35;

/// Distance, in grid-pixel units, under which an enemy catches the player.
pub const CATCH_DISTANCE: i64 = 25;

/// Whether the fixed-point points `(ax, ay)` and `(bx, by)` lie closer than
/// `limit` grid-pixel units.
pub open spec fn closer_than(ax: int, ay: int, bx: int, by: int, limit: int) -> bool {
    (ax - bx) * (ax - bx) + (ay - by) * (ay - by) < (limit * FIX) * (limit * FIX)
}

/// Tags of the items that count toward the score.
pub open spec fn scores(tag: char) -> bool {
    tag == 'f' || tag == 'c' || tag == 'h'
}

/// The items among the first `n` that the player at `(x, y)` does not pick up.
pub open spec fn kept(items: Seq<Sprite>, x: int, y: int, n: int) -> Seq<Sprite>
    decreases n,
{
    if n <= 0 {
        Seq::empty()
    } else {
        let prev = kept(items, x, y, n - 1);
        let s = items[n - 1];
        if closer_than(s.x as int, s.y as int, x, y, COLLECT_DISTANCE as int) {
            prev
        } else {
            prev.push(s)
        }
    }
}

/// How many of the first `n` items the player at `(x, y)` picks up and scores.
pub open spec fn gained(items: Seq<Sprite>, x: int, y: int, n: int) -> int
    decreases n,
{
    if n <= 0 {
        0
    } else {
        let s = items[n - 1];
        gained(items, x, y, n - 1) + if closer_than(s.x as int, s.y as int, x, y, COLLECT_DISTANCE as int)
            && scores(s.texture) {
            1int
        } else {
            0int
        }
    }
}

proof fn lemma_gained_bounded(items: Seq<Sprite>, x: int, y: int, n: int)
    ensures
        0 <= gained(items, x, y, n) <= if n < 0 { 0 } else { n },
    decreases n,
{
    if n > 0 {
        lemma_gained_bounded(items, x, y, n - 1);
    }
}

fn closer(ax: i64, ay: i64, bx: i64, by: i64, limit: i64) -> (r: bool)
    requires
        0 <= ax <= COORD_LIMIT,
        0 <= ay <= COORD_LIMIT,
        0 <= bx <= COORD_LIMIT,
        0 <= by <= COORD_LIMIT,
        0 <= limit <= 1000,
    ensures
        r == closer_than(ax as int, ay as int, bx as int, by as int, limit as int),
{
    let dx: i64 = ax - bx;
    let dy: i64 = ay - by;
    assert(0 <= dx * dx <= 0x1000_0000_0000_0000 && 0 <= dy * dy <= 0x1000_0000_0000_0000) by (nonlinear_arith)
        requires -COORD_LIMIT <= dx <= COORD_LIMIT, -COORD_LIMIT <= dy <= COORD_LIMIT;
    assert(0 <= (limit * FIX) * (limit * FIX) <= 0x100_0000_0000) by (nonlinear_arith)
        requires 0 <= limit <= 1000;
    dx * dx + dy * dy < (limit * FIX) * (limit * FIX)
}

/// Removes the items the player at `(x, y)` stands closer than
/// `COLLECT_DISTANCE` to, keeping the others in order, and returns how many of
/// the removed ones score.
pub fn collect_items(items: &mut Vec<Sprite>, x: i64, y: i64) -> (score: u64)
    requires
        forall|i: int| 0 <= i < old(items)@.len() ==> (#[trigger] old(items)@[i]).wf(),
        0 <= x <= COORD_LIMIT,
        0 <= y <= COORD_LIMIT,
    ensures
        final(items)@ == kept(old(items)@, x as int, y as int, old(items)@.len() as int),
        score == gained(old(items)@, x as int, y as int, old(items)@.len() as int),
{
    let ghost start = items@;
    let mut rest: Vec<Sprite> = Vec::new();
    let mut score: u64 = 0;
    let mut i: usize = 0;
    while i < items.len()
        invariant
            0 <= i <= items@.len(),
            items@ == start,
            forall|k: int| 0 <= k < start.len() ==> (#[trigger] start[k]).wf(),
            0 <= x <= COORD_LIMIT,
            0 <= y <= COORD_LIMIT,
            rest@ == kept(start, x as int, y as int, i as int),
            score == gained(start, x as int, y as int, i as int),
        decreases items@.len() - i,
    {
        let s = items[i];
        proof {
            lemma_gained_bounded(start, x as int, y as int, i as int);
        }
        if closer(s.x, s.y, x, y, COLLECT_DISTANCE) {
            if s.texture == 'f' || s.texture == 'c' || s.texture == 'h' {
                score += 1;
            }
        } else {
            rest.push(s);
        }
        i += 1;
    }
    *items = rest;
    score
}

/// Whether some enemy stands closer than `CATCH_DISTANCE` to the player at `(x, y)`.
pub fn is_caught(enemies: &Vec<Enemy>, x: i64, y: i64) -> (r: bool)
    requires
        forall|i: int| 0 <= i < enemies@.len() ==> (#[trigger] enemies@[i]).wf(),
        0 <= x <= COORD_LIMIT,
        0 <= y <= COORD_LIMIT,
    ensures
        r == exists|i: int|
            0 <= i < enemies@.len() && closer_than(
                (#[trigger] enemies@[i]).x as int,
                enemies@[i].y as int,
                x as int,
                y as int,
                CATCH_DISTANCE as int,
            ),
{
    let mut i: usize = 0;
    while i < enemies.len()
        invariant
            0 <= i <= enemies@.len(),
            forall|k: int| 0 <= k < enemies@.len() ==> (#[trigger] enemies@[k]).wf(),
            0 <= x <= COORD_LIMIT,
            0 <= y <= COORD_LIMIT,
            forall|k: int|
                0 <= k < i ==> !closer_than(
                    (#[trigger] enemies@[k]).x as int,
                    enemies@[k].y as int,
                    x as int,
                    y as int,
                    CATCH_DISTANCE as int,
                ),
        decreases enemies@.len() - i,
    {
        let e = enemies[i];
        if closer(e.x, e.y, x, y, CATCH_DISTANCE) {
            return true;
        }
        i += 1;
    }
    false
}

/// Whether the cell holding the fixed-point point `(x, y)` is passable.
pub fn is_passable(maze: &Grid, x: i64, y: i64, block_size: usize) -> (r: bool)
    requires
        0 < block_size <= BLOCK_LIMIT,
        x <= COORD_LIMIT,
        y <= COORD_LIMIT,
    ensures
        r == is_open(maze@, x as int, y as int, block_size as int),
{
    let px: usize = if x < 0 { 0 } else { (x as u64 / FIX as u64) as usize };
    let py: usize = if y < 0 { 0 } else { (y as u64 / FIX as u64) as usize };
    maze.cell(px / block_size, py / block_size) == Some(EMPTY)
}

} // verus!
