//! Camera pose, angles, ray directions and the sine table that turns angles
//! into directions.
use vstd::prelude::*;
use crate::fixed::{COORD_LIMIT, FIX, HALF_TURN, QUARTER_TURN, TURN};

verus! {

/// Whether one component of a direction has at least half a unit: true of
/// `(cos a, sin a)` for every angle, and what lets a ray march make progress.
pub open spec fn near_unit(dx: int, dy: int) -> bool {
    dx >= FIX / 2 || dx <= -FIX / 2 || dy >= FIX / 2 || dy <= -FIX / 2
}

/// A unit direction in fixed point: `(cos, sin)` of an angle, each in
/// `[-FIX, FIX]`, and not shorter than half a unit along its main axis.
#[derive(Clone, Copy, Debug, PartialEq, Eq, Structural)]
pub struct Direction {
    pub dx: i64,
    pub dy: i64,
}

impl Direction {
    pub open spec fn wf(&self) -> bool {
        -FIX <= self.dx <= FIX && -FIX <= self.dy <= FIX && near_unit(self.dx as int, self.dy as int)
    }
}

/// The viewer: a fixed-point position, a facing angle in `[0, TURN)` and a
/// field of view strictly between zero and half a turn.
#[derive(Clone, Copy, Debug, PartialEq, Eq, Structural)]
pub struct Camera {
    pub x: i64,
    pub y: i64,
    pub angle: i64,
    pub fov: i64,
}

impl Camera {
    pub open spec fn wf(&self) -> bool {
        0 <= self.x <= COORD_LIMIT && 0 <= self.y <= COORD_LIMIT && 0 <= self.angle < TURN && 0
            < self.fov < HALF_TURN
    }
}

/// The angle `a` brought into `[0, TURN)`.
pub open spec fn wrapped(a: int) -> int {
    a % (TURN as int)
}

/// Brings an angle within one turn of `[0, TURN)` into that range.
pub fn wrap_angle(a: i64) -> (r: i64)
    requires
        -TURN <= a < 2 * TURN,
    ensures
        r == wrapped(a as int),
        0 <= r < TURN,
{
    if a < 0 {
        a + TURN
    } else if a >= TURN {
        a - TURN
    } else {
        a
    }
}

/// The signed difference `a - b` of two angles, brought into `(-HALF_TURN, HALF_TURN]`.
pub open spec fn angle_difference(a: int, b: int) -> int {
    let w = (a - b) % (TURN as int);
    if w > HALF_TURN {
        w - TURN
    } else {
        w
    }
}

/// The signed angular difference `a - b`, normalized into `(-HALF_TURN, HALF_TURN]`
/// by whole turns.
pub fn normalize_difference(a: i64, b: i64) -> (r: i64)
    requires
        -4 * TURN <= a <= 4 * TURN,
        -4 * TURN <= b <= 4 * TURN,
    ensures
        r == angle_difference(a as int, b as int),
        -HALF_TURN < r <= HALF_TURN,
        (r - (a - b)) % (TURN as int) == 0,
{
    let mut diff: i64 = a - b;
    while diff > HALF_TURN
        invariant
            -8 * TURN <= diff <= 8 * TURN,
            (diff as int) % (TURN as int) == (a - b) % (TURN as int),
        decreases diff + 8 * TURN,
    {
        diff = diff - TURN;
    }
    while diff <= -HALF_TURN
        invariant
            -8 * TURN <= diff <= HALF_TURN,
            (diff as int) % (TURN as int) == (a - b) % (TURN as int),
        decreases HALF_TURN - diff,
    {
        diff = diff + TURN;
    }
    assert(((diff as int) - (a - b)) % (TURN as int) == 0);
    diff
}

/// A usable table of sines: one per angle unit, each in `[-FIX, FIX]`, and for
/// every angle the cosine (the sine a quarter turn on) and the sine form a
/// near-unit direction.
pub open spec fn valid_sines(s: Seq<i64>) -> bool {
    &&& s.len() == TURN
    &&& forall|i: int| 0 <= i < TURN ==> -FIX <= #[trigger] s[i] <= FIX
    &&& forall|a: int| 0 <= a < TURN ==> near_unit(s[wrapped(a + QUARTER_TURN)] as int, #[trigger] s[a] as int)
}

/// A table of `TURN` sines, one per angle unit.
pub struct TrigTable {
    pub sines: Vec<i64>,
}

impl TrigTable {
    pub open spec fn wf(&self) -> bool {
        valid_sines(self.sines@)
    }

    /// The direction of the angle `a` in `[0, TURN)`: the cosine is the sine a
    /// quarter turn further on.
    pub open spec fn direction_of(&self, a: int) -> Direction {
        Direction {
            dx: self.sines@[wrapped(a + QUARTER_TURN)],
            dy: self.sines@[a],
        }
    }

    /// Takes a table of sines; `None` unless it is valid (see `valid_sines`).
    pub fn from_sines(sines: Vec<i64>) -> (r: Option<TrigTable>)
        ensures
            r is Some <==> valid_sines(sines@),
            r matches Some(t) ==> t.sines@ == sines@,
    {
        if sines.len() != TURN as usize {
            return None;
        }
        let mut i: usize = 0;
        while i < sines.len()
            invariant
                0 <= i <= sines@.len(),
                sines@.len() == TURN,
                forall|k: int| 0 <= k < i ==> -FIX <= #[trigger] sines@[k] <= FIX,
            decreases sines.len() - i,
        {
            if sines[i] < -FIX || sines[i] > FIX {
                return None;
            }
            i += 1;
        }
        let mut a: usize = 0;
        while a < sines.len()
            invariant
                0 <= a <= sines@.len(),
                sines@.len() == TURN,
                forall|k: int| 0 <= k < TURN ==> -FIX <= #[trigger] sines@[k] <= FIX,
                forall|k: int|
                    0 <= k < a ==> near_unit(sines@[wrapped(k + QUARTER_TURN)] as int, #[trigger] sines@[k] as int),
            decreases sines.len() - a,
        {
            let c = sines[wrap_angle(a as i64 + QUARTER_TURN) as usize];
            let s = sines[a];
            let half: i64 = FIX / 2;
            if !(c >= half || c <= -half || s >= half || s <= -half) {
                assert(!near_unit(sines@[wrapped(a + QUARTER_TURN)] as int, sines@[a as int] as int));
                return None;
            }
            a += 1;
        }
        Some(TrigTable { sines })
    }

    /// The unit direction `(cos a, sin a)` of an angle in `[0, TURN)`.
    pub fn direction(&self, a: i64) -> (d: Direction)
        requires
            self.wf(),
            0 <= a < TURN,
        ensures
            d == self.direction_of(a as int),
            d.wf(),
    {
        let c = wrap_angle(a + QUARTER_TURN);
        Direction { dx: self.sines[c as usize], dy: self.sines[a as usize] }
    }

    /// The cosine of a signed angle in `(-TURN, TURN)`.
    pub fn cosine(&self, a: i64) -> (c: i64)
        requires
            self.wf(),
            -TURN < a < TURN,
        ensures
            c == self.sines@[wrapped(a + QUARTER_TURN)],
            -FIX <= c <= FIX,
    {
        let w = wrap_angle(a + QUARTER_TURN);
        self.sines[w as usize]
    }
}

} // verus!
