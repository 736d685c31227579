//! Fixed-point units shared by the renderer, and an integer square root.
use vstd::prelude::*;

verus! {

/// One grid-pixel unit in fixed point: positions and direction components are
/// integers scaled by this factor.
pub const FIX: i64 = 1024;

/// Angle units in one full turn (2π).
pub const TURN: i64 = 65536;

/// Angle units in half a turn (π).
pub const HALF_TURN: i64 = 32768;

/// Angle units in a quarter turn (π/2).
pub const QUARTER_TURN: i64 = 16384;

/// Largest coordinate, in fixed point, that a camera or an entity may hold.
pub const COORD_LIMIT: i64 = 1073741824;

/// The floor of the square root of `n`.
pub open spec fn is_isqrt(n: int, r: int) -> bool {
    0 <= r && r * r <= n < (r + 1) * (r + 1)
}

/// Integer square root: the largest `r` with `r * r <= n`.
pub fn isqrt(n: u64) -> (r: u64)
    requires
        n < 0x4000_0000_0000_0000,
    ensures
        is_isqrt(n as int, r as int),
        r < 0x8000_0000,
{
    let mut lo: u64 = 0;
    let mut hi: u64 = 0x8000_0000;
    assert(hi * hi > n) by (nonlinear_arith)
        requires hi == 0x8000_0000, n < 0x4000_0000_0000_0000;
    while hi - lo > 1
        invariant
            lo < hi <= 0x8000_0000,
            lo * lo <= n,
            n < hi * hi,
        decreases hi - lo,
    {
        let mid: u64 = lo + (hi - lo) / 2;
        assert(mid * mid <= 0x8000_0000 * 0x8000_0000) by (nonlinear_arith)
            requires mid < 0x8000_0000;
        if mid * mid <= n {
            lo = mid;
        } else {
            hi = mid;
        }
    }
    assert(hi == lo + 1);
    lo
}

/// The integer square root is monotone.
pub proof fn lemma_isqrt_monotone(a: int, b: int, ra: int, rb: int)
    requires
        0 <= a <= b,
        is_isqrt(a, ra),
        is_isqrt(b, rb),
    ensures
        ra <= rb,
{
    if ra > rb {
        assert((rb + 1) * (rb + 1) <= ra * ra) by (nonlinear_arith)
            requires ra >= rb + 1, rb >= 0;
    }
}

/// The integer square root of a value is unique.
pub proof fn lemma_isqrt_unique(n: int, r1: int, r2: int)
    requires
        is_isqrt(n, r1),
        is_isqrt(n, r2),
    ensures
        r1 == r2,
{
    lemma_isqrt_monotone(n, n, r1, r2);
    lemma_isqrt_monotone(n, n, r2, r1);
}

} // verus!
