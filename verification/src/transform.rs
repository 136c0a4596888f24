//! A weighted 2-D affine transform and the chaos-game step it induces.

use crate::fixed::{linear_step, mul_add_div, COORD_LIMIT};
use vstd::prelude::*;

verus! {

/// A weighted affine map `(x, y) ↦ (a·x + b·y + e, c·x + d·y + f)`. The six
/// coefficients are fixed-point scalars; the weight is the transform's
/// relative share under weighted selection, where only the ratio to the
/// other weights in its table matters.
#[derive(Clone, Copy, Debug, PartialEq, Eq, Structural)]
pub struct AffineTransform {
    pub a: i64,
    pub b: i64,
    pub c: i64,
    pub d: i64,
    pub e: i64,
    pub f: i64,
    pub weight: u32,
}

/// The first coordinate of a chaos-game step.
pub open spec fn step_x(t: AffineTransform, x: int, y: int) -> int {
    linear_step(t.a as int, x, t.b as int, y, t.e as int)
}

/// The second coordinate of a chaos-game step, given the first.
pub open spec fn step_y(t: AffineTransform, x: int, y: int) -> int {
    linear_step(t.c as int, x, t.d as int, y, t.f as int)
}

/// One chaos-game step. The update is sequential: the second coordinate is
/// computed from the already-updated first coordinate. This one policy holds
/// for every transform table fed through the engine.
pub open spec fn chaos_step(t: AffineTransform, x: int, y: int) -> (int, int) {
    let xn = step_x(t, x, y);
    (xn, step_y(t, xn, y))
}

/// The chaos-game orbit: the running point after `k` steps from the origin,
/// where step `m` applies the transform `ts[picks[m]]`.
pub open spec fn orbit_point(ts: Seq<AffineTransform>, picks: Seq<int>, k: int) -> (int, int)
    decreases k,
{
    if k <= 0 {
        (0, 0)
    } else {
        let prev = orbit_point(ts, picks, k - 1);
        chaos_step(ts[picks[k - 1]], prev.0, prev.1)
    }
}

/// The orbit after `k` steps depends only on the first `k` picks.
pub proof fn lemma_orbit_point_prefix(ts: Seq<AffineTransform>, a: Seq<int>, b: Seq<int>, k: int)
    requires
        0 <= k <= a.len() <= b.len(),
        forall|m: int| 0 <= m < k ==> a[m] == b[m],
    ensures
        orbit_point(ts, a, k) == orbit_point(ts, b, k),
    decreases k,
{
    if k > 0 {
        lemma_orbit_point_prefix(ts, a, b, k - 1);
    }
}

impl AffineTransform {
    /// Apply one chaos-game step to a point, exactly as [`chaos_step`]
    /// describes it.
    pub fn apply(&self, x: i64, y: i64) -> (p: (i64, i64))
        requires
            -COORD_LIMIT <= x <= COORD_LIMIT,
            -COORD_LIMIT <= y <= COORD_LIMIT,
        ensures
            (p.0 as int, p.1 as int) == chaos_step(*self, x as int, y as int),
            -COORD_LIMIT <= p.0 <= COORD_LIMIT,
            -COORD_LIMIT <= p.1 <= COORD_LIMIT,
    {
        let xn = mul_add_div(self.a, x, self.b, y, self.e);
        let yn = mul_add_div(self.c, xn, self.d, y, self.f);
        (xn, yn)
    }
}

} // verus!
