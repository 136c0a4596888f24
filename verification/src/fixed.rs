//! Fixed-point scalars and the exact arithmetic the sampler is built on.
//!
//! A scalar is an `i64` holding the real value times [`SCALE`]. Products are
//! computed in `i128` and divided back down by [`SCALE`] with Euclidean
//! (floor, for a positive divisor) division, and coordinates are clamped into
//! `[-COORD_LIMIT, COORD_LIMIT]`, so every operation here is total and its
//! result is pinned exactly by a spec function.

use vstd::arithmetic::div_mod::{
    lemma_div_is_ordered, lemma_div_multiples_vanish, lemma_div_of0, lemma_div_pos_is_pos,
    lemma_fundamental_div_mod, lemma_mod_division_less_than_divisor,
};
use vstd::prelude::*;

verus! {

/// Number of fixed-point units in one real unit: an `i64` scalar `v` stands
/// for the real number `v / SCALE`.
pub const SCALE: i64 = 1_000_000;

/// Largest magnitude a coordinate may take. Sampled points are clamped into
/// `[-COORD_LIMIT, COORD_LIMIT]`, which keeps every intermediate product of
/// the sampler and of the normalizer inside `i128`.
pub const COORD_LIMIT: i64 = 1_000_000_000_000_000_000;

/// `v` clamped into the coordinate range.
pub open spec fn clamped(v: int) -> int {
    if v < -COORD_LIMIT {
        (-COORD_LIMIT) as int
    } else if v > COORD_LIMIT {
        COORD_LIMIT as int
    } else {
        v
    }
}

/// One linear form of a chaos-game step: `(a*x + b*y) / SCALE + offset`,
/// clamped into the coordinate range. `a` and `b` are fixed-point
/// coefficients, so the division by `SCALE` undoes their scaling.
pub open spec fn linear_step(a: int, x: int, b: int, y: int, offset: int) -> int {
    clamped((a * x + b * y) / (SCALE as int) + offset)
}

/// The placement a sampling pass applies to a raw point before recording it:
/// shift first, then scale (`(v + shift) * scale` over the reals).
pub open spec fn shifted_scaled(v: int, shift: int, scale: int) -> int {
    clamped((v + shift) * scale / (SCALE as int))
}

/// The linear remap normalization applies to one coordinate: `v` is taken
/// from `[in_min, in_max]` to `[out_min, out_max]`, rounding down.
pub open spec fn remap(v: int, in_min: int, in_max: int, out_min: int, out_max: int) -> int
    recommends
        in_min < in_max,
{
    (v - in_min) * (out_max - out_min) / (in_max - in_min) + out_min
}

/// A quotient by a positive divisor stays between any bounds around the
/// dividend that straddle zero.
pub proof fn lemma_div_range(x: int, d: int, lo: int, hi: int)
    requires
        d >= 1,
        lo <= x <= hi,
        lo <= 0,
        hi >= 0,
    ensures
        lo <= x / d <= hi,
{
    lemma_fundamental_div_mod(x, d);
    lemma_mod_division_less_than_divisor(x, d);
    assert(lo <= x / d <= hi) by (nonlinear_arith)
        requires
            d >= 1,
            lo <= x <= hi,
            lo <= 0,
            hi >= 0,
            x == d * (x / d) + x % d,
            0 <= x % d < d;
}

/// Bound on a product from bounds on its factors.
pub proof fn lemma_mul_range(x: int, y: int, mx: int, my: int)
    requires
        -mx <= x <= mx,
        -my <= y <= my,
        0 <= mx,
        0 <= my,
    ensures
        -(mx * my) <= x * y <= mx * my,
{
    assert(-(mx * my) <= x * y <= mx * my) by (nonlinear_arith)
        requires
            -mx <= x <= mx,
            -my <= y <= my,
            0 <= mx,
            0 <= my;
}

/// The remap keeps a value from inside the source interval inside the target
/// interval, whichever way round the target interval is given.
pub proof fn lemma_remap_in_range(v: int, in_min: int, in_max: int, out_min: int, out_max: int)
    requires
        in_min <= v <= in_max,
        in_min < in_max,
    ensures
        out_min <= out_max ==> out_min <= remap(v, in_min, in_max, out_min, out_max) <= out_max,
        out_max <= out_min ==> out_max <= remap(v, in_min, in_max, out_min, out_max) <= out_min,
{
    let num = v - in_min;
    let den = in_max - in_min;
    let span = out_max - out_min;
    if span >= 0 {
        assert(0 <= num * span <= den * span) by (nonlinear_arith)
            requires
                0 <= num <= den,
                0 <= span;
        lemma_div_pos_is_pos(num * span, den);
        lemma_div_is_ordered(num * span, den * span, den);
        lemma_div_multiples_vanish(span, den);
    } else {
        assert(den * span <= num * span <= 0) by (nonlinear_arith)
            requires
                0 <= num <= den,
                span < 0;
        lemma_div_is_ordered(den * span, num * span, den);
        lemma_div_is_ordered(num * span, 0, den);
        lemma_div_of0(den);
        lemma_div_multiples_vanish(span, den);
    }
}

/// The endpoints of the source interval map exactly onto the endpoints of
/// the target interval.
pub proof fn lemma_remap_edges(in_min: int, in_max: int, out_min: int, out_max: int)
    requires
        in_min < in_max,
    ensures
        remap(in_min, in_min, in_max, out_min, out_max) == out_min,
        remap(in_max, in_min, in_max, out_min, out_max) == out_max,
{
    let den = in_max - in_min;
    let span = out_max - out_min;
    lemma_div_of0(den);
    lemma_div_multiples_vanish(span, den);
}

/// Euclidean division with a positive divisor; the quotient of `x / d` in
/// specifications is exactly this.
fn div_euclid_i128(x: i128, d: i128) -> (q: i128)
    requires
        d >= 1,
    ensures
        q == x as int / d as int,
{
    proof {
        lemma_div_range(x as int, d as int, i128::MIN as int, i128::MAX as int);
    }
    x.checked_div_euclid(d).unwrap()
}

/// Clamp an intermediate value into the coordinate range.
fn clamp_i128(v: i128) -> (r: i64)
    ensures
        r == clamped(v as int),
{
    if v < -(COORD_LIMIT as i128) {
        -COORD_LIMIT
    } else if v > COORD_LIMIT as i128 {
        COORD_LIMIT
    } else {
        v as i64
    }
}

/// `(a*x + b*y) / SCALE + offset`, clamped: one coordinate of a chaos-game
/// step, computed exactly over `i128`.
pub fn mul_add_div(a: i64, x: i64, b: i64, y: i64, offset: i64) -> (r: i64)
    requires
        -COORD_LIMIT <= x <= COORD_LIMIT,
        -COORD_LIMIT <= y <= COORD_LIMIT,
    ensures
        r == linear_step(a as int, x as int, b as int, y as int, offset as int),
        -COORD_LIMIT <= r <= COORD_LIMIT,
{
    proof {
        lemma_mul_range(a as int, x as int, i64::MAX as int + 1, COORD_LIMIT as int);
        lemma_mul_range(b as int, y as int, i64::MAX as int + 1, COORD_LIMIT as int);
    }
    let p: i128 = (a as i128) * (x as i128);
    let q: i128 = (b as i128) * (y as i128);
    let s: i128 = p + q;
    let t: i128 = div_euclid_i128(s, SCALE as i128);
    proof {
        lemma_div_range(s as int, SCALE as int, -(2 * (i64::MAX as int + 1) * COORD_LIMIT), 2 * (i64::MAX as int + 1) * COORD_LIMIT);
    }
    clamp_i128(t + (offset as i128))
}

/// `(v + shift) * scale / SCALE`, clamped: the placement applied to one
/// coordinate of a raw sample point.
pub fn shift_scale(v: i64, shift: i64, scale: i64) -> (r: i64)
    requires
        -COORD_LIMIT <= v <= COORD_LIMIT,
    ensures
        r == shifted_scaled(v as int, shift as int, scale as int),
        -COORD_LIMIT <= r <= COORD_LIMIT,
{
    let s: i128 = (v as i128) + (shift as i128);
    proof {
        lemma_mul_range(s as int, scale as int, COORD_LIMIT as int + i64::MAX as int + 1, i64::MAX as int + 1);
    }
    let p: i128 = s * (scale as i128);
    let q: i128 = div_euclid_i128(p, SCALE as i128);
    clamp_i128(q)
}

/// The linear remap, computed exactly over `i128`. The source interval must
/// be a genuine interval of coordinates; the target interval is arbitrary.
pub fn map_coord(v: i64, in_min: i64, in_max: i64, out_min: i64, out_max: i64) -> (r: i64)
    requires
        in_min <= v <= in_max,
        in_min < in_max,
        -COORD_LIMIT <= in_min,
        in_max <= COORD_LIMIT,
    ensures
        r == remap(v as int, in_min as int, in_max as int, out_min as int, out_max as int),
{
    let num: i128 = (v as i128) - (in_min as i128);
    let span: i128 = (out_max as i128) - (out_min as i128);
    let den: i128 = (in_max as i128) - (in_min as i128);
    proof {
        lemma_mul_range(num as int, span as int, 2 * COORD_LIMIT as int, 2 * (i64::MAX as int + 1));
        lemma_remap_in_range(v as int, in_min as int, in_max as int, out_min as int, out_max as int);
    }
    let prod: i128 = num * span;
    let q: i128 = div_euclid_i128(prod, den);
    (q + (out_min as i128)) as i64
}

} // verus!
