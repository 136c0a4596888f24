//! The accumulator at the heart of the engine: chaos-game sampling into a
//! pending point list with a running bounding box, and deferred
//! normalization of the pending points into a target coordinate range.

use crate::error::IfsError;
use crate::fixed::{
    lemma_remap_edges, lemma_remap_in_range, map_coord, remap, shift_scale, shifted_scaled,
    COORD_LIMIT, SCALE,
};
use crate::mapset::AffineMapSet;
use crate::random::RandomSource;
use crate::transform::{chaos_step, lemma_orbit_point_prefix, orbit_point, AffineTransform};
use vstd::prelude::*;

verus! {

/// How many leading chaos-game iterations every sampling pass discards: the
/// starting point lies off the attractor and would contaminate the bounding
/// box and the point cloud.
pub const BURN_IN: usize = 10;

/// An RGBA color in fixed-point components, each conventionally in
/// `[0, SCALE]` (that is, 0.0 to 1.0).
#[derive(Clone, Copy, Debug, PartialEq, Eq, Structural)]
pub struct Rgba {
    pub r: i64,
    pub g: i64,
    pub b: i64,
    pub a: i64,
}

/// A sampled point: a fixed-point position and its color.
#[derive(Clone, Copy, Debug, PartialEq, Eq, Structural)]
pub struct ColoredVertex {
    pub x: i64,
    pub y: i64,
    pub color: Rgba,
}

/// The running bounding box of the pending points plus the flag recording
/// that normalization has run. The sentinel `(MAX, MIN, MAX, MIN)` stands
/// for the empty box: any sampled point widens it.
#[derive(Clone, Copy, Debug, PartialEq, Eq, Structural)]
pub struct MapParams {
    pub x_min: i64,
    pub x_max: i64,
    pub y_min: i64,
    pub y_max: i64,
    pub normalized: bool,
}

impl Default for MapParams {
    /// The empty bounding box, not yet normalized.
    fn default() -> (b: MapParams)
        ensures
            b == (MapParams {
                x_min: i64::MAX,
                x_max: i64::MIN,
                y_min: i64::MAX,
                y_max: i64::MIN,
                normalized: false,
            }),
    {
        MapParams {
            x_min: i64::MAX,
            x_max: i64::MIN,
            y_min: i64::MAX,
            y_max: i64::MIN,
            normalized: false,
        }
    }
}

/// The mathematical state of an accumulator: what its contracts speak of.
#[verifier::ext_equal]
pub struct IfsView {
    pub pending: Seq<ColoredVertex>,
    pub normalized: Seq<ColoredVertex>,
    pub bounds: MapParams,
    pub clear_color: Rgba,
}

/// Both coordinates of a point lie in the coordinate range.
pub open spec fn in_coord_range(p: ColoredVertex) -> bool {
    &&& -COORD_LIMIT <= p.x <= COORD_LIMIT
    &&& -COORD_LIMIT <= p.y <= COORD_LIMIT
}

/// Every point of the list lies in the coordinate range.
pub open spec fn coords_in_range(vs: Seq<ColoredVertex>) -> bool {
    forall|i: int| 0 <= i < vs.len() ==> in_coord_range(#[trigger] vs[i])
}

/// The point lies inside the box.
pub open spec fn point_within(b: MapParams, p: ColoredVertex) -> bool {
    &&& b.x_min <= p.x <= b.x_max
    &&& b.y_min <= p.y <= b.y_max
}

/// The box is exactly the bounding box of the points: the sentinel when
/// there are none, and otherwise each bound is attained by some point and
/// respected by all.
pub open spec fn bounds_match(pending: Seq<ColoredVertex>, b: MapParams) -> bool {
    if pending.len() == 0 {
        &&& b.x_min == i64::MAX
        &&& b.x_max == i64::MIN
        &&& b.y_min == i64::MAX
        &&& b.y_max == i64::MIN
    } else {
        &&& (forall|i: int| 0 <= i < pending.len() ==> point_within(b, #[trigger] pending[i]))
        &&& (exists|i: int| 0 <= i < pending.len() && (#[trigger] pending[i]).x == b.x_min)
        &&& (exists|i: int| 0 <= i < pending.len() && (#[trigger] pending[i]).x == b.x_max)
        &&& (exists|i: int| 0 <= i < pending.len() && (#[trigger] pending[i]).y == b.y_min)
        &&& (exists|i: int| 0 <= i < pending.len() && (#[trigger] pending[i]).y == b.y_max)
    }
}

/// The accumulator's invariant: all pending coordinates are in range and the
/// running box is exactly their bounding box.
pub open spec fn wf_view(v: IfsView) -> bool {
    &&& coords_in_range(v.pending)
    &&& bounds_match(v.pending, v.bounds)
}

/// The box widened to contain the point `(x, y)`.
pub open spec fn widened(b: MapParams, x: i64, y: i64) -> MapParams {
    MapParams {
        x_min: if x < b.x_min { x } else { b.x_min },
        x_max: if x > b.x_max { x } else { b.x_max },
        y_min: if y < b.y_min { y } else { b.y_min },
        y_max: if y > b.y_max { y } else { b.y_max },
        normalized: b.normalized,
    }
}

/// `post` contains `pre`: no minimum grew, no maximum shrank, and the
/// normalization flag is untouched. Every sampling pass relates the box
/// after the call to the box before the call this way, so bounds grow
/// monotonically over any sequence of sampling calls.
pub open spec fn bounds_widened(pre: MapParams, post: MapParams) -> bool {
    &&& post.x_min <= pre.x_min
    &&& post.x_max >= pre.x_max
    &&& post.y_min <= pre.y_min
    &&& post.y_max >= pre.y_max
    &&& post.normalized == pre.normalized
}

/// Widening is transitive: each sampling call widens the box over the call
/// before it, so over any sequence of sampling calls the box after call `k`
/// contains the box after call `k - 1`, which contains every earlier one.
pub proof fn lemma_bounds_widened_transitive(a: MapParams, b: MapParams, c: MapParams)
    requires
        bounds_widened(a, b),
        bounds_widened(b, c),
    ensures
        bounds_widened(a, c),
{
}

/// How many points a sampling pass of `iters` iterations appends: every
/// iteration past the burn-in keeps one point.
pub open spec fn kept_points(iters: int) -> int {
    if iters >= BURN_IN {
        iters - BURN_IN
    } else {
        0
    }
}

/// What one sampling pass does to the accumulator: it appends exactly
/// `kept_points(iters)` points, all carrying the given color, widens the
/// bounding box to cover them, and touches nothing else.
pub open spec fn sample_effect(pre: IfsView, post: IfsView, color: Rgba, iters: int) -> bool {
    &&& post.pending.len() == pre.pending.len() + kept_points(iters)
    &&& pre.pending.is_prefix_of(post.pending)
    &&& (forall|i: int|
        pre.pending.len() <= i < post.pending.len() ==> (#[trigger] post.pending[i]).color
            == color)
    &&& bounds_widened(pre.bounds, post.bounds)
    &&& post.normalized == pre.normalized
    &&& post.clear_color == pre.clear_color
}

/// `picks` drives one sampling pass of `iters` iterations: each pick is the
/// index of a positive-weight transform of the table, and each point the
/// pass keeps — the `n`-th orbit point for `n` past the burn-in — is placed
/// by the pass's shift and scale and appended in iteration order.
pub open spec fn is_orbit_of(
    pre: IfsView,
    post: IfsView,
    ts: Seq<AffineTransform>,
    picks: Seq<int>,
    iters: int,
    scale: int,
    shift_x: int,
    shift_y: int,
) -> bool {
    &&& picks.len() == iters
    &&& (forall|k: int|
        0 <= k < iters ==> 0 <= #[trigger] picks[k] < ts.len() && ts[picks[k]].weight > 0)
    &&& (forall|n: int|
        BURN_IN < n <= iters ==> {
            let q = #[trigger] orbit_point(ts, picks, n);
            let p = post.pending[pre.pending.len() + n - BURN_IN - 1];
            &&& p.x == shifted_scaled(q.0, shift_x, scale)
            &&& p.y == shifted_scaled(q.1, shift_y, scale)
        })
}

/// The appended points are a placed chaos-game orbit: some sequence of
/// positive-weight selections from the table produced exactly the positions
/// the pass recorded. Which sequence was drawn is all that is left open.
pub open spec fn sampled_positions(
    pre: IfsView,
    post: IfsView,
    ts: Seq<AffineTransform>,
    iters: int,
    scale: int,
    shift_x: int,
    shift_y: int,
) -> bool {
    exists|picks: Seq<int>|
        #[trigger] is_orbit_of(pre, post, ts, picks, iters, scale, shift_x, shift_y)
}

/// A pick sequence over a single identity transform leaves the orbit at the
/// origin forever.
proof fn lemma_identity_orbit(ts: Seq<AffineTransform>, picks: Seq<int>, n: int)
    requires
        ts.len() == 1,
        ts[0].a == SCALE,
        ts[0].b == 0,
        ts[0].c == 0,
        ts[0].d == SCALE,
        ts[0].e == 0,
        ts[0].f == 0,
        forall|m: int| 0 <= m < n ==> #[trigger] picks[m] == 0,
        0 <= n,
    ensures
        orbit_point(ts, picks, n) == (0int, 0int),
    decreases n,
{
    if n > 0 {
        lemma_identity_orbit(ts, picks, n - 1);
    }
}

/// A table whose single transform is the identity with no shift pins every
/// sampled point to the starting point: after an unshifted, unit-scale pass
/// into an empty accumulator, every pending point lies at the origin and the
/// bounding box has collapsed on both axes — so a normalization must report
/// the degenerate box rather than divide by it.
pub proof fn lemma_identity_transform_collapses_bounds(
    pre: IfsView,
    post: IfsView,
    ts: Seq<AffineTransform>,
    color: Rgba,
    iters: int,
)
    requires
        ts.len() == 1,
        ts[0].a == SCALE,
        ts[0].b == 0,
        ts[0].c == 0,
        ts[0].d == SCALE,
        ts[0].e == 0,
        ts[0].f == 0,
        pre.pending.len() == 0,
        iters > BURN_IN,
        sample_effect(pre, post, color, iters),
        sampled_positions(pre, post, ts, iters, SCALE as int, 0, 0),
        wf_view(post),
    ensures
        forall|j: int|
            0 <= j < post.pending.len() ==> (#[trigger] post.pending[j]).x == 0
                && post.pending[j].y == 0,
        post.bounds.x_min == 0 && post.bounds.x_max == 0,
        post.bounds.y_min == 0 && post.bounds.y_max == 0,
{
    let picks = choose|pk: Seq<int>|
        #[trigger] is_orbit_of(pre, post, ts, pk, iters, SCALE as int, 0, 0);
    assert forall|j: int|
        0 <= j < post.pending.len() implies (#[trigger] post.pending[j]).x == 0
        && post.pending[j].y == 0 by {
        let n = j + BURN_IN + 1;
        lemma_identity_orbit(ts, picks, n);
        assert(orbit_point(ts, picks, n) == (0int, 0int));
        assert(post.pending[pre.pending.len() + n - BURN_IN - 1].x == shifted_scaled(
            0,
            0,
            SCALE as int,
        ));
    }
    assert(post.pending.len() > 0);
    let w = choose|i: int| 0 <= i < post.pending.len() && (#[trigger] post.pending[i]).x
        == post.bounds.x_min;
    let v = choose|i: int| 0 <= i < post.pending.len() && (#[trigger] post.pending[i]).x
        == post.bounds.x_max;
    let u = choose|i: int| 0 <= i < post.pending.len() && (#[trigger] post.pending[i]).y
        == post.bounds.y_min;
    let z = choose|i: int| 0 <= i < post.pending.len() && (#[trigger] post.pending[i]).y
        == post.bounds.y_max;
    assert(post.pending[w].x == 0 && post.pending[v].x == 0);
    assert(post.pending[u].y == 0 && post.pending[z].y == 0);
}

/// One pending point remapped from the source box into the target ranges.
pub open spec fn remapped_vertex(
    p: ColoredVertex,
    b: MapParams,
    xt0: int,
    xt1: int,
    yt0: int,
    yt1: int,
) -> ColoredVertex {
    ColoredVertex {
        x: remap(p.x as int, b.x_min as int, b.x_max as int, xt0, xt1) as i64,
        y: remap(p.y as int, b.y_min as int, b.y_max as int, yt0, yt1) as i64,
        color: p.color,
    }
}

/// The whole pending list remapped, in order.
pub open spec fn remapped_seq(
    pending: Seq<ColoredVertex>,
    b: MapParams,
    xt0: int,
    xt1: int,
    yt0: int,
    yt1: int,
) -> Seq<ColoredVertex> {
    Seq::new(pending.len(), |i: int| remapped_vertex(pending[i], b, xt0, xt1, yt0, yt1))
}

/// What normalization into the target ranges does, case by case. With no
/// pending points it only sets the flag — calling it again right after a
/// normalization changes nothing else. With pending points whose box is
/// degenerate on either axis it fails and leaves the accumulator untouched.
/// Otherwise it remaps every pending point into the targets, appends them to
/// the normalized list in order, clears the pending list and resets the box.
pub open spec fn normalize_spec(
    pre: IfsView,
    post: IfsView,
    r: Result<(), IfsError>,
    xt0: int,
    xt1: int,
    yt0: int,
    yt1: int,
) -> bool {
    if pre.pending.len() == 0 {
        &&& r == Ok::<(), IfsError>(())
        &&& post == (IfsView {
            bounds: MapParams { normalized: true, ..pre.bounds },
            ..pre
        })
    } else if pre.bounds.x_min == pre.bounds.x_max || pre.bounds.y_min == pre.bounds.y_max {
        &&& r == Err::<(), IfsError>(IfsError::DegenerateBounds)
        &&& post == pre
    } else {
        &&& r == Ok::<(), IfsError>(())
        &&& post.normalized == pre.normalized + remapped_seq(pre.pending, pre.bounds, xt0, xt1, yt0, yt1)
        &&& post.pending.len() == 0
        &&& post.bounds == (MapParams {
            x_min: i64::MAX,
            x_max: i64::MIN,
            y_min: i64::MAX,
            y_max: i64::MIN,
            normalized: true,
        })
        &&& post.clear_color == pre.clear_color
    }
}

/// The point list a finished accumulator hands to the renderer: the
/// normalized list, with any still-pending points normalized into the full
/// display range first.
pub open spec fn finished_points(pre: IfsView) -> Seq<ColoredVertex> {
    if pre.pending.len() == 0 {
        pre.normalized
    } else {
        pre.normalized + remapped_seq(
            pre.pending,
            pre.bounds,
            -SCALE as int,
            SCALE as int,
            -SCALE as int,
            SCALE as int,
        )
    }
}

/// Every remapped point lies within the target ranges, whichever way round
/// each target pair is given. Together with the exact contract of
/// normalization this says: after normalizing into `[-1, 1]`, every
/// normalized point's coordinates lie in `[-1, 1]`.
pub proof fn lemma_normalized_in_range(
    pending: Seq<ColoredVertex>,
    b: MapParams,
    xt0: int,
    xt1: int,
    yt0: int,
    yt1: int,
    j: int,
)
    requires
        coords_in_range(pending),
        bounds_match(pending, b),
        0 <= j < pending.len(),
        b.x_min != b.x_max,
        b.y_min != b.y_max,
        i64::MIN <= xt0 <= i64::MAX,
        i64::MIN <= xt1 <= i64::MAX,
        i64::MIN <= yt0 <= i64::MAX,
        i64::MIN <= yt1 <= i64::MAX,
    ensures
        xt0 <= xt1 ==> xt0 <= remapped_seq(pending, b, xt0, xt1, yt0, yt1)[j].x <= xt1,
        xt1 <= xt0 ==> xt1 <= remapped_seq(pending, b, xt0, xt1, yt0, yt1)[j].x <= xt0,
        yt0 <= yt1 ==> yt0 <= remapped_seq(pending, b, xt0, xt1, yt0, yt1)[j].y <= yt1,
        yt1 <= yt0 ==> yt1 <= remapped_seq(pending, b, xt0, xt1, yt0, yt1)[j].y <= yt0,
{
    assert(point_within(b, pending[j]));
    lemma_remap_in_range(pending[j].x as int, b.x_min as int, b.x_max as int, xt0, xt1);
    lemma_remap_in_range(pending[j].y as int, b.y_min as int, b.y_max as int, yt0, yt1);
}

/// A pending point that attained one of the four bounds is remapped exactly
/// onto the matching target endpoint: the pre-normalization minimum maps to
/// the low target, the maximum to the high target, on each axis.
pub proof fn lemma_extremes_map_to_targets(
    pending: Seq<ColoredVertex>,
    b: MapParams,
    xt0: int,
    xt1: int,
    yt0: int,
    yt1: int,
    j: int,
)
    requires
        coords_in_range(pending),
        bounds_match(pending, b),
        0 <= j < pending.len(),
        b.x_min != b.x_max,
        b.y_min != b.y_max,
        i64::MIN <= xt0 <= i64::MAX,
        i64::MIN <= xt1 <= i64::MAX,
        i64::MIN <= yt0 <= i64::MAX,
        i64::MIN <= yt1 <= i64::MAX,
    ensures
        pending[j].x == b.x_min ==> remapped_seq(pending, b, xt0, xt1, yt0, yt1)[j].x == xt0,
        pending[j].x == b.x_max ==> remapped_seq(pending, b, xt0, xt1, yt0, yt1)[j].x == xt1,
        pending[j].y == b.y_min ==> remapped_seq(pending, b, xt0, xt1, yt0, yt1)[j].y == yt0,
        pending[j].y == b.y_max ==> remapped_seq(pending, b, xt0, xt1, yt0, yt1)[j].y == yt1,
{
    assert(point_within(b, pending[j]));
    lemma_remap_in_range(pending[j].x as int, b.x_min as int, b.x_max as int, xt0, xt1);
    lemma_remap_in_range(pending[j].y as int, b.y_min as int, b.y_max as int, yt0, yt1);
    lemma_remap_edges(b.x_min as int, b.x_max as int, xt0, xt1);
    lemma_remap_edges(b.y_min as int, b.y_max as int, yt0, yt1);
}

/// The finished draw request: an ordered point list, the background clear
/// color, and an optional point-rendering diameter, handed as plain data to
/// whatever renders it.
#[derive(Debug)]
pub struct DrawRequest {
    pub points: Vec<ColoredVertex>,
    pub clear_color: Rgba,
    pub point_size: Option<i64>,
}

impl DrawRequest {
    /// True when there is nothing to draw: the accumulator never kept a
    /// point. A valid image of nothing — distinguishable from the
    /// degenerate-bounds failure, which is an error.
    pub fn is_empty(&self) -> (b: bool)
        ensures
            b <==> self.points@.len() == 0,
    {
        self.points.len() == 0
    }
}

/// The accumulator: a pending point list with its running bounding box, a
/// normalized point list, and the background clear color.
pub struct IfsProgram {
    uniforms: MapParams,
    vertices: Vec<ColoredVertex>,
    normalized_vertices: Vec<ColoredVertex>,
    clear_color: Rgba,
}

impl View for IfsProgram {
    type V = IfsView;

    closed spec fn view(&self) -> IfsView {
        IfsView {
            pending: self.vertices@,
            normalized: self.normalized_vertices@,
            bounds: self.uniforms,
            clear_color: self.clear_color,
        }
    }
}

impl Default for IfsProgram {
    /// A fresh accumulator: no points, the empty-box sentinel, and a white
    /// clear color.
    fn default() -> (p: IfsProgram)
        ensures
            p.wf(),
            p@.pending.len() == 0,
            p@.normalized.len() == 0,
            p@.bounds == (MapParams {
                x_min: i64::MAX,
                x_max: i64::MIN,
                y_min: i64::MAX,
                y_max: i64::MIN,
                normalized: false,
            }),
            p@.clear_color == (Rgba { r: SCALE, g: SCALE, b: SCALE, a: SCALE }),
    {
        IfsProgram {
            uniforms: MapParams::default(),
            vertices: Vec::new(),
            normalized_vertices: Vec::new(),
            clear_color: Rgba { r: SCALE, g: SCALE, b: SCALE, a: SCALE },
        }
    }
}

impl IfsProgram {
    /// The accumulator's invariant, over its mathematical state.
    pub open spec fn wf(&self) -> bool {
        wf_view(self@)
    }

    /// The pending, not yet normalized points.
    pub fn pending_points(&self) -> (r: &Vec<ColoredVertex>)
        ensures
            r@ == self@.pending,
    {
        &self.vertices
    }

    /// The already normalized points.
    pub fn normalized_points(&self) -> (r: &Vec<ColoredVertex>)
        ensures
            r@ == self@.normalized,
    {
        &self.normalized_vertices
    }

    /// The running bounding box and normalization flag.
    pub fn bounds(&self) -> (b: MapParams)
        ensures
            b == self@.bounds,
    {
        self.uniforms
    }

    /// Set the background clear color handed to the renderer.
    pub fn set_clear_color(&mut self, color: Rgba)
        ensures
            final(self)@ == (IfsView { clear_color: color, ..old(self)@ }),
    {
        self.clear_color = color;
    }

    /// Append one placed point and widen the running box to cover it.
    fn record_point(&mut self, px: i64, py: i64, color: Rgba)
        requires
            old(self).wf(),
            -COORD_LIMIT <= px <= COORD_LIMIT,
            -COORD_LIMIT <= py <= COORD_LIMIT,
        ensures
            final(self).wf(),
            final(self)@.pending == old(self)@.pending.push(
                ColoredVertex { x: px, y: py, color },
            ),
            final(self)@.bounds == widened(old(self)@.bounds, px, py),
            final(self)@.normalized == old(self)@.normalized,
            final(self)@.clear_color == old(self)@.clear_color,
    {
        if px < self.uniforms.x_min {
            self.uniforms.x_min = px;
        }
        if px > self.uniforms.x_max {
            self.uniforms.x_max = px;
        }
        if py < self.uniforms.y_min {
            self.uniforms.y_min = py;
        }
        if py > self.uniforms.y_max {
            self.uniforms.y_max = py;
        }
        self.vertices.push(ColoredVertex { x: px, y: py, color });
        proof {
            let pre = old(self)@.pending;
            let post = self@.pending;
            let n = pre.len() as int;
            let b0 = old(self)@.bounds;
            let b1 = self@.bounds;
            assert forall|i: int| 0 <= i < post.len() implies in_coord_range(
                #[trigger] post[i],
            ) by {
                if i < n {
                    assert(in_coord_range(pre[i]));
                }
            }
            assert forall|i: int| 0 <= i < post.len() implies point_within(
                b1,
                #[trigger] post[i],
            ) by {
                if i < n {
                    assert(point_within(b0, pre[i]));
                }
            }
            if px < b0.x_min {
                assert(post[n].x == b1.x_min);
            } else {
                assert(pre.len() > 0);
                let w = choose|i: int| 0 <= i < n && (#[trigger] pre[i]).x == b0.x_min;
                assert(post[w].x == b1.x_min);
            }
            if px > b0.x_max {
                assert(post[n].x == b1.x_max);
            } else {
                assert(pre.len() > 0);
                let w = choose|i: int| 0 <= i < n && (#[trigger] pre[i]).x == b0.x_max;
                assert(post[w].x == b1.x_max);
            }
            if py < b0.y_min {
                assert(post[n].y == b1.y_min);
            } else {
                assert(pre.len() > 0);
                let w = choose|i: int| 0 <= i < n && (#[trigger] pre[i]).y == b0.y_min;
                assert(post[w].y == b1.y_min);
            }
            if py > b0.y_max {
                assert(post[n].y == b1.y_max);
            } else {
                assert(pre.len() > 0);
                let w = choose|i: int| 0 <= i < n && (#[trigger] pre[i]).y == b0.y_max;
                assert(post[w].y == b1.y_max);
            }
        }
    }

    /// One pass of the chaos game: starting from the origin, draw a weighted
    /// transform and step the running point `iters` times; after the burn-in,
    /// shift and scale each point and record it under the given color. The
    /// box after the call covers the box before it, so bounds grow
    /// monotonically over any sequence of sampling calls.
    pub fn sample_affine(
        &mut self,
        maps: &AffineMapSet,
        rng: &mut RandomSource,
        color: Rgba,
        iters: usize,
        scale: i64,
        shift_x: i64,
        shift_y: i64,
    )
        requires
            old(self).wf(),
            maps.wf(),
        ensures
            final(self).wf(),
            sample_effect(old(self)@, final(self)@, color, iters as int),
            sampled_positions(
                old(self)@,
                final(self)@,
                maps@,
                iters as int,
                scale as int,
                shift_x as int,
                shift_y as int,
            ),
    {
        let mut x: i64 = 0;
        let mut y: i64 = 0;
        let mut i: usize = 0;
        let ghost mut picks: Seq<int> = Seq::empty();
        proof {
            assert(old(self)@.pending =~= old(self)@.pending.subrange(
                0,
                old(self)@.pending.len() as int,
            ));
        }
        while i < iters
            invariant
                self.wf(),
                maps.wf(),
                i <= iters,
                -COORD_LIMIT <= x <= COORD_LIMIT,
                -COORD_LIMIT <= y <= COORD_LIMIT,
                sample_effect(old(self)@, self@, color, i as int),
                picks.len() == i,
                forall|k: int|
                    0 <= k < i ==> 0 <= #[trigger] picks[k] < maps@.len()
                        && maps@[picks[k]].weight > 0,
                (x as int, y as int) == orbit_point(maps@, picks, i as int),
                forall|n: int|
                    BURN_IN < n <= i ==> {
                        let q = #[trigger] orbit_point(maps@, picks, n);
                        let p = self@.pending[old(self)@.pending.len() + n - BURN_IN - 1];
                        &&& p.x == shifted_scaled(q.0, shift_x as int, scale as int)
                        &&& p.y == shifted_scaled(q.1, shift_y as int, scale as int)
                    },
            decreases iters - i,
        {
            let t = maps.select(rng);
            let ghost idx = choose|j: int|
                0 <= j < maps@.len() && t == maps@[j] && maps@[j].weight > 0;
            let p = t.apply(x, y);
            proof {
                let prev = picks;
                picks = picks.push(idx);
                assert forall|n: int| 0 <= n <= i implies orbit_point(maps@, picks, n)
                    == orbit_point(maps@, prev, n) by {
                    lemma_orbit_point_prefix(maps@, prev, picks, n);
                }
                assert(orbit_point(maps@, picks, i + 1) == chaos_step(
                    maps@[idx],
                    x as int,
                    y as int,
                ));
            }
            x = p.0;
            y = p.1;
            if i >= BURN_IN {
                let sx = shift_scale(x, shift_x, scale);
                let sy = shift_scale(y, shift_y, scale);
                self.record_point(sx, sy, color);
                proof {
                    assert(old(self)@.pending.is_prefix_of(self@.pending)) by {
                        assert(old(self)@.pending =~= self@.pending.subrange(
                            0,
                            old(self)@.pending.len() as int,
                        ));
                    }
                }
            }
            i = i + 1;
        }
        proof {
            assert(is_orbit_of(
                old(self)@,
                self@,
                maps@,
                picks,
                iters as int,
                scale as int,
                shift_x as int,
                shift_y as int,
            ));
        }
    }

    /// Sampling with the identity placement: no shift, unit scale.
    pub fn sample(
        &mut self,
        maps: &AffineMapSet,
        rng: &mut RandomSource,
        color: Rgba,
        iters: usize,
    )
        requires
            old(self).wf(),
            maps.wf(),
        ensures
            final(self).wf(),
            sample_effect(old(self)@, final(self)@, color, iters as int),
            sampled_positions(old(self)@, final(self)@, maps@, iters as int, SCALE as int, 0, 0),
    {
        self.sample_affine(maps, rng, color, iters, SCALE, 0, 0);
    }

    /// Remap every pending point from the running box into the given target
    /// ranges, move the results onto the normalized list, clear the pending
    /// list and reset the box — or fail with `DegenerateBounds`, leaving the
    /// accumulator untouched, when all pending points share one x or one y
    /// coordinate. With no pending points this only sets the flag, so a
    /// second normalization right after a first is harmless.
    pub fn normalize_points_to_ranges(
        &mut self,
        x_min: i64,
        x_max: i64,
        y_min: i64,
        y_max: i64,
    ) -> (r: Result<(), IfsError>)
        requires
            old(self).wf(),
        ensures
            final(self).wf(),
            normalize_spec(
                old(self)@,
                final(self)@,
                r,
                x_min as int,
                x_max as int,
                y_min as int,
                y_max as int,
            ),
    {
        let n = self.vertices.len();
        if n == 0 {
            self.uniforms.normalized = true;
            return Ok(());
        }
        let bx_min = self.uniforms.x_min;
        let bx_max = self.uniforms.x_max;
        let by_min = self.uniforms.y_min;
        let by_max = self.uniforms.y_max;
        if bx_min == bx_max || by_min == by_max {
            return Err(IfsError::DegenerateBounds);
        }
        proof {
            let pending = old(self)@.pending;
            let w = choose|i: int| 0 <= i < pending.len() && (#[trigger] pending[i]).x == bx_min;
            assert(point_within(old(self)@.bounds, pending[w]));
            assert(in_coord_range(pending[w]));
            let v = choose|i: int| 0 <= i < pending.len() && (#[trigger] pending[i]).x == bx_max;
            assert(point_within(old(self)@.bounds, pending[v]));
            assert(in_coord_range(pending[v]));
            let u = choose|i: int| 0 <= i < pending.len() && (#[trigger] pending[i]).y == by_min;
            assert(point_within(old(self)@.bounds, pending[u]));
            assert(in_coord_range(pending[u]));
            let z = choose|i: int| 0 <= i < pending.len() && (#[trigger] pending[i]).y == by_max;
            assert(point_within(old(self)@.bounds, pending[z]));
            assert(in_coord_range(pending[z]));
        }
        let ghost rseq = remapped_seq(
            old(self)@.pending,
            old(self)@.bounds,
            x_min as int,
            x_max as int,
            y_min as int,
            y_max as int,
        );
        let mut i: usize = 0;
        proof {
            assert(self@.normalized =~= old(self)@.normalized + rseq.subrange(0, 0));
        }
        while i < n
            invariant
                self.wf(),
                self@.pending == old(self)@.pending,
                self@.bounds == old(self)@.bounds,
                self@.clear_color == old(self)@.clear_color,
                n == self@.pending.len(),
                bx_min == self@.bounds.x_min,
                bx_max == self@.bounds.x_max,
                by_min == self@.bounds.y_min,
                by_max == self@.bounds.y_max,
                bx_min < bx_max,
                by_min < by_max,
                -COORD_LIMIT <= bx_min,
                bx_max <= COORD_LIMIT,
                -COORD_LIMIT <= by_min,
                by_max <= COORD_LIMIT,
                i <= n,
                rseq == remapped_seq(
                    old(self)@.pending,
                    old(self)@.bounds,
                    x_min as int,
                    x_max as int,
                    y_min as int,
                    y_max as int,
                ),
                self@.normalized == old(self)@.normalized + rseq.subrange(0, i as int),
            decreases n - i,
        {
            let v = self.vertices[i];
            proof {
                assert(point_within(self@.bounds, self@.pending[i as int]));
            }
            let nx = map_coord(v.x, bx_min, bx_max, x_min, x_max);
            let ny = map_coord(v.y, by_min, by_max, y_min, y_max);
            self.normalized_vertices.push(ColoredVertex { x: nx, y: ny, color: v.color });
            proof {
                assert(self@.normalized =~= old(self)@.normalized + rseq.subrange(
                    0,
                    (i + 1) as int,
                ));
            }
            i = i + 1;
        }
        self.vertices.clear();
        self.uniforms = MapParams {
            x_min: i64::MAX,
            x_max: i64::MIN,
            y_min: i64::MAX,
            y_max: i64::MIN,
            normalized: true,
        };
        proof {
            assert(rseq.subrange(0, n as int) =~= rseq);
        }
        Ok(())
    }

    /// Normalization into the full display range `[-1, 1] × [-1, 1]`.
    pub fn normalize_points(&mut self) -> (r: Result<(), IfsError>)
        requires
            old(self).wf(),
        ensures
            final(self).wf(),
            normalize_spec(
                old(self)@,
                final(self)@,
                r,
                -SCALE as int,
                SCALE as int,
                -SCALE as int,
                SCALE as int,
            ),
    {
        self.normalize_points_to_ranges(-SCALE, SCALE, -SCALE, SCALE)
    }

    /// Finish the accumulator: force a final full-range normalization of
    /// anything still pending, then hand the whole normalized point list,
    /// the clear color and the point size over as a draw request, leaving
    /// the accumulator empty. Fails with `DegenerateBounds`, leaving the
    /// accumulator untouched, exactly when the final normalization does. An
    /// accumulator that never kept a point yields an empty request, which is
    /// not an error.
    pub fn run(&mut self, point_size: Option<i64>) -> (r: Result<DrawRequest, IfsError>)
        requires
            old(self).wf(),
        ensures
            final(self).wf(),
            (old(self)@.pending.len() > 0 && (old(self)@.bounds.x_min == old(self)@.bounds.x_max
                || old(self)@.bounds.y_min == old(self)@.bounds.y_max)) ==> {
                &&& r == Err::<DrawRequest, IfsError>(IfsError::DegenerateBounds)
                &&& final(self)@ == old(self)@
            },
            (old(self)@.pending.len() == 0 || (old(self)@.bounds.x_min != old(self)@.bounds.x_max
                && old(self)@.bounds.y_min != old(self)@.bounds.y_max)) ==> {
                &&& r matches Ok(req)
                &&& req.points@ == finished_points(old(self)@)
                &&& req.clear_color == old(self)@.clear_color
                &&& req.point_size == point_size
                &&& final(self)@.pending.len() == 0
                &&& final(self)@.normalized.len() == 0
                &&& final(self)@.bounds.normalized
                &&& final(self)@.clear_color == old(self)@.clear_color
            },
    {
        match self.normalize_points() {
            Err(e) => Err(e),
            Ok(()) => {
                assert(self@.pending.len() == 0);
                let mut points: Vec<ColoredVertex> = Vec::new();
                core::mem::swap(&mut points, &mut self.normalized_vertices);
                Ok(DrawRequest { points, clear_color: self.clear_color, point_size })
            },
        }
    }
}

} // verus!
