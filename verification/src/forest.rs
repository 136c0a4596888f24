//! The forest scene: many independently placed, randomly scaled copies of
//! one base tree fractal, accumulated into a single coordinate frame.

use crate::fixed::SCALE;
use crate::ifs::{bounds_widened, sample_effect, sampled_positions, IfsProgram, IfsView, Rgba};
use crate::mapset::{prefix_weight, total_weight, AffineMapSet};
use crate::random::RandomSource;
use crate::transform::AffineTransform;
use vstd::prelude::*;

verus! {

/// The color of most trees: a dark green.
pub open spec fn tree_green() -> Rgba {
    Rgba { r: 0, g: 390000, b: 0, a: 1000000 }
}

/// The color of a few trees: a bright yellow.
pub open spec fn tree_yellow() -> Rgba {
    Rgba { r: 800000, g: 950000, b: 0, a: 1000000 }
}

/// The color of the dead trees: a brown.
pub open spec fn tree_brown() -> Rgba {
    Rgba { r: 640000, g: 160000, b: 160000, a: 1000000 }
}

/// The colors a forest tree may be drawn in.
pub open spec fn forest_palette(c: Rgba) -> bool {
    c == tree_green() || c == tree_yellow() || c == tree_brown()
}

/// The table of the base tree fractal: the stem map, two crown maps rotated
/// against each other, and the small top map, with the classic weights
/// 5 : 40 : 40 : 15 out of 100.
pub open spec fn forest_table() -> Seq<AffineTransform> {
    seq![
        AffineTransform { a: 0, b: 0, c: 0, d: 500000, e: 0, f: 0, weight: 5 },
        AffineTransform { a: 420000, b: -420000i64, c: 420000, d: 420000, e: 0, f: 200000, weight: 40 },
        AffineTransform { a: 420000, b: 420000, c: -420000i64, d: 420000, e: 0, f: 200000, weight: 40 },
        AffineTransform { a: 100000, b: 0, c: 0, d: 100000, e: 0, f: 200000, weight: 15 },
    ]
}

/// The forest scene's transform table, exactly [`forest_table`].
pub fn forest_maps() -> (m: AffineMapSet)
    ensures
        m.wf(),
        m@ == forest_table(),
{
    let mut v: Vec<AffineTransform> = Vec::new();
    v.push(AffineTransform { a: 0, b: 0, c: 0, d: 500000, e: 0, f: 0, weight: 5 });
    v.push(
        AffineTransform { a: 420000, b: -420000, c: 420000, d: 420000, e: 0, f: 200000, weight: 40 },
    );
    v.push(
        AffineTransform { a: 420000, b: 420000, c: -420000, d: 420000, e: 0, f: 200000, weight: 40 },
    );
    v.push(AffineTransform { a: 100000, b: 0, c: 0, d: 100000, e: 0, f: 200000, weight: 15 });
    proof {
        reveal_with_fuel(prefix_weight, 5);
        assert(v@ =~= forest_table());
        assert(total_weight(v@) == 100);
    }
    AffineMapSet::new(v).unwrap()
}

/// `states` and `params` record one run of the forest loop: `states` is the
/// chain of accumulator states, and pass `k` takes state `k` to state `k + 1`
/// by one 2000-iteration sampling pass over the base tree table, with a
/// scale from `[1, 10)`, shifts from `[-0.5, 0.5)`, and a palette color.
pub open spec fn is_forest_run(
    pre: IfsView,
    post: IfsView,
    states: Seq<IfsView>,
    params: Seq<(int, int, int, Rgba)>,
    count: int,
) -> bool {
    &&& states.len() == count + 1
    &&& params.len() == count
    &&& states[0] == pre
    &&& states[count] == post
    &&& (forall|k: int|
        0 <= k < count ==> {
            let (scale, sx, sy, c) = #[trigger] params[k];
            &&& SCALE <= scale < 10 * SCALE
            &&& -500000 <= sx < 500000
            &&& -500000 <= sy < 500000
            &&& forest_palette(c)
            &&& sample_effect(states[k], states[k + 1], c, 2000)
            &&& sampled_positions(states[k], states[k + 1], forest_table(), 2000, scale, sx, sy)
        })
}

/// The forest scene is `count` placed copies of the base tree: some chain of
/// accumulator states and per-pass placements ties the final state to the
/// initial one by `count` sampling passes over [`forest_table`]. Which
/// placements were drawn is all that is left open.
pub open spec fn forest_effect(pre: IfsView, post: IfsView, count: int) -> bool {
    exists|states: Seq<IfsView>, params: Seq<(int, int, int, Rgba)>|
        #[trigger] is_forest_run(pre, post, states, params, count)
}

impl IfsProgram {
    /// The forest scene: `count` independently placed copies of the base
    /// tree, each sampled for 2000 iterations with a random shift in
    /// `[-0.5, 0.5)` on both axes, a random scale in `[1, 10)`, and a color
    /// from the forest palette — green for most trees, yellow or brown for a
    /// few. All copies share one coordinate frame, to be normalized together.
    pub fn draw_forest(&mut self, rng: &mut RandomSource, count: u32)
        requires
            old(self).wf(),
        ensures
            final(self).wf(),
            final(self)@.pending.len() == old(self)@.pending.len() + count * 1990,
            old(self)@.pending.is_prefix_of(final(self)@.pending),
            forall|i: int|
                old(self)@.pending.len() <= i < final(self)@.pending.len() ==> forest_palette(
                    (#[trigger] final(self)@.pending[i]).color,
                ),
            bounds_widened(old(self)@.bounds, final(self)@.bounds),
            final(self)@.normalized == old(self)@.normalized,
            final(self)@.clear_color == old(self)@.clear_color,
            forest_effect(old(self)@, final(self)@, count as int),
    {
        let maps = forest_maps();
        let mut k: u32 = 0;
        let ghost mut states: Seq<IfsView> = seq![old(self)@];
        let ghost mut params: Seq<(int, int, int, Rgba)> = Seq::empty();
        proof {
            assert(old(self)@.pending =~= old(self)@.pending.subrange(
                0,
                old(self)@.pending.len() as int,
            ));
        }
        while k < count
            invariant
                self.wf(),
                maps.wf(),
                maps@ == forest_table(),
                k <= count,
                self@.pending.len() == old(self)@.pending.len() + k * 1990,
                old(self)@.pending.is_prefix_of(self@.pending),
                forall|i: int|
                    old(self)@.pending.len() <= i < self@.pending.len() ==> forest_palette(
                        (#[trigger] self@.pending[i]).color,
                    ),
                bounds_widened(old(self)@.bounds, self@.bounds),
                self@.normalized == old(self)@.normalized,
                self@.clear_color == old(self)@.clear_color,
                states.len() == k + 1,
                params.len() == k,
                states[0] == old(self)@,
                states[k as int] == self@,
                forall|j: int|
                    0 <= j < k ==> {
                        let (scale, sx, sy, c) = #[trigger] params[j];
                        &&& SCALE <= scale < 10 * SCALE
                        &&& -500000 <= sx < 500000
                        &&& -500000 <= sy < 500000
                        &&& forest_palette(c)
                        &&& sample_effect(states[j], states[j + 1], c, 2000)
                        &&& sampled_positions(states[j], states[j + 1], forest_table(), 2000, scale, sx, sy)
                    },
            decreases count - k,
        {
            let shift_x = rng.next_in_range(-500000, 500000);
            let shift_y = rng.next_in_range(-500000, 500000);
            let scale = rng.next_in_range(1000000, 10000000);
            let decile = rng.next_below(10);
            let color = if decile <= 7 {
                Rgba { r: 0, g: 390000, b: 0, a: 1000000 }
            } else if decile == 8 {
                Rgba { r: 800000, g: 950000, b: 0, a: 1000000 }
            } else {
                Rgba { r: 640000, g: 160000, b: 160000, a: 1000000 }
            };
            let ghost mid = self@;
            self.sample_affine(&maps, rng, color, 2000, scale, shift_x, shift_y);
            proof {
                states = states.push(self@);
                params = params.push(
                    (scale as int, shift_x as int, shift_y as int, color),
                );
                assert(old(self)@.pending.is_prefix_of(self@.pending)) by {
                    assert(old(self)@.pending =~= self@.pending.subrange(
                        0,
                        old(self)@.pending.len() as int,
                    ));
                }
                assert forall|i: int|
                    old(self)@.pending.len() <= i < self@.pending.len() implies forest_palette(
                    (#[trigger] self@.pending[i]).color,
                ) by {
                    if i < mid.pending.len() {
                        assert(self@.pending[i] == mid.pending[i]);
                    } else {
                        assert(self@.pending[i].color == color);
                    }
                }
            }
            k = k + 1;
        }
        proof {
            assert(is_forest_run(old(self)@, self@, states, params, count as int));
        }
    }
}

/// Draw the forest scene into the given accumulator: the free-function form
/// of [`IfsProgram::draw_forest`], with the same meaning.
pub fn draw_forest(program: &mut IfsProgram, rng: &mut RandomSource, count: u32)
    requires
        old(program).wf(),
    ensures
        final(program).wf(),
        final(program)@.pending.len() == old(program)@.pending.len() + count * 1990,
        old(program)@.pending.is_prefix_of(final(program)@.pending),
        forall|i: int|
            old(program)@.pending.len() <= i < final(program)@.pending.len() ==> forest_palette(
                (#[trigger] final(program)@.pending[i]).color,
            ),
        bounds_widened(old(program)@.bounds, final(program)@.bounds),
        final(program)@.normalized == old(program)@.normalized,
        final(program)@.clear_color == old(program)@.clear_color,
        forest_effect(old(program)@, final(program)@, count as int),
{
    program.draw_forest(rng, count);
}

} // verus!
