//! An immutable table of weighted affine transforms with weighted random
//! selection over a cumulative-weight table.

use crate::error::IfsError;
use crate::random::RandomSource;
use crate::transform::AffineTransform;
use vstd::prelude::*;
use vstd::set_lib::{lemma_int_range, set_int_range};

verus! {

/// Sum of the weights of the first `i` transforms.
pub open spec fn prefix_weight(ts: Seq<AffineTransform>, i: int) -> int
    decreases i,
{
    if i <= 0 {
        0
    } else {
        prefix_weight(ts, i - 1) + ts[i - 1].weight
    }
}

/// Sum of all the weights in the table.
pub open spec fn total_weight(ts: Seq<AffineTransform>) -> int {
    prefix_weight(ts, ts.len() as int)
}

/// The set of uniform draws from `[0, total_weight)` that select transform
/// `i`: its half-open cumulative-weight bucket.
pub open spec fn bucket(ts: Seq<AffineTransform>, i: int) -> Set<int> {
    Set::new(|r: int| prefix_weight(ts, i) <= r < prefix_weight(ts, i + 1))
}

/// Prefix sums of weights never decrease.
pub proof fn lemma_prefix_weight_mono(ts: Seq<AffineTransform>, i: int, j: int)
    requires
        0 <= i <= j,
    ensures
        prefix_weight(ts, i) <= prefix_weight(ts, j),
    decreases j - i,
{
    if i < j {
        lemma_prefix_weight_mono(ts, i, j - 1);
    }
}

/// A prefix sum of `i` weights lies between 0 and `i` times the largest
/// weight a transform can carry.
pub proof fn lemma_prefix_weight_bound(ts: Seq<AffineTransform>, i: int)
    requires
        0 <= i,
    ensures
        0 <= prefix_weight(ts, i) <= i * (u32::MAX as int),
    decreases i,
{
    if i > 0 {
        lemma_prefix_weight_bound(ts, i - 1);
        assert((i - 1) * (u32::MAX as int) + u32::MAX as int == i * (u32::MAX as int))
            by (nonlinear_arith);
    }
}

/// Weighted selection fidelity: the draws from the uniform range
/// `[0, total_weight)` that fall in transform `i`'s bucket are exactly
/// `weight(i)` many, and no draw lies in the bucket of two transforms. So
/// under a uniform draw, each transform is selected with probability
/// `weight / total_weight`.
pub proof fn lemma_selection_fidelity(ts: Seq<AffineTransform>, i: int)
    requires
        0 <= i < ts.len(),
    ensures
        bucket(ts, i).finite(),
        bucket(ts, i).len() == ts[i].weight,
        forall|j: int, r: int|
            0 <= j < ts.len() && j != i && bucket(ts, i).contains(r) ==> !bucket(ts, j).contains(r),
{
    let lo = prefix_weight(ts, i);
    let hi = prefix_weight(ts, i + 1);
    lemma_prefix_weight_mono(ts, i, i + 1);
    assert(bucket(ts, i) =~= set_int_range(lo, hi));
    lemma_int_range(lo, hi);
    assert forall|j: int, r: int|
        0 <= j < ts.len() && j != i && bucket(ts, i).contains(r) implies !bucket(
        ts,
        j,
    ).contains(r) by {
        if j < i {
            lemma_prefix_weight_mono(ts, j + 1, i);
        } else {
            lemma_prefix_weight_mono(ts, i + 1, j);
        }
    }
}

/// An immutable, ordered table of weighted affine transforms. The order only
/// fixes which index belongs to which transform; selection depends on the
/// weights alone. The cumulative-weight table is built once at construction.
#[derive(Debug)]
pub struct AffineMapSet {
    transforms: Vec<AffineTransform>,
    cumulative: Vec<u64>,
}

impl View for AffineMapSet {
    type V = Seq<AffineTransform>;

    closed spec fn view(&self) -> Seq<AffineTransform> {
        self.transforms@
    }
}

impl AffineMapSet {
    /// Well-formed: the cumulative table holds the running sums of the
    /// weights and the total weight is positive. Constructors establish
    /// this; every method preserves it.
    pub closed spec fn wf(&self) -> bool {
        &&& self.cumulative@.len() == self.transforms@.len()
        &&& forall|i: int|
            0 <= i < self.cumulative@.len() ==> self.cumulative@[i] == prefix_weight(
                self.transforms@,
                i + 1,
            )
        &&& 0 < total_weight(self.transforms@) <= u64::MAX
    }

    /// Build a table from the given transforms, or report `InvalidWeights`
    /// when no transform carries a positive weight (in particular when the
    /// table is empty). The length bound keeps the total weight inside a
    /// machine word.
    pub fn new(transforms: Vec<AffineTransform>) -> (r: Result<AffineMapSet, IfsError>)
        requires
            transforms@.len() <= 0x1_0000_0000,
        ensures
            match r {
                Ok(m) => m.wf() && m@ == transforms@ && total_weight(transforms@) > 0,
                Err(e) => e == IfsError::InvalidWeights && total_weight(transforms@) == 0,
            },
    {
        let mut cumulative: Vec<u64> = Vec::new();
        let mut acc: u64 = 0;
        let mut i: usize = 0;
        while i < transforms.len()
            invariant
                i <= transforms@.len() <= 0x1_0000_0000,
                cumulative@.len() == i,
                acc == prefix_weight(transforms@, i as int),
                forall|j: int|
                    0 <= j < i ==> cumulative@[j] == prefix_weight(transforms@, j + 1),
            decreases transforms@.len() - i,
        {
            proof {
                lemma_prefix_weight_bound(transforms@, i as int);
            }
            acc = acc + transforms[i].weight as u64;
            cumulative.push(acc);
            i = i + 1;
        }
        if acc == 0 {
            Err(IfsError::InvalidWeights)
        } else {
            Ok(AffineMapSet { transforms, cumulative })
        }
    }

    /// Number of transforms in the table.
    pub fn len(&self) -> (n: usize)
        ensures
            n == self@.len(),
    {
        self.transforms.len()
    }

    /// The transform at an index.
    pub fn get(&self, i: usize) -> (t: AffineTransform)
        requires
            i < self@.len(),
        ensures
            t == self@[i as int],
    {
        self.transforms[i]
    }

    /// Resolve a uniform draw from `[0, total_weight)` to the index whose
    /// cumulative-weight bucket contains it. The selected transform always
    /// has positive weight, since a zero-weight bucket is empty.
    pub fn resolve(&self, r: u64) -> (i: usize)
        requires
            self.wf(),
            r < total_weight(self@),
        ensures
            i < self@.len(),
            bucket(self@, i as int).contains(r as int),
            self@[i as int].weight > 0,
    {
        let mut i: usize = 0;
        while i < self.transforms.len()
            invariant
                self.wf(),
                r < total_weight(self@),
                i <= self@.len(),
                prefix_weight(self@, i as int) <= r,
            decreases self@.len() - i,
        {
            if r < self.cumulative[i] {
                return i;
            }
            i = i + 1;
        }
        proof {
            assert(false);
        }
        0
    }

    /// Draw one transform, with probability proportional to its weight under
    /// the uniform draw the random source provides.
    pub fn select(&self, rng: &mut RandomSource) -> (t: AffineTransform)
        requires
            self.wf(),
        ensures
            exists|i: int| 0 <= i < self@.len() && t == self@[i] && self@[i].weight > 0,
    {
        let n = self.cumulative.len();
        assert(n > 0) by {
            assert(total_weight(self@) > 0);
        }
        let total = self.cumulative[n - 1];
        let r = rng.next_below(total);
        let i = self.resolve(r);
        self.transforms[i]
    }
}

} // verus!
