//! Weighted selection, the injected random source, and sampling passes.

use rust_fractal_lab::error::IfsError;
use rust_fractal_lab::ifs::{IfsProgram, Rgba};
use rust_fractal_lab::mapset::AffineMapSet;
use rust_fractal_lab::random::RandomSource;
use rust_fractal_lab::transform::AffineTransform;
use rust_fractal_lab::SCALE;

fn t(a: i64, b: i64, c: i64, d: i64, e: i64, f: i64, weight: u32) -> AffineTransform {
    AffineTransform { a, b, c, d, e, f, weight }
}

fn black() -> Rgba {
    Rgba { r: 0, g: 0, b: 0, a: SCALE }
}

#[test]
fn empty_table_is_invalid() {
    assert_eq!(AffineMapSet::new(Vec::new()).unwrap_err(), IfsError::InvalidWeights);
}

#[test]
fn all_zero_weights_are_invalid() {
    let v = vec![t(SCALE, 0, 0, SCALE, 0, 0, 0), t(0, 0, 0, 0, 0, 0, 0)];
    assert_eq!(AffineMapSet::new(v).unwrap_err(), IfsError::InvalidWeights);
}

#[test]
fn resolve_picks_the_cumulative_bucket() {
    // Weights 2, 0, 3: draws 0 and 1 land in the first bucket, the
    // zero-weight bucket is empty, draws 2..=4 land in the third.
    let v = vec![
        t(0, 0, 0, 0, 100, 0, 2),
        t(0, 0, 0, 0, 200, 0, 0),
        t(0, 0, 0, 0, 300, 0, 3),
    ];
    let m = AffineMapSet::new(v).unwrap();
    assert_eq!(m.len(), 3);
    assert_eq!(m.get(0).weight, 2);
    assert_eq!(m.get(2).e, 300);
    assert_eq!(m.resolve(0), 0);
    assert_eq!(m.resolve(1), 0);
    assert_eq!(m.resolve(2), 2);
    assert_eq!(m.resolve(3), 2);
    assert_eq!(m.resolve(4), 2);
}

#[test]
fn select_never_returns_a_zero_weight_transform() {
    let v = vec![
        t(0, 0, 0, 0, 100, 0, 1),
        t(0, 0, 0, 0, 200, 0, 0),
        t(0, 0, 0, 0, 300, 0, 1),
    ];
    let m = AffineMapSet::new(v).unwrap();
    let mut rng = RandomSource::from_seed(3);
    for _ in 0..1000 {
        let picked = m.select(&mut rng);
        assert_ne!(picked.e, 200);
    }
}

#[test]
fn weighted_selection_frequencies() {
    // With weights 1 : 2 : 7, the empirical frequencies over many draws
    // converge to 10%, 20% and 70% of the total.
    let v = vec![
        t(0, 0, 0, 0, 1, 0, 1),
        t(0, 0, 0, 0, 2, 0, 2),
        t(0, 0, 0, 0, 3, 0, 7),
    ];
    let m = AffineMapSet::new(v).unwrap();
    let mut rng = RandomSource::from_seed(20240001);
    let n = 100_000;
    let mut counts = [0i64; 3];
    for _ in 0..n {
        let picked = m.select(&mut rng);
        counts[(picked.e - 1) as usize] += 1;
    }
    let expected = [n / 10, 2 * n / 10, 7 * n / 10];
    for k in 0..3 {
        let diff = (counts[k] - expected[k]).abs();
        // Within five standard deviations of the binomial expectation.
        assert!(diff * diff <= 25 * expected[k], "bucket {}: {} vs {}", k, counts[k], expected[k]);
    }
}

#[test]
fn seeded_source_replays_the_same_draws() {
    let mut a = RandomSource::from_seed(42);
    let mut b = RandomSource::from_seed(42);
    for _ in 0..200 {
        assert_eq!(a.next_below(1_000_003), b.next_below(1_000_003));
        assert_eq!(a.next_in_range(-500000, 500000), b.next_in_range(-500000, 500000));
    }
}

#[test]
fn draws_stay_below_their_bound() {
    let mut rng = RandomSource::from_seed(9);
    for bound in [1u64, 2, 3, 10, 1000, u64::MAX] {
        for _ in 0..200 {
            assert!(rng.next_below(bound) < bound);
        }
    }
    for _ in 0..1000 {
        let r = rng.next_in_range(-7, 5);
        assert!((-7..5).contains(&r));
    }
}

#[test]
fn chaos_step_updates_sequentially() {
    // The second coordinate is computed from the already-updated first one:
    // with c = 1 and d = 0, the new y equals the new x, not the old x.
    let tr = t(0, 0, SCALE, 0, SCALE / 2, 0, 1);
    assert_eq!(tr.apply(0, 0), (SCALE / 2, SCALE / 2));
}

#[test]
fn chaos_step_exact_values() {
    let tr = t(SCALE / 2, 0, 0, SCALE / 2, -SCALE / 2, -SCALE / 2, 1);
    // One step from the origin lands halfway toward the fixed point (-1, -1).
    assert_eq!(tr.apply(0, 0), (-SCALE / 2, -SCALE / 2));
    // A second step continues the contraction: -0.5/2 - 0.5 = -0.75.
    assert_eq!(tr.apply(-SCALE / 2, -SCALE / 2), (-3 * SCALE / 4, -3 * SCALE / 4));
    // Division rounds toward negative infinity, also below zero.
    let half = t(SCALE / 2, 0, 0, SCALE / 2, 0, 0, 1);
    assert_eq!(half.apply(-1, -1), (-1, -1));
    assert_eq!(half.apply(1, 1), (0, 0));
}

#[test]
fn burn_in_discards_ten_iterations() {
    let v = vec![t(SCALE / 2, 0, 0, SCALE / 2, -SCALE / 2, -SCALE / 2, 1)];
    let m = AffineMapSet::new(v).unwrap();
    let mut rng = RandomSource::from_seed(1);
    let mut p = IfsProgram::default();
    p.sample_affine(&m, &mut rng, black(), 15, SCALE, 0, 0);
    assert_eq!(p.pending_points().len(), 5);

    // At or below the burn-in length nothing is kept.
    let mut q = IfsProgram::default();
    q.sample_affine(&m, &mut rng, black(), 10, SCALE, 0, 0);
    assert_eq!(q.pending_points().len(), 0);
    q.sample_affine(&m, &mut rng, black(), 3, SCALE, 0, 0);
    assert_eq!(q.pending_points().len(), 0);
}

#[test]
fn bounds_grow_monotonically() {
    let v = vec![
        t(SCALE / 2, 0, 0, SCALE / 2, -SCALE / 2, -SCALE / 2, 1),
        t(SCALE / 2, 0, 0, SCALE / 2, 0, SCALE / 2, 1),
        t(SCALE / 2, 0, 0, SCALE / 2, SCALE / 2, -SCALE / 2, 1),
    ];
    let m = AffineMapSet::new(v).unwrap();
    let mut rng = RandomSource::from_seed(77);
    let mut p = IfsProgram::default();
    let mut prev = p.bounds();
    for k in 0..30 {
        let scale = SCALE + (k as i64) * 100_000;
        let shift = (k as i64 - 15) * 50_000;
        p.sample_affine(&m, &mut rng, black(), 100, scale, shift, -shift);
        let cur = p.bounds();
        assert!(cur.x_min <= prev.x_min);
        assert!(cur.x_max >= prev.x_max);
        assert!(cur.y_min <= prev.y_min);
        assert!(cur.y_max >= prev.y_max);
        prev = cur;
    }
}

#[test]
fn sampled_points_carry_their_color() {
    let v = vec![t(SCALE / 2, 0, 0, SCALE / 2, SCALE / 4, SCALE / 4, 1)];
    let m = AffineMapSet::new(v).unwrap();
    let mut rng = RandomSource::from_seed(5);
    let mut p = IfsProgram::default();
    let red = Rgba { r: SCALE, g: 0, b: 0, a: SCALE };
    let blue = Rgba { r: 0, g: 0, b: SCALE, a: SCALE };
    p.sample(&m, &mut rng, red, 20);
    p.sample(&m, &mut rng, blue, 25);
    let pts = p.pending_points();
    assert_eq!(pts.len(), 25);
    for v in &pts[..10] {
        assert_eq!(v.color, red);
    }
    for v in &pts[10..] {
        assert_eq!(v.color, blue);
    }
}
