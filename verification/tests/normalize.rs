//! Normalization: the remap, its edge cases, and finishing a scene.

use rust_fractal_lab::error::IfsError;
use rust_fractal_lab::fixed::{map_coord, shift_scale};
use rust_fractal_lab::ifs::{IfsProgram, Rgba};
use rust_fractal_lab::mapset::AffineMapSet;
use rust_fractal_lab::random::RandomSource;
use rust_fractal_lab::transform::AffineTransform;
use rust_fractal_lab::SCALE;

fn t(a: i64, b: i64, c: i64, d: i64, e: i64, f: i64, weight: u32) -> AffineTransform {
    AffineTransform { a, b, c, d, e, f, weight }
}

fn black() -> Rgba {
    Rgba { r: 0, g: 0, b: 0, a: SCALE }
}

fn sierpinski() -> AffineMapSet {
    AffineMapSet::new(vec![
        t(SCALE / 2, 0, 0, SCALE / 2, -SCALE / 2, -SCALE / 2, 1),
        t(SCALE / 2, 0, 0, SCALE / 2, 0, SCALE / 2, 1),
        t(SCALE / 2, 0, 0, SCALE / 2, SCALE / 2, -SCALE / 2, 1),
    ])
    .unwrap()
}

#[test]
fn remap_exact_values() {
    // v = 5 from [0, 10] to [0, 100] is exactly 50.
    assert_eq!(map_coord(5, 0, 10, 0, 100), 50);
    // Endpoints map exactly onto the target endpoints.
    assert_eq!(map_coord(0, 0, 10, -7, 13), -7);
    assert_eq!(map_coord(10, 0, 10, -7, 13), 13);
    // Rounding is toward negative infinity: 1/3 of 10 rounds to 3.
    assert_eq!(map_coord(1, 0, 3, 0, 10), 3);
    // A reversed target range flips the interval.
    assert_eq!(map_coord(0, 0, 10, 100, -100), 100);
    assert_eq!(map_coord(10, 0, 10, 100, -100), -100);
}

#[test]
fn placement_shifts_then_scales() {
    // (0.25 + 0.5) * 2.0 == 1.5 in fixed-point.
    assert_eq!(shift_scale(SCALE / 4, SCALE / 2, 2 * SCALE), 3 * SCALE / 2);
    // Unit placement leaves the coordinate alone.
    assert_eq!(shift_scale(123456, 0, SCALE), 123456);
}

#[test]
fn normalization_round_trip() {
    let m = sierpinski();
    let mut rng = RandomSource::from_seed(11);
    let mut p = IfsProgram::default();
    p.sample(&m, &mut rng, black(), 2000);
    assert_eq!(p.pending_points().len(), 1990);

    p.normalize_points_to_ranges(-SCALE, SCALE, -SCALE, SCALE).unwrap();
    assert_eq!(p.pending_points().len(), 0);
    assert_eq!(p.normalized_points().len(), 1990);

    let pts = p.normalized_points();
    let mut min_x = i64::MAX;
    let mut max_x = i64::MIN;
    let mut min_y = i64::MAX;
    let mut max_y = i64::MIN;
    for v in pts.iter() {
        assert!((-SCALE..=SCALE).contains(&v.x));
        assert!((-SCALE..=SCALE).contains(&v.y));
        min_x = min_x.min(v.x);
        max_x = max_x.max(v.x);
        min_y = min_y.min(v.y);
        max_y = max_y.max(v.y);
    }
    // The points that attained the old bounds map exactly onto the targets.
    assert_eq!(min_x, -SCALE);
    assert_eq!(max_x, SCALE);
    assert_eq!(min_y, -SCALE);
    assert_eq!(max_y, SCALE);

    // The bounding box is reset to the empty sentinel, flagged normalized.
    let b = p.bounds();
    assert_eq!(b.x_min, i64::MAX);
    assert_eq!(b.x_max, i64::MIN);
    assert_eq!(b.y_min, i64::MAX);
    assert_eq!(b.y_max, i64::MIN);
    assert!(b.normalized);
}

#[test]
fn normalize_into_a_sub_rectangle() {
    let m = sierpinski();
    let mut rng = RandomSource::from_seed(12);
    let mut p = IfsProgram::default();
    p.sample(&m, &mut rng, black(), 500);
    p.normalize_points_to_ranges(0, SCALE / 2, -SCALE, 0).unwrap();
    for v in p.normalized_points().iter() {
        assert!((0..=SCALE / 2).contains(&v.x));
        assert!((-SCALE..=0).contains(&v.y));
    }
}

#[test]
fn normalize_idempotent_when_empty() {
    let m = sierpinski();
    let mut rng = RandomSource::from_seed(13);
    let mut p = IfsProgram::default();
    p.sample(&m, &mut rng, black(), 300);
    p.normalize_points().unwrap();

    let before: Vec<_> = p.normalized_points().clone();
    let bounds_before = p.bounds();
    p.normalize_points().unwrap();
    assert_eq!(p.normalized_points(), &before);
    assert_eq!(p.bounds(), bounds_before);
    assert_eq!(p.pending_points().len(), 0);
}

#[test]
fn degenerate_bounds_detected() {
    // The identity transform pins every sample to the starting point, so all
    // points coincide and the remap would divide by a zero-width range.
    let ident = AffineMapSet::new(vec![t(SCALE, 0, 0, SCALE, 0, 0, 1)]).unwrap();
    let mut rng = RandomSource::from_seed(14);
    let mut p = IfsProgram::default();
    p.sample(&ident, &mut rng, black(), 100);
    assert_eq!(p.pending_points().len(), 90);
    for v in p.pending_points().iter() {
        assert_eq!((v.x, v.y), (0, 0));
    }

    assert_eq!(p.normalize_points(), Err(IfsError::DegenerateBounds));
    // The failure left the accumulator untouched.
    assert_eq!(p.pending_points().len(), 90);
    assert_eq!(p.normalized_points().len(), 0);
    assert!(!p.bounds().normalized);
}

#[test]
fn run_finishes_with_a_final_normalization() {
    let m = sierpinski();
    let mut rng = RandomSource::from_seed(15);
    let mut p = IfsProgram::default();
    p.sample(&m, &mut rng, black(), 1000);
    let clear = Rgba { r: SCALE, g: SCALE, b: SCALE, a: SCALE };
    assert_eq!(p.bounds().normalized, false);

    let req = p.run(Some(3 * SCALE / 2)).unwrap();
    assert_eq!(req.points.len(), 990);
    assert_eq!(req.clear_color, clear);
    assert_eq!(req.point_size, Some(3 * SCALE / 2));
    assert!(!req.is_empty());
    for v in req.points.iter() {
        assert!((-SCALE..=SCALE).contains(&v.x));
        assert!((-SCALE..=SCALE).contains(&v.y));
    }
    // The accumulator was drained and flagged.
    assert_eq!(p.pending_points().len(), 0);
    assert_eq!(p.normalized_points().len(), 0);
    assert!(p.bounds().normalized);
}

#[test]
fn run_on_an_empty_accumulator_draws_nothing() {
    let mut p = IfsProgram::default();
    let req = p.run(None).unwrap();
    assert!(req.is_empty());
    assert_eq!(req.point_size, None);
}

#[test]
fn run_propagates_degenerate_bounds() {
    let ident = AffineMapSet::new(vec![t(SCALE, 0, 0, SCALE, 0, 0, 1)]).unwrap();
    let mut rng = RandomSource::from_seed(16);
    let mut p = IfsProgram::default();
    p.sample(&ident, &mut rng, black(), 50);
    assert_eq!(p.run(None).unwrap_err(), IfsError::DegenerateBounds);
}

#[test]
fn clear_color_reaches_the_draw_request() {
    let mut p = IfsProgram::default();
    let navy = Rgba { r: 0, g: 0, b: SCALE / 2, a: SCALE };
    p.set_clear_color(navy);
    let req = p.run(None).unwrap();
    assert_eq!(req.clear_color, navy);
}

#[test]
fn scenes_compose_across_normalizations() {
    // Two fractals accumulated into one picture: each normalized into its
    // own half of the display before the next one starts.
    let m = sierpinski();
    let mut rng = RandomSource::from_seed(17);
    let mut p = IfsProgram::default();
    p.sample(&m, &mut rng, black(), 500);
    p.normalize_points_to_ranges(-SCALE, 0, -SCALE, SCALE).unwrap();
    p.sample(&m, &mut rng, black(), 700);
    p.normalize_points_to_ranges(0, SCALE, -SCALE, SCALE).unwrap();
    assert_eq!(p.normalized_points().len(), 490 + 690);
    let pts = p.normalized_points();
    for v in &pts[..490] {
        assert!((-SCALE..=0).contains(&v.x));
    }
    for v in &pts[490..] {
        assert!((0..=SCALE).contains(&v.x));
    }
}
