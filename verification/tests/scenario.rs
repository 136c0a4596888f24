//! End-to-end scenes: the Sierpinski triangle and the forest.

use rust_fractal_lab::forest::draw_forest;
use rust_fractal_lab::ifs::{IfsProgram, Rgba};
use rust_fractal_lab::mapset::AffineMapSet;
use rust_fractal_lab::random::RandomSource;
use rust_fractal_lab::transform::AffineTransform;
use rust_fractal_lab::SCALE;

fn t(a: i64, b: i64, c: i64, d: i64, e: i64, f: i64, weight: u32) -> AffineTransform {
    AffineTransform { a, b, c, d, e, f, weight }
}

#[test]
fn sierpinski_triangle_scenario() {
    // Three half-scale maps toward the triangle's corners, equal weights.
    let m = AffineMapSet::new(vec![
        t(SCALE / 2, 0, 0, SCALE / 2, -SCALE / 2, -SCALE / 2, 1),
        t(SCALE / 2, 0, 0, SCALE / 2, 0, SCALE / 2, 1),
        t(SCALE / 2, 0, 0, SCALE / 2, SCALE / 2, -SCALE / 2, 1),
    ])
    .unwrap();
    let mut rng = RandomSource::from_seed(1234);
    let mut p = IfsProgram::default();
    p.sample(&m, &mut rng, Rgba { r: 0, g: 0, b: 0, a: SCALE }, 200_000);
    p.normalize_points().unwrap();

    let pts = p.normalized_points();
    assert_eq!(pts.len(), 199_990);

    // Every normalized point lies in the display square, and none falls
    // inside the central inverted triangle (the attractor's largest void),
    // up to a small margin for fixed-point rounding and for the bounding
    // box not quite reaching the corners.
    let eps = SCALE / 50;
    for v in pts.iter() {
        assert!((-SCALE..=SCALE).contains(&v.x));
        assert!((-SCALE..=SCALE).contains(&v.y));
        let in_void = v.y < -eps
            && v.y > -2 * v.x - SCALE + eps
            && v.y > 2 * v.x - SCALE + eps;
        assert!(!in_void, "point ({}, {}) lies in the central void", v.x, v.y);
    }

    // The three corner clusters are all populated: a third of the points
    // lands next to each corner, give or take.
    let near = |vx: i64, vy: i64, cx: i64, cy: i64| -> bool {
        (vx - cx).abs() <= SCALE && (vy - cy).abs() <= SCALE
    };
    let mut corners = [0usize; 3];
    for v in pts.iter() {
        if near(v.x, v.y, -SCALE, -SCALE) {
            corners[0] += 1;
        }
        if near(v.x, v.y, 0, SCALE) {
            corners[1] += 1;
        }
        if near(v.x, v.y, SCALE, -SCALE) {
            corners[2] += 1;
        }
    }
    for c in corners {
        assert!(c > 199_990 / 6, "corner cluster too sparse: {}", c);
    }
}

#[test]
fn forest_scene_scenario() {
    let mut rng = RandomSource::from_seed(99);
    let mut p = IfsProgram::default();
    draw_forest(&mut p, &mut rng, 150);
    assert_eq!(p.pending_points().len(), 150 * 1990);

    let green = Rgba { r: 0, g: 390_000, b: 0, a: SCALE };
    let yellow = Rgba { r: 800_000, g: 950_000, b: 0, a: SCALE };
    let brown = Rgba { r: 640_000, g: 160_000, b: 160_000, a: SCALE };
    for v in p.pending_points().iter() {
        assert!(v.color == green || v.color == yellow || v.color == brown);
    }

    let req = p.run(Some(3 * SCALE / 2)).unwrap();
    assert_eq!(req.points.len(), 150 * 1990);
    for v in req.points.iter() {
        assert!((-SCALE..=SCALE).contains(&v.x));
        assert!((-SCALE..=SCALE).contains(&v.y));
    }
}
