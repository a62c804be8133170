use movement::geometry::Vector2D;
use movement::recording::{Recording, RecordingStatus, END_FIGURE_TIMEOUT};
use movement::shape::{Classification, ClassifyError, Shape, ShapeName, Tolerances};

fn v(x: i32, y: i32) -> Vector2D {
    Vector2D { x, y }
}

fn shape(points: &[(i32, i32)]) -> Shape {
    Shape {
        coordinates: points.iter().map(|&(x, y)| v(x, y)).collect(),
        shape_type: ShapeName::Undefined,
    }
}

fn polygon(cx: f64, cy: f64, rx: f64, ry: f64, n: usize) -> Shape {
    let mut coordinates = Vec::new();
    for i in 0..n {
        let angle = 2.0 * std::f64::consts::PI * (i as f64) / (n as f64);
        coordinates.push(v((cx + rx * angle.cos()).round() as i32, (cy + ry * angle.sin()).round() as i32));
    }
    Shape { coordinates, shape_type: ShapeName::Undefined }
}

#[test]
fn distance_is_rounded_down() {
    assert_eq!(v(0, 0).distance(&v(3, 4)), 5);
    assert_eq!(v(0, 0).distance(&v(1, 1)), 1);
    assert_eq!(v(0, 0).distance(&v(2, 1)), 2);
    assert_eq!(v(5, 5).distance(&v(5, 5)), 0);
    assert_eq!(v(-3, -4).distance(&v(0, 0)), 5);
}

#[test]
fn distance_truncation_is_consistent() {
    // Equal exact lengths reached along different axes.
    assert_eq!(v(0, 0).distance(&v(25, 0)), 25);
    assert_eq!(v(0, 0).distance(&v(7, 24)), 25);
    assert_eq!(v(10, 10).distance(&v(25, 30)), 25);
    // sqrt(50) from (1, 7) and from (5, 5): both truncate to 7.
    assert_eq!(v(0, 0).distance(&v(1, 7)), 7);
    assert_eq!(v(100, 100).distance(&v(105, 105)), 7);
    // Just below a perfect square.
    assert_eq!(v(0, 0).distance(&v(4095, 4096)), 5791);
    assert_eq!(v(0, 0).distance(&v(0, 4095)), 4095);
}

#[test]
fn distance_across_the_whole_range() {
    let a = v(i32::MIN, i32::MIN);
    let b = v(i32::MAX, i32::MAX);
    // sqrt(2) * (2^32 - 1), rounded down.
    assert_eq!(a.distance(&b), 6074000998);
    assert_eq!(v(i32::MIN, 0).distance(&v(i32::MAX, 0)), 4294967295);
}

#[test]
fn cross_product() {
    assert_eq!(v(2, 3).cross(v(4, 5)), -2);
    assert_eq!(v(1, 0).cross(v(0, 1)), 1);
    assert_eq!(v(i32::MIN, i32::MAX).cross(v(i32::MAX, i32::MIN)), 4294967295);
}

#[test]
fn component_operations() {
    assert_eq!(v(1, 2).add(v(3, -5)), v(4, -3));
    assert_eq!(v(1, 2).sub(v(3, -5)), v(-2, 7));
    assert_eq!(v(1, -2).scale(3), v(3, -6));
    assert_eq!(v(-7, 7).divide(2), v(-3, 3));
    assert_eq!(v(9, -1).divide(4), v(2, 0));
    assert_eq!(v(-7, 7).divide(-2), v(3, -3));
    assert_eq!(v(9, -1).divide(-4), v(-2, 0));
    assert_eq!(v(i32::MIN, 5).divide(-2), v(1073741824, -2));
    assert_eq!(v(i32::MAX, 7).divide(-1), v(-i32::MAX, -7));
}

#[test]
fn dot_product() {
    assert_eq!(v(2, 3).dot(v(4, 5)), 23);
    assert_eq!(v(1, 0).dot(v(0, 1)), 0);
    assert_eq!(v(i32::MIN, i32::MIN).dot(v(i32::MIN, i32::MIN)), 9223372036854775808);
}

#[test]
fn line_offset_and_tolerance() {
    // (5, 3) lies 3 pixels from the x axis; |b - c| is 10.
    assert_eq!(v(5, 3).line_offset(v(0, 0), v(10, 0)), 30);
    assert!(v(5, 3).within_line_distance(v(0, 0), v(10, 0), 3));
    assert!(!v(5, 3).within_line_distance(v(0, 0), v(10, 0), 2));
    assert!(v(5, -10).within_line_distance(v(0, 0), v(10, 0), 10));
    assert!(!v(5, -11).within_line_distance(v(0, 0), v(10, 0), 10));
    // A diagonal line: (0, 2) is sqrt(2) from y = x.
    assert!(!v(0, 2).within_line_distance(v(0, 0), v(5, 5), 1));
    assert!(v(0, 2).within_line_distance(v(0, 0), v(5, 5), 2));
}

#[test]
fn centroid_rounds_toward_zero() {
    assert_eq!(shape(&[(0, 0), (3, 3)]).find_center(), v(1, 1));
    assert_eq!(shape(&[(-3, -3), (0, 0)]).find_center(), v(-1, -1));
    assert_eq!(shape(&[(i32::MAX, i32::MIN), (i32::MAX, i32::MIN)]).find_center(), v(i32::MAX, i32::MIN));
}

#[test]
fn closest_point_includes_a_sample_on_the_point() {
    let s = shape(&[(0, 0), (10, 0), (3, 4), (0, 5)]);
    assert_eq!(s.get_closest_to_point(v(0, 0)), (v(0, 0), 0));
    assert_eq!(s.get_closest_to_point(v(1, 1)), (v(0, 0), 1));
    assert_eq!(s.get_closest_to_point(v(5, 0)), (v(3, 4), 4));
    let same = shape(&[(2, 2), (2, 2)]);
    assert_eq!(same.get_closest_to_point(v(2, 2)), (v(2, 2), 0));
    // Ties go to the first sample.
    let pair = shape(&[(0, 0), (2, 0)]);
    assert_eq!(pair.get_closest_to_point(v(1, 0)), (v(0, 0), 1));
    assert_eq!(shape(&[]).get_closest_to_point(v(1, 1)), (v(0, 0), i64::MAX));
}

#[test]
fn all_pair_extremes() {
    let s = shape(&[(0, 0), (3, 4), (6, 8), (0, 8)]);
    let d = s.get_distances();
    assert_eq!(d.max, 10);
    assert_eq!(d.max_pair, [v(0, 0), v(6, 8)]);
    assert_eq!(d.min, 5);
    assert_eq!(d.min_pair, [v(0, 0), v(3, 4)]);
    let flat = shape(&[(4, 4), (4, 4), (4, 4)]);
    let e = flat.get_distances();
    assert_eq!(e.max, 0);
    assert_eq!(e.min, i64::MAX);
    assert_eq!(e.max_pair, [v(0, 0), v(0, 0)]);
}

#[test]
fn reference_point_statistics() {
    let s = shape(&[(0, 0), (3, 4), (6, 8), (0, 8)]);
    let r = s.get_point_distances(v(0, 0));
    assert_eq!(r.min, 5);
    assert_eq!(r.max, 10);
    // (5 + 10 + 8) / 4: the reference sample itself counts in the divisor.
    assert_eq!(r.avg, 5);
    assert_eq!(r.above, 2);
    assert_eq!(r.below, 0);
    assert_eq!(r.values, 4);
    assert_eq!(r.passes_percent, 50);
    assert_eq!(r.max_pair, [v(0, 0), v(6, 8)]);
    assert_eq!(r.min_pair, [v(0, 0), v(3, 4)]);
}

#[test]
fn reference_point_with_no_other_sample() {
    let r = shape(&[(1, 1)]).get_point_distances(v(1, 1));
    assert_eq!(r.max, 0);
    assert_eq!(r.min, i64::MAX);
    assert_eq!(r.passes_percent, 100);
    assert_eq!(r.max_pair, [v(0, 0), v(0, 0)]);
    assert_eq!(r.min_pair, [v(0, 0), v(0, 0)]);
}

#[test]
fn classification_is_repeatable() {
    let s = shape(&[(2, 3), (38, 1), (13, 2), (31, 33)]);
    let first = s.classify();
    assert_eq!(first, s.classify());
    assert_eq!(s.get_shape_name(), s.get_shape_name());
}

#[test]
fn regular_polygons_are_circles() {
    for &radius in &[10.0, 50.0, 200.0, 1000.0, 5000.0] {
        for &n in &[20usize, 36, 64] {
            let c = polygon(1500.0, 900.0, radius, radius, n).classify().unwrap();
            assert_eq!(c.shape, ShapeName::Circle);
            assert!(c.confidence >= 75);
        }
    }
}

#[test]
fn horizontal_stroke_is_a_line() {
    let points: Vec<(i32, i32)> = (0..30).map(|i| (3659 - 20 * i, 919)).collect();
    let c = shape(&points).classify().unwrap();
    assert_eq!(c, Classification { shape: ShapeName::Line, confidence: 100 });
    let uneven: Vec<(i32, i32)> = [3659, 3655, 3600, 3598, 3400, 3390, 3100, 2999]
        .iter()
        .map(|&x| (x, 919))
        .collect();
    assert_eq!(shape(&uneven).get_shape_name(), ShapeName::Line);
}

#[test]
fn sampled_ellipses_are_ellipses() {
    assert_eq!(polygon(1000.0, 600.0, 200.0, 100.0, 40).get_shape_name(), ShapeName::Ellipse);
    assert_eq!(polygon(2000.0, 500.0, 300.0, 150.0, 40).get_shape_name(), ShapeName::Ellipse);
    assert_eq!(polygon(500.0, 500.0, 120.0, 60.0, 40).get_shape_name(), ShapeName::Ellipse);
}

#[test]
fn small_ellipse_confidence() {
    let s = shape(&[(17, 35), (38, 0), (24, 32), (8, 33), (35, 13), (27, 3)]);
    assert_eq!(s.classify(), Ok(Classification { shape: ShapeName::Ellipse, confidence: 100 }));
}

#[test]
fn circle_at_the_threshold() {
    let s = shape(&[(39, 39), (21, 29), (38, 1), (14, 40), (11, 35), (37, 11), (5, 35), (16, 2)]);
    assert_eq!(s.get_point_distances(s.find_center()).passes_percent, 75);
    assert_eq!(s.classify(), Ok(Classification { shape: ShapeName::Circle, confidence: 75 }));
}

#[test]
fn line_at_the_threshold() {
    let s = shape(&[(2, 3), (38, 1), (13, 2), (31, 33)]);
    assert_eq!(s.classify(), Ok(Classification { shape: ShapeName::Line, confidence: 75 }));
}

#[test]
fn too_few_probes_is_unknown() {
    let s = shape(&[(19, 19), (10, 26), (36, 16)]);
    assert_eq!(s.classify(), Ok(Classification { shape: ShapeName::Unknown, confidence: 0 }));
}

#[test]
fn single_sample_is_insufficient() {
    assert_eq!(shape(&[(5, 5)]).classify(), Err(ClassifyError::InsufficientSamples));
    assert_eq!(shape(&[]).classify(), Err(ClassifyError::InsufficientSamples));
}

#[test]
fn identical_samples_form_a_full_circle() {
    let s = shape(&[(7, 7), (7, 7), (7, 7)]);
    assert_eq!(s.classify(), Ok(Classification { shape: ShapeName::Circle, confidence: 100 }));
}

#[test]
fn recording_arms_records_and_finishes() {
    let mut r = Recording::default();
    assert_eq!(r.update(v(5, 5)), RecordingStatus::Waiting);
    assert!(r.initialized);
    assert_eq!(r.update(v(5, 5)), RecordingStatus::Waiting);
    assert_eq!(r.update(v(6, 5)), RecordingStatus::Running);
    assert_eq!(r.update(v(7, 6)), RecordingStatus::Running);
    assert_eq!(r.coordinates, vec![v(6, 5), v(7, 6)]);
    for _ in 1..END_FIGURE_TIMEOUT {
        assert_eq!(r.update(v(7, 6)), RecordingStatus::Running);
    }
    assert_eq!(r.update(v(7, 6)), RecordingStatus::Finished);
    assert!(!r.initialized);
    assert_eq!(r.coordinates.len(), 2);
}

#[test]
fn recording_init_sets_the_resting_position() {
    let mut r = Recording::default();
    r.init(v(3, 4));
    assert!(r.initialized);
    assert!(!r.running);
    assert_eq!(r.stop_coordinate, v(3, 4));
    assert_eq!(r.coordinate_unchanged_cycles, 0);
}

#[test]
fn tolerances_are_configurable() {
    let standard = Tolerances::standard();
    assert_eq!(standard.general_percent, 25);
    assert_eq!(standard.circle_percent, 25);
    assert_eq!(standard.line_px, 10);
    assert_eq!(standard.ellipse_centrum_px, 100);
    assert_eq!(standard.ellipse_percent, 50);
    let s = shape(&[(2, 3), (38, 1), (13, 2), (31, 33)]);
    assert_eq!(s.classify_with(standard), s.classify());
    let strict = Tolerances { general_percent: 20, ..standard };
    assert_eq!(s.classify_with(strict), Ok(Classification { shape: ShapeName::Unknown, confidence: 75 }));
    let round = polygon(1500.0, 900.0, 1000.0, 1000.0, 36);
    let exact = Tolerances { circle_percent: 0, ..standard };
    assert_ne!(round.classify_with(exact).unwrap().shape, ShapeName::Circle);
    assert_eq!(shape(&[(1, 1)]).classify_with(exact), Err(ClassifyError::InsufficientSamples));
}
