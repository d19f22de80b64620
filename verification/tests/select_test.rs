//! Frame selection and per-frame summary statistics.
use camera_calib_core::SCALE;
use camera_calib_core::features::{
    FeaturePoint, FrameFeature, Point2, Point3, features_avg_center, features_covered_area,
    vec2_distance2,
};
use camera_calib_core::select::find_best_two_frames;

fn pt(id: u32, x: i64, y: i64) -> FeaturePoint {
    FeaturePoint {
        id,
        p2d: Point2 { x, y },
        p3d: Point3 { x: 0, y: 0, z: 0 },
    }
}

fn frame(points: Vec<FeaturePoint>) -> FrameFeature {
    FrameFeature { features: points, img_w: 640, img_h: 480, time_ns: 0 }
}

#[test]
fn avg_center_exact() {
    let f = vec![pt(0, 0, 0), pt(1, 6 * SCALE, 0), pt(2, 0, 6 * SCALE)];
    let c = features_avg_center(&f);
    assert_eq!(c.x, 2 * SCALE);
    assert_eq!(c.y, 2 * SCALE);
}

#[test]
fn covered_area_exact() {
    let f = vec![pt(0, SCALE, 2 * SCALE), pt(1, 5 * SCALE, 2 * SCALE), pt(2, SCALE, 4 * SCALE)];
    // Bounding box is 4 by 2 whole units.
    assert_eq!(features_covered_area(&f), 4 * SCALE * 2 * SCALE);
}

#[test]
fn covered_area_single_point_is_zero() {
    let f = vec![pt(0, 3 * SCALE, 4 * SCALE)];
    assert_eq!(features_covered_area(&f), 0);
}

#[test]
fn dist2_exact() {
    let a = Point2 { x: 3 * SCALE, y: 0 };
    let b = Point2 { x: 0, y: 4 * SCALE };
    assert_eq!(vec2_distance2(&a, &b), 25 * SCALE * SCALE);
}

#[test]
fn selector_is_deterministic() {
    let frames = vec![
        Some(frame(vec![pt(0, 0, 0), pt(1, 12 * SCALE, 0), pt(2, 0, 12 * SCALE)])),
        None,
        Some(frame(vec![pt(0, 12 * SCALE, 0), pt(1, 18 * SCALE, 0), pt(2, 12 * SCALE, 6 * SCALE)])),
        Some(frame(vec![pt(0, SCALE, SCALE)])),
    ];
    let first = find_best_two_frames(&frames);
    let second = find_best_two_frames(&frames);
    assert_eq!(first, second);
}

#[test]
fn dominant_frame_is_both_picks() {
    // Frame 1 has strictly more correspondences than every other frame: it
    // is the sole candidate and becomes both picks.
    let frames = vec![
        Some(frame(vec![pt(0, 0, 0), pt(1, SCALE, SCALE)])),
        Some(frame(vec![pt(0, 0, 0), pt(1, SCALE, 0), pt(2, 0, SCALE)])),
        None,
    ];
    assert_eq!(find_best_two_frames(&frames), (1, 1));
}

#[test]
fn tie_breaks_by_area_and_distance() {
    // Both frames carry the maximum count.  Frame 0 covers the larger
    // bounding box; the squared distances to the candidates' centroid tie,
    // so the distance pick goes to the later frame.
    let f0 = frame(vec![pt(0, 0, 0), pt(1, 12 * SCALE, 0), pt(2, 0, 12 * SCALE)]);
    let f1 = frame(vec![
        pt(0, 12 * SCALE, 0),
        pt(1, 18 * SCALE, 0),
        pt(2, 12 * SCALE, 6 * SCALE),
    ]);
    let frames = vec![Some(f0), Some(f1)];
    assert_eq!(find_best_two_frames(&frames), (0, 1));
}

#[test]
fn smaller_frames_never_enter_candidate_set() {
    // The single-point frame is never a pick while a three-point frame
    // exists.
    let frames = vec![
        Some(frame(vec![pt(0, 2 * SCALE, 2 * SCALE)])),
        Some(frame(vec![pt(0, 0, 0), pt(1, 8 * SCALE, 0), pt(2, 0, 8 * SCALE)])),
    ];
    let (a, b) = find_best_two_frames(&frames);
    assert_eq!(a, 1);
    assert_eq!(b, 1);
}
