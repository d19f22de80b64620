//! Joint refinement: problem assembly, frame exclusion, and result
//! finalization.
use camera_calib_core::SCALE;
use camera_calib_core::camera::{CameraModel, ModelFamily};
use camera_calib_core::error::CalibError;
use camera_calib_core::features::{FeaturePoint, FrameFeature, Point2, Point3};
use camera_calib_core::pose::RvecTvec;
use camera_calib_core::problem::{
    BlockId, FOCAL_BOUND, ScalarBound, SolverResult, VariableBlock, ResidualKind,
};
use camera_calib_core::refine::{build_calibration_problem, finalize_calibration};

fn pt(id: u32, x: i64, y: i64) -> FeaturePoint {
    FeaturePoint {
        id,
        p2d: Point2 { x, y },
        p3d: Point3 { x, y, z: SCALE },
    }
}

fn frame(points: Vec<FeaturePoint>) -> FrameFeature {
    FrameFeature { features: points, img_w: 640, img_h: 480, time_ns: 0 }
}

fn pose(seed: i64) -> RvecTvec {
    RvecTvec::new(vec![seed, seed + 1, seed + 2], vec![seed + 3, seed + 4, seed + 5])
}

fn eucm_camera() -> CameraModel {
    CameraModel {
        family: ModelFamily::Eucm,
        params: vec![500 * SCALE, 510 * SCALE, 320 * SCALE, 240 * SCALE, SCALE / 2, SCALE / 4],
        img_w: 640,
        img_h: 480,
    }
}

fn block(id: BlockId, init: Vec<i64>) -> VariableBlock {
    VariableBlock { id, init }
}

#[test]
fn excluded_frame_missing_from_poses() {
    // Frame 1's pose seeding failed: it is excluded from the variable set
    // and the pose list, and the run still succeeds on the other frames.
    let frames = vec![
        Some(frame(vec![pt(0, SCALE, SCALE), pt(1, 2 * SCALE, SCALE)])),
        Some(frame(vec![pt(0, SCALE, SCALE)])),
        Some(frame(vec![pt(0, 3 * SCALE, SCALE)])),
    ];
    let seeds = vec![Some(pose(10)), None, Some(pose(20))];
    let camera = eucm_camera();
    let (problem, valid) = build_calibration_problem(&frames, &camera, false, 0, &seeds);
    assert_eq!(valid, vec![0, 2]);
    // One rotation and one translation block per valid frame, plus the
    // shared intrinsic block.
    assert_eq!(problem.blocks.len(), 5);
    // One reprojection residual per correspondence of the valid frames.
    assert_eq!(problem.residuals.len(), 3);

    let result = SolverResult {
        blocks: vec![
            block(BlockId::Params, vec![1, 2, 3, 4, 5, 6]),
            block(BlockId::Rvec(0), vec![11, 12, 13]),
            block(BlockId::Tvec(0), vec![14, 15, 16]),
            block(BlockId::Rvec(2), vec![21, 22, 23]),
            block(BlockId::Tvec(2), vec![24, 25, 26]),
        ],
    };
    let (model, poses) =
        finalize_calibration(&camera, false, 0, false, &valid, Some(&result)).unwrap();
    assert_eq!(poses.len(), 2);
    assert_eq!(poses[0].0, 0);
    assert_eq!(poses[1].0, 2);
    assert_eq!(poses[0].1.rvec, vec![11, 12, 13]);
    assert_eq!(poses[1].1.tvec, vec![24, 25, 26]);
    assert_eq!(model.params, vec![1, 2, 3, 4, 5, 6]);
}

#[test]
fn disabled_distortions_come_back_exactly_zero() {
    // Whatever the solver returns in the two disabled trailing slots, the
    // finalized model carries exactly zero there.
    let camera = eucm_camera();
    let result = SolverResult {
        blocks: vec![block(
            BlockId::Params,
            vec![400 * SCALE, 410 * SCALE, 300 * SCALE, 200 * SCALE, 777, 888],
        )],
    };
    let valid: Vec<usize> = Vec::new();
    let (model, _) = finalize_calibration(&camera, false, 2, false, &valid, Some(&result)).unwrap();
    assert_eq!(
        model.params,
        vec![400 * SCALE, 410 * SCALE, 300 * SCALE, 200 * SCALE, 0, 0]
    );
}

#[test]
fn equal_xy_focal_is_bit_for_bit() {
    // With equal-xy-focal the optimizer sees one focal scalar; the result
    // carries it twice, bit for bit.
    let camera = CameraModel {
        family: ModelFamily::Ucm,
        params: vec![500 * SCALE, 501 * SCALE, 320 * SCALE, 240 * SCALE, SCALE / 2],
        img_w: 640,
        img_h: 480,
    };
    let result = SolverResult {
        blocks: vec![block(
            BlockId::Params,
            vec![487 * SCALE + 123, 321 * SCALE, 239 * SCALE, SCALE / 3],
        )],
    };
    let valid: Vec<usize> = Vec::new();
    let (model, _) = finalize_calibration(&camera, true, 0, false, &valid, Some(&result)).unwrap();
    assert_eq!(model.params.len(), 5);
    assert_eq!(model.params[0], 487 * SCALE + 123);
    assert_eq!(model.params[0], model.params[1]);
}

#[test]
fn nonconvergence_is_reported() {
    let camera = eucm_camera();
    let valid: Vec<usize> = Vec::new();
    let r = finalize_calibration(&camera, false, 0, false, &valid, None);
    assert_eq!(r.unwrap_err(), CalibError::SolverNonConvergence);
}

#[test]
fn fixed_focal_overwrites_first_scalar() {
    // With an externally fixed focal the first scalar of the answer is
    // replaced by the caller-supplied model's focal.
    let camera = eucm_camera();
    let result = SolverResult {
        blocks: vec![block(
            BlockId::Params,
            vec![1, 2, 3, 4, 5, 6],
        )],
    };
    let valid: Vec<usize> = Vec::new();
    let (model, _) = finalize_calibration(&camera, false, 0, true, &valid, Some(&result)).unwrap();
    assert_eq!(model.params, vec![500 * SCALE, 2, 3, 4, 5, 6]);
}

#[test]
fn problem_references_resolve() {
    let frames = vec![Some(frame(vec![pt(0, SCALE, SCALE), pt(1, 2 * SCALE, SCALE)]))];
    let seeds = vec![Some(pose(5))];
    let camera = eucm_camera();
    let (problem, valid) = build_calibration_problem(&frames, &camera, true, 1, &seeds);
    assert_eq!(valid, vec![0]);
    assert_eq!(problem.blocks[0].id, BlockId::Params);
    // Equal-xy-focal removes one scalar; one trailing distortion is pinned
    // to zero in the initial values.
    assert_eq!(
        problem.blocks[0].init,
        vec![500 * SCALE, 320 * SCALE, 240 * SCALE, SCALE / 2, 0]
    );
    assert_eq!(problem.blocks[1].id, BlockId::Rvec(0));
    assert_eq!(problem.blocks[2].id, BlockId::Tvec(0));
    for res in &problem.residuals {
        assert_eq!(res.dim, 2);
        assert!(res.robust);
        assert!(matches!(res.kind, ResidualKind::Reprojection { frame: 0, .. }));
        assert_eq!(res.refs.len(), 3);
        assert_eq!(res.refs[0], (BlockId::Params, 5));
    }
    // Focal bound, reduced principal-point bounds, and the family's two
    // distortion ranges.
    assert_eq!(problem.bounds.len(), 6);
    assert_eq!(problem.bounds[0].upper, FOCAL_BOUND);
    // The single disabled distortion is pinned at the last reduced index.
    assert_eq!(problem.fixes.len(), 1);
    assert_eq!(problem.fixes[0].block, BlockId::Params);
    assert_eq!(problem.fixes[0].idx, 4);
    assert_eq!(problem.fixes[0].value, 0);
}

#[test]
fn bound_list_for_ucm() {
    let camera = CameraModel {
        family: ModelFamily::Ucm,
        params: vec![500 * SCALE, 500 * SCALE, 320 * SCALE, 240 * SCALE, SCALE / 2],
        img_w: 640,
        img_h: 480,
    };
    let frames = vec![Some(frame(vec![pt(0, SCALE, SCALE)]))];
    let seeds = vec![Some(pose(1))];
    let (problem, _) = build_calibration_problem(&frames, &camera, false, 0, &seeds);
    let b = |idx: usize, lower: i64, upper: i64| ScalarBound {
        block: BlockId::Params,
        idx,
        lower,
        upper,
    };
    assert_eq!(
        problem.bounds,
        vec![
            b(0, 0, FOCAL_BOUND),
            b(1, 0, FOCAL_BOUND),
            b(2, 0, 640 * SCALE),
            b(3, 0, 480 * SCALE),
            b(4, 0, SCALE),
        ]
    );
}
