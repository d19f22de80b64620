//! Model conversion planning, seed derivation, and validation statistics.
use camera_calib_core::SCALE;
use camera_calib_core::camera::{CameraModel, ModelFamily};
use camera_calib_core::convert::{
    build_conversion_problem, conversion_grid, conversion_plan, finalize_conversion,
};
use camera_calib_core::error::CalibError;
use camera_calib_core::pose::RvecTvec;
use camera_calib_core::problem::{BlockId, ResidualKind, SolverResult, VariableBlock, ScalarFix};
use camera_calib_core::seed::{
    accept_initial_model, build_ucm_seed_problem, seed_from_homography, seed_solve_outcome,
    ucm_model_from_seed,
};
use camera_calib_core::features::{FeaturePoint, FrameFeature, Point2, Point3};
use camera_calib_core::validate::{average_error, validation};

fn ucm(params: Vec<i64>, img_w: u32, img_h: u32) -> CameraModel {
    CameraModel { family: ModelFamily::Ucm, params, img_w, img_h }
}

#[test]
fn mismatched_dimensions_fail_fast() {
    let source = ucm(vec![500 * SCALE, 500 * SCALE, 320 * SCALE, 240 * SCALE, SCALE / 2], 640, 480);
    let target = ucm(vec![1, 2, 3, 4, 5], 640, 481);
    let r = conversion_plan(&source, &target);
    assert_eq!(r.unwrap_err(), CalibError::PreconditionViolation);
}

#[test]
fn plan_initializes_target_from_source_leading_params() {
    let source = ucm(vec![500 * SCALE, 501 * SCALE, 320 * SCALE, 240 * SCALE, SCALE / 2], 640, 480);
    let target = CameraModel {
        family: ModelFamily::Eucm,
        params: vec![10, 20, 30, 40, 50, 60],
        img_w: 640,
        img_h: 480,
    };
    let (init, grid) = conversion_plan(&source, &target).unwrap();
    assert_eq!(init, vec![500 * SCALE, 501 * SCALE, 320 * SCALE, 240 * SCALE, 50, 60]);
    assert!(!grid.is_empty());
}

#[test]
fn same_family_plan_reproduces_source_leading_params() {
    // Converting toward a target of the same family and size starts from
    // the source's own shared leading parameters.
    let source = ucm(vec![500 * SCALE, 500 * SCALE, 320 * SCALE, 240 * SCALE, SCALE / 2], 640, 480);
    let target = ucm(vec![0, 0, 0, 0, SCALE / 2], 640, 480);
    let (init, _) = conversion_plan(&source, &target).unwrap();
    assert_eq!(init, source.params);
}

#[test]
fn grid_covers_margin_interior() {
    let grid = conversion_grid(100, 100);
    // Margin of one pixel, stride of three: thirty-three columns and rows.
    assert_eq!(grid.len(), 33 * 33);
    assert_eq!(grid[0], (1, 1));
    assert_eq!(grid[1], (1, 4));
    assert_eq!(*grid.last().unwrap(), (97, 97));
    for &(x, y) in &grid {
        assert!(1 <= x && x < 99);
        assert!(1 <= y && y < 99);
    }
}

#[test]
fn conversion_problem_layout() {
    let target = ucm(vec![1, 2, 3, 4, 5], 640, 480);
    let problem = build_conversion_problem(&target, vec![1, 2, 3, 4, 5], 10, 1);
    assert_eq!(problem.blocks.len(), 1);
    assert_eq!(problem.blocks[0].init, vec![1, 2, 3, 4, 0]);
    assert_eq!(problem.residuals.len(), 1);
    assert_eq!(problem.residuals[0].dim, 20);
    assert_eq!(problem.residuals[0].kind, ResidualKind::ModelConvert);
    assert_eq!(
        problem.fixes,
        vec![ScalarFix { block: BlockId::Params, idx: 4, value: 0 }]
    );
}

#[test]
fn finalize_conversion_replaces_parameters_in_place() {
    let mut target = ucm(vec![1, 2, 3, 4, 5], 640, 480);
    let result = SolverResult {
        blocks: vec![VariableBlock {
            id: BlockId::Params,
            init: vec![100, 200, 300, 400, 77],
        }],
    };
    finalize_conversion(&mut target, 1, Some(&result)).unwrap();
    assert_eq!(target.params, vec![100, 200, 300, 400, 0]);

    let mut untouched = ucm(vec![1, 2, 3, 4, 5], 640, 480);
    let r = finalize_conversion(&mut untouched, 1, None);
    assert_eq!(r.unwrap_err(), CalibError::SolverNonConvergence);
    assert_eq!(untouched.params, vec![1, 2, 3, 4, 5]);
}

#[test]
fn homography_failure_is_initialization_failure() {
    let r = seed_from_homography(None, SCALE / 2, 640, 480, None);
    assert_eq!(r.unwrap_err(), CalibError::InitializationFailure);
}

#[test]
fn seed_focal_scales_by_half_larger_dimension() {
    // A unit-plane focal of two, an image 640 wide: focal = 2 * 320 pixels.
    let (f, alpha) = seed_from_homography(Some(2 * SCALE), -SCALE / 2, 640, 480, None).unwrap();
    assert_eq!(f, 640 * SCALE);
    assert_eq!(alpha, SCALE / 2);
}

#[test]
fn seed_honors_fixed_focal() {
    let (f, _) = seed_from_homography(Some(2 * SCALE), 0, 640, 480, Some(1234)).unwrap();
    assert_eq!(f, 1234);
}

#[test]
fn ucm_seed_problem_layout() {
    let pt0 = FeaturePoint {
        id: 0,
        p2d: Point2 { x: SCALE, y: SCALE },
        p3d: Point3 { x: 0, y: 0, z: SCALE },
    };
    let mut pt1 = pt0;
    pt1.id = 1;
    let f0 = FrameFeature { features: vec![pt0], img_w: 640, img_h: 480, time_ns: 0 };
    let f1 = FrameFeature { features: vec![pt0, pt1], img_w: 640, img_h: 480, time_ns: 1 };
    let rt0 = RvecTvec::new(vec![1, 2, 3], vec![4, 5, 6]);
    let rt1 = RvecTvec::new(vec![7, 8, 9], vec![10, 11, 12]);
    let problem = build_ucm_seed_problem(&f0, &f1, &rt0, &rt1, 600 * SCALE, SCALE / 2, true);
    assert_eq!(problem.blocks.len(), 5);
    assert_eq!(problem.blocks[0].init, vec![600 * SCALE, SCALE / 2]);
    assert_eq!(problem.residuals.len(), 3);
    assert!(matches!(
        problem.residuals[0].kind,
        ResidualKind::UcmInitFocalAlpha { frame: 0, point: 0 }
    ));
    assert!(matches!(
        problem.residuals[2].kind,
        ResidualKind::UcmInitFocalAlpha { frame: 1, point: 1 }
    ));
    assert_eq!(problem.bounds.len(), 2);
    assert_eq!(problem.bounds[0].lower, 200 * SCALE);
    assert_eq!(problem.bounds[0].upper, 1800 * SCALE);
    assert_eq!(problem.bounds[1].lower, 1);
    assert_eq!(problem.bounds[1].upper, SCALE);
    // The externally fixed focal is pinned at its seed value.
    assert_eq!(
        problem.fixes,
        vec![ScalarFix { block: BlockId::Params, idx: 0, value: 600 * SCALE }]
    );
}

#[test]
fn seed_nonconvergence_aborts_initialization() {
    assert_eq!(
        seed_solve_outcome(None).unwrap_err(),
        CalibError::InitializationFailure
    );
    assert_eq!(seed_solve_outcome(Some((7, 8))).unwrap(), (7, 8));
}

#[test]
fn seed_model_takes_image_center() {
    let m = ucm_model_from_seed(600 * SCALE, SCALE / 2, 640, 480);
    assert_eq!(
        m.params,
        vec![600 * SCALE, 600 * SCALE, 320 * SCALE, 240 * SCALE, SCALE / 2]
    );
    assert_eq!(m.family, ModelFamily::Ucm);
}

#[test]
fn zero_focal_seed_is_rejected() {
    let m = ucm(vec![0, 2, 3, 4, 5], 640, 480);
    assert_eq!(accept_initial_model(m).unwrap_err(), CalibError::InitializationFailure);
    let good = ucm(vec![600 * SCALE, 2, 3, 4, 5], 640, 480);
    assert!(accept_initial_model(good).is_ok());
}

#[test]
fn validation_toy_errors() {
    // Errors of one through ten pixels: the median is the upper-middle
    // element, six; the ninety-nine percent trim keeps the lowest nine,
    // whose mean is five.
    let errors: Vec<i64> = (1..=10).map(|v| v * SCALE).collect();
    let report = validation(&errors);
    assert_eq!(report.total, 10);
    assert_eq!(report.median, 6 * SCALE);
    assert_eq!(report.trimmed_mean_99, 5 * SCALE);
}

#[test]
fn validation_sorts_before_measuring() {
    let errors: Vec<i64> = vec![10, 7, 3, 9, 1, 5, 6, 4, 8, 2]
        .into_iter()
        .map(|v| v * SCALE)
        .collect();
    let report = validation(&errors);
    assert_eq!(report.median, 6 * SCALE);
    assert_eq!(report.trimmed_mean_99, 5 * SCALE);
}

#[test]
fn validation_single_error_trims_to_nothing() {
    let report = validation(&vec![5 * SCALE]);
    assert_eq!(report.total, 1);
    assert_eq!(report.median, 5 * SCALE);
    assert_eq!(report.trimmed_mean_99, 0);
}

#[test]
fn average_error_exact() {
    assert_eq!(average_error(&vec![2 * SCALE, 4 * SCALE]), 3 * SCALE);
}

#[test]
fn family_parameter_counts() {
    assert_eq!(ModelFamily::Ucm.param_count(), 5);
    assert_eq!(ModelFamily::Eucm.param_count(), 6);
    assert_eq!(ModelFamily::KannalaBrandt4.param_count(), 8);
    assert_eq!(ModelFamily::OpenCvModel5.param_count(), 9);
}

#[test]
fn ucm_distortion_bounds() {
    let b = ModelFamily::Ucm.distortion_params_bound();
    assert_eq!(b, vec![(4, 0, SCALE)]);
}

#[test]
fn camera_set_params_replaces_vector() {
    let mut m = ucm(vec![1, 2, 3, 4, 5], 640, 480);
    m.set_params(&vec![9, 8, 7, 6, 5]);
    assert_eq!(m.params, vec![9, 8, 7, 6, 5]);
    assert_eq!(m.img_w, 640);
}
