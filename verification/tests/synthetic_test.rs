//! Synthetic zero-noise refinement: correspondences generated from a known
//! intrinsic model and known per-frame poses are recovered by the joint
//! refinement within a small tolerance.
use std::collections::HashMap;

use camera_calib_core::SCALE;
use camera_calib_core::camera::{CameraModel, ModelFamily};
use camera_calib_core::features::{FeaturePoint, FrameFeature, Point2, Point3};
use camera_calib_core::pose::RvecTvec;
use camera_calib_core::problem::{BlockId, SolverResult, VariableBlock};
use camera_calib_core::refine::build_calibration_problem;
use camera_calib_core::refine::finalize_calibration;
use camera_intrinsic_model::{GenericModel, UCM};
use tiny_solver::factors::{na, Factor};
use tiny_solver::loss_functions::HuberLoss;
use tiny_solver::Optimizer;

fn to_fixed(v: f64) -> i64 {
    (v * SCALE as f64).round() as i64
}

fn from_fixed(v: i64) -> f64 {
    v as f64 / SCALE as f64
}

struct ReprojFactor {
    model: GenericModel<f64>,
    p3d: na::Vector3<f64>,
    p2d: na::Vector2<f64>,
}

impl<T: na::RealField> Factor<T> for ReprojFactor {
    fn residual_func(&self, params: &[na::DVector<T>]) -> na::DVector<T> {
        // One shared focal scalar: the model takes it twice.
        let intrinsics = params[0].clone().insert_row(1, params[0][0].clone());
        let model = self.model.cast::<T>().new_from_params(&intrinsics);
        let rvec = na::Vector3::new(
            params[1][0].clone(),
            params[1][1].clone(),
            params[1][2].clone(),
        );
        let tvec = na::Vector3::new(
            params[2][0].clone(),
            params[2][1].clone(),
            params[2][2].clone(),
        );
        let p3 = na::Vector3::new(
            T::from_f64(self.p3d.x).unwrap(),
            T::from_f64(self.p3d.y).unwrap(),
            T::from_f64(self.p3d.z).unwrap(),
        );
        let pc = na::Rotation3::new(rvec) * p3 + tvec;
        let projected = model.project_one(&pc);
        na::DVector::from_vec(vec![
            projected.x.clone() - T::from_f64(self.p2d.x).unwrap(),
            projected.y.clone() - T::from_f64(self.p2d.y).unwrap(),
        ])
    }
}

#[test]
fn zero_noise_refinement_recovers_the_model() {
    // The true camera and two true poses.
    let true_params = na::DVector::from_vec(vec![500.0, 500.0, 320.0, 240.0, 0.6]);
    let truth = GenericModel::UCM(UCM::new(&true_params, 640, 480));
    let true_poses = [
        (na::Vector3::new(0.05, -0.02, 0.01), na::Vector3::new(0.1, -0.1, 2.0)),
        (na::Vector3::new(-0.20, 0.15, 0.00), na::Vector3::new(-0.2, 0.1, 2.5)),
    ];

    // A planar target grid, observed without noise in both frames.
    let mut frames: Vec<Option<FrameFeature>> = Vec::new();
    let mut seeds: Vec<Option<RvecTvec>> = Vec::new();
    for (rvec, tvec) in &true_poses {
        let rotation = na::Rotation3::new(*rvec);
        let mut features = Vec::new();
        for gy in 0..5 {
            for gx in 0..5 {
                let p3d = na::Vector3::new(
                    (gx as f64 - 2.0) * 0.2,
                    (gy as f64 - 2.0) * 0.2,
                    0.0,
                );
                let pc = rotation * p3d + tvec;
                let p2d = truth.project_one(&pc);
                features.push(FeaturePoint {
                    id: (gy * 5 + gx) as u32,
                    p2d: Point2 { x: to_fixed(p2d.x), y: to_fixed(p2d.y) },
                    p3d: Point3 { x: to_fixed(p3d.x), y: to_fixed(p3d.y), z: to_fixed(p3d.z) },
                });
            }
        }
        frames.push(Some(FrameFeature { features, img_w: 640, img_h: 480, time_ns: 0 }));
        seeds.push(Some(RvecTvec::new(
            vec![to_fixed(rvec.x), to_fixed(rvec.y), to_fixed(rvec.z)],
            vec![to_fixed(tvec.x), to_fixed(tvec.y), to_fixed(tvec.z)],
        )));
    }

    // Start from a perturbed model, one shared focal scalar.
    let start = CameraModel {
        family: ModelFamily::Ucm,
        params: vec![
            to_fixed(480.0),
            to_fixed(480.0),
            to_fixed(325.0),
            to_fixed(235.0),
            to_fixed(0.5),
        ],
        img_w: 640,
        img_h: 480,
    };
    let (desc, valid) = build_calibration_problem(&frames, &start, true, 0, &seeds);
    assert_eq!(valid, vec![0, 1]);

    // Materialize the description for the solver and run it.
    let start_projection = GenericModel::UCM(UCM::new(
        &na::DVector::from_vec(start.params.iter().map(|&v| from_fixed(v)).collect()),
        640,
        480,
    ));
    let name = |id: BlockId| -> String {
        match id {
            BlockId::Params => "params".to_string(),
            BlockId::Rvec(i) => format!("rvec{}", i),
            BlockId::Tvec(i) => format!("tvec{}", i),
        }
    };
    let mut problem = tiny_solver::Problem::new();
    for res in &desc.residuals {
        let names: Vec<String> = res.refs.iter().map(|r| name(r.0)).collect();
        let name_refs: Vec<&str> = names.iter().map(|s| s.as_str()).collect();
        let (frame, point) = match res.kind {
            camera_calib_core::problem::ResidualKind::Reprojection { frame, point } => {
                (frame, point)
            }
            _ => panic!("unexpected residual"),
        };
        let fp = &frames[frame].as_ref().unwrap().features[point];
        let factor = ReprojFactor {
            model: start_projection.clone(),
            p3d: na::Vector3::new(from_fixed(fp.p3d.x), from_fixed(fp.p3d.y), from_fixed(fp.p3d.z)),
            p2d: na::Vector2::new(from_fixed(fp.p2d.x), from_fixed(fp.p2d.y)),
        };
        problem.add_residual_block(
            res.dim,
            &name_refs,
            Box::new(factor),
            Some(Box::new(HuberLoss::new(1.0))),
        );
    }
    for b in &desc.bounds {
        problem.set_variable_bounds(&name(b.block), b.idx, from_fixed(b.lower), from_fixed(b.upper));
    }
    let init: HashMap<String, na::DVector<f64>> = desc
        .blocks
        .iter()
        .map(|b| {
            (
                name(b.id),
                na::DVector::from_vec(b.init.iter().map(|&v| from_fixed(v)).collect()),
            )
        })
        .collect();
    let optimizer = tiny_solver::GaussNewtonOptimizer {};
    let answer = optimizer.optimize(&problem, &init, None).expect("solver converged");

    let result = SolverResult {
        blocks: desc
            .blocks
            .iter()
            .map(|b| VariableBlock {
                id: b.id,
                init: answer[&name(b.id)].iter().map(|&v| to_fixed(v)).collect(),
            })
            .collect(),
    };
    let (model, poses) =
        finalize_calibration(&start, true, 0, false, &valid, Some(&result)).unwrap();

    // The true intrinsics come back within the fixed-point quantization.
    let expected = [500.0, 500.0, 320.0, 240.0, 0.6];
    for (got, want) in model.params.iter().zip(&expected) {
        let got = from_fixed(*got);
        assert!(
            (got - want).abs() / want < 1e-3,
            "parameter {} too far from {}",
            got,
            want
        );
    }
    // The poses come back too.
    assert_eq!(poses.len(), 2);
    for (k, (rvec, tvec)) in true_poses.iter().enumerate() {
        let got_r = &poses[k].1.rvec;
        let got_t = &poses[k].1.tvec;
        for j in 0..3 {
            assert!((from_fixed(got_r[j]) - rvec[j]).abs() < 1e-3);
            assert!((from_fixed(got_t[j]) - tvec[j]).abs() < 1e-3);
        }
    }
}
