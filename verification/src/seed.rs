//! Staged initialization: turn the homography collaborator's outputs into
//! a two-parameter Unified Camera Model seed problem, and accept or reject
//! what comes back.
//!
//! The homography bootstrap itself — estimating a radial-distortion
//! compensated planar homography from two frames and decomposing it — is a
//! collaborator outside this crate; this crate owns every decision made on
//! its outputs: when initialization fails, how the seed focal and shape
//! parameter are derived, how the restricted two-parameter problem is laid
//! out, and when a converged seed model is rejected.
use vstd::prelude::*;

use crate::{COORD_LIMIT, MAX_IMG, SCALE};
use crate::camera::{CameraModel, ModelFamily};
use crate::error::CalibError;
use crate::features::FrameFeature;
use crate::pose::RvecTvec;
use crate::problem::{BlockId, CalibrationProblem, FOCAL_BOUND, ResidualKind, ScalarFix};

verus! {

/// The smallest positive fixed-point value: the lower bound that keeps the
/// seed model's shape parameter strictly positive.
pub const ALPHA_EPS: i64 = 1;

/// The absolute value of a fixed-point scalar.
pub open spec fn spec_abs(v: i64) -> int {
    if v < 0 {
        -(v as int)
    } else {
        v as int
    }
}

/// The seed focal length: the caller-fixed focal when one is supplied,
/// otherwise the unit-plane focal scaled by half of the larger image
/// dimension.
pub open spec fn spec_seed_focal(
    unit_plane_focal: i64,
    img_w: u32,
    img_h: u32,
    fixed_focal: Option<i64>,
) -> int {
    match fixed_focal {
        Some(f) => f as int,
        None => unit_plane_focal * (if img_w >= img_h {
            img_w as int
        } else {
            img_h as int
        }) / 2,
    }
}

/// Derive the seed focal length and seed shape parameter from the
/// homography collaborator's outputs.
///
/// `unit_plane_focal` is the focal length the collaborator extracted from
/// the homography, or `None` for a degenerate point configuration: that, and
/// nothing else, is the `InitializationFailure` — the caller may retry with
/// a different frame pair.  The distortion compensation parameter's
/// absolute value seeds the shape parameter.
pub fn seed_from_homography(
    unit_plane_focal: Option<i64>,
    lambda: i64,
    img_w: u32,
    img_h: u32,
    fixed_focal: Option<i64>,
) -> (r: Result<(i64, i64), CalibError>)
    requires
        1 <= img_w <= MAX_IMG,
        1 <= img_h <= MAX_IMG,
        -COORD_LIMIT <= lambda <= COORD_LIMIT,
        unit_plane_focal is Some ==> 0 <= unit_plane_focal->0 <= COORD_LIMIT,
    ensures
        match r {
            Result::Err(e) => unit_plane_focal is None && e == CalibError::InitializationFailure,
            Result::Ok((init_f, init_alpha)) => {
                &&& unit_plane_focal is Some
                &&& init_f == spec_seed_focal(unit_plane_focal->0, img_w, img_h, fixed_focal)
                &&& init_alpha == spec_abs(lambda)
            },
        },
{
    let unit_focal = match unit_plane_focal {
        Some(f) => f,
        None => {
            return Err(CalibError::InitializationFailure);
        },
    };
    let max_dim: i64 = if img_w >= img_h {
        img_w as i64
    } else {
        img_h as i64
    };
    proof {
        assert(0 <= unit_focal * max_dim <= COORD_LIMIT * (MAX_IMG as int)) by (nonlinear_arith)
            requires 0 <= unit_focal <= COORD_LIMIT, 1 <= max_dim <= MAX_IMG as int;
    }
    let init_f = match fixed_focal {
        Some(f) => f,
        None => unit_focal * max_dim / 2,
    };
    let init_alpha = if lambda < 0 {
        -lambda
    } else {
        lambda
    };
    Ok((init_f, init_alpha))
}

/// Build the restricted two-parameter seed problem over the two bootstrap
/// frames: a 2-scalar intrinsic block (focal, shape), each frame's pose
/// blocks, one robust restricted reprojection residual per observed point,
/// the focal bounded to one third through three times its seed, the shape
/// parameter kept in its positive unit range, and the focal pinned when it
/// is externally fixed.
pub fn build_ucm_seed_problem(
    frame0: &FrameFeature,
    frame1: &FrameFeature,
    rtvec0: &RvecTvec,
    rtvec1: &RvecTvec,
    init_f: i64,
    init_alpha: i64,
    fixed_focal: bool,
) -> (r: CalibrationProblem)
    requires
        rtvec0.wf(),
        rtvec1.wf(),
        1 <= init_f <= FOCAL_BOUND,
        0 <= init_alpha,
    ensures
        r.wf(),
        r.blocks@.len() == 5,
        r.blocks@[0].id == BlockId::Params,
        r.blocks@[0].init@ == seq![init_f, init_alpha],
        r.blocks@[1].id == BlockId::Rvec(0) && r.blocks@[1].init@ == rtvec0.rvec@,
        r.blocks@[2].id == BlockId::Tvec(0) && r.blocks@[2].init@ == rtvec0.tvec@,
        r.blocks@[3].id == BlockId::Rvec(1) && r.blocks@[3].init@ == rtvec1.rvec@,
        r.blocks@[4].id == BlockId::Tvec(1) && r.blocks@[4].init@ == rtvec1.tvec@,
        r.residuals@.len() == frame0.features@.len() + frame1.features@.len(),
        forall|rr: int|
            0 <= rr < frame0.features@.len() ==> {
                let res = #[trigger] r.residuals@[rr];
                &&& res.dim == 2
                &&& res.robust
                &&& res.kind == (ResidualKind::UcmInitFocalAlpha { frame: 0, point: rr as usize })
                &&& res.refs@ == seq![
                    (BlockId::Params, 2usize),
                    (BlockId::Rvec(0usize), 3usize),
                    (BlockId::Tvec(0usize), 3usize),
                ]
            },
        forall|rr: int|
            frame0.features@.len() <= rr < r.residuals@.len() ==> {
                let res = #[trigger] r.residuals@[rr];
                &&& res.dim == 2
                &&& res.robust
                &&& res.kind == (ResidualKind::UcmInitFocalAlpha {
                    frame: 1,
                    point: (rr - frame0.features@.len()) as usize,
                })
                &&& res.refs@ == seq![
                    (BlockId::Params, 2usize),
                    (BlockId::Rvec(1usize), 3usize),
                    (BlockId::Tvec(1usize), 3usize),
                ]
            },
        r.bounds@.len() == 2,
        r.bounds@[0].block == BlockId::Params && r.bounds@[0].idx == 0 && r.bounds@[0].lower
            == init_f / 3 && r.bounds@[0].upper == 3 * init_f,
        r.bounds@[1].block == BlockId::Params && r.bounds@[1].idx == 1 && r.bounds@[1].lower
            == ALPHA_EPS && r.bounds@[1].upper == SCALE,
        r.fixes@ == if fixed_focal {
            seq![ScalarFix { block: BlockId::Params, idx: 0, value: init_f }]
        } else {
            Seq::<ScalarFix>::empty()
        },
{
    let mut problem = CalibrationProblem::new();
    let mut params: Vec<i64> = Vec::new();
    params.push(init_f);
    params.push(init_alpha);
    assert(params@ =~= seq![init_f, init_alpha]);
    problem.add_block(BlockId::Params, params);
    problem.add_block(BlockId::Rvec(0), rtvec0.rvec.clone());
    problem.add_block(BlockId::Tvec(0), rtvec0.tvec.clone());
    problem.add_block(BlockId::Rvec(1), rtvec1.rvec.clone());
    problem.add_block(BlockId::Tvec(1), rtvec1.tvec.clone());

    let n0 = frame0.features.len();
    for j in 0..n0
        invariant
            n0 == frame0.features@.len(),
            problem.wf(),
            problem.blocks@.len() == 5,
            problem.blocks@[0].id == BlockId::Params && problem.blocks@[0].init@ == seq![
                init_f,
                init_alpha,
            ],
            problem.blocks@[1].id == BlockId::Rvec(0) && problem.blocks@[1].init@ == rtvec0.rvec@,
            problem.blocks@[2].id == BlockId::Tvec(0) && problem.blocks@[2].init@ == rtvec0.tvec@,
            problem.blocks@[3].id == BlockId::Rvec(1) && problem.blocks@[3].init@ == rtvec1.rvec@,
            problem.blocks@[4].id == BlockId::Tvec(1) && problem.blocks@[4].init@ == rtvec1.tvec@,
            rtvec0.wf(),
            rtvec1.wf(),
            problem.bounds@.len() == 0,
            problem.fixes@.len() == 0,
            problem.residuals@.len() == j,
            forall|rr: int|
                0 <= rr < j ==> {
                    let res = #[trigger] problem.residuals@[rr];
                    &&& res.dim == 2
                    &&& res.robust
                    &&& res.kind == (ResidualKind::UcmInitFocalAlpha {
                        frame: 0,
                        point: rr as usize,
                    })
                    &&& res.refs@ == seq![
                        (BlockId::Params, 2usize),
                        (BlockId::Rvec(0usize), 3usize),
                        (BlockId::Tvec(0usize), 3usize),
                    ]
                },
    {
        let mut refs: Vec<(BlockId, usize)> = Vec::new();
        refs.push((BlockId::Params, 2));
        refs.push((BlockId::Rvec(0), 3));
        refs.push((BlockId::Tvec(0), 3));
        assert(refs@ =~= seq![
            (BlockId::Params, 2usize),
            (BlockId::Rvec(0usize), 3usize),
            (BlockId::Tvec(0usize), 3usize),
        ]);
        problem.add_residual(
            2,
            refs,
            ResidualKind::UcmInitFocalAlpha { frame: 0, point: j },
            true,
        );
    }
    let n1 = frame1.features.len();
    for j in 0..n1
        invariant
            n0 == frame0.features@.len(),
            n1 == frame1.features@.len(),
            problem.wf(),
            problem.blocks@.len() == 5,
            problem.blocks@[0].id == BlockId::Params && problem.blocks@[0].init@ == seq![
                init_f,
                init_alpha,
            ],
            problem.blocks@[1].id == BlockId::Rvec(0) && problem.blocks@[1].init@ == rtvec0.rvec@,
            problem.blocks@[2].id == BlockId::Tvec(0) && problem.blocks@[2].init@ == rtvec0.tvec@,
            problem.blocks@[3].id == BlockId::Rvec(1) && problem.blocks@[3].init@ == rtvec1.rvec@,
            problem.blocks@[4].id == BlockId::Tvec(1) && problem.blocks@[4].init@ == rtvec1.tvec@,
            rtvec0.wf(),
            rtvec1.wf(),
            problem.bounds@.len() == 0,
            problem.fixes@.len() == 0,
            problem.residuals@.len() == n0 + j,
            forall|rr: int|
                0 <= rr < n0 ==> {
                    let res = #[trigger] problem.residuals@[rr];
                    &&& res.dim == 2
                    &&& res.robust
                    &&& res.kind == (ResidualKind::UcmInitFocalAlpha {
                        frame: 0,
                        point: rr as usize,
                    })
                    &&& res.refs@ == seq![
                        (BlockId::Params, 2usize),
                        (BlockId::Rvec(0usize), 3usize),
                        (BlockId::Tvec(0usize), 3usize),
                    ]
                },
            forall|rr: int|
                n0 <= rr < n0 + j ==> {
                    let res = #[trigger] problem.residuals@[rr];
                    &&& res.dim == 2
                    &&& res.robust
                    &&& res.kind == (ResidualKind::UcmInitFocalAlpha {
                        frame: 1,
                        point: (rr - n0) as usize,
                    })
                    &&& res.refs@ == seq![
                        (BlockId::Params, 2usize),
                        (BlockId::Rvec(1usize), 3usize),
                        (BlockId::Tvec(1usize), 3usize),
                    ]
                },
    {
        let mut refs: Vec<(BlockId, usize)> = Vec::new();
        refs.push((BlockId::Params, 2));
        refs.push((BlockId::Rvec(1), 3));
        refs.push((BlockId::Tvec(1), 3));
        assert(refs@ =~= seq![
            (BlockId::Params, 2usize),
            (BlockId::Rvec(1usize), 3usize),
            (BlockId::Tvec(1usize), 3usize),
        ]);
        problem.add_residual(
            2,
            refs,
            ResidualKind::UcmInitFocalAlpha { frame: 1, point: j },
            true,
        );
    }
    problem.set_bound(BlockId::Params, 0, init_f / 3, 3 * init_f);
    problem.set_bound(BlockId::Params, 1, ALPHA_EPS, SCALE);
    if fixed_focal {
        problem.fix_scalar(BlockId::Params, 0, init_f);
        assert(problem.fixes@ =~= seq![ScalarFix { block: BlockId::Params, idx: 0, value: init_f }]);
    } else {
        assert(problem.fixes@ =~= Seq::<ScalarFix>::empty());
    }
    problem
}

/// Interpret the two-parameter seed solve's outcome: a solve that did not
/// converge aborts the whole initialization as an `InitializationFailure` —
/// the caller may retry with a different frame pair — and is never reported
/// as a joint-stage solver failure.
pub fn seed_solve_outcome(outcome: Option<(i64, i64)>) -> (r: Result<(i64, i64), CalibError>)
    ensures
        match r {
            Result::Ok(fa) => outcome == Some(fa),
            Result::Err(e) => outcome is None && e == CalibError::InitializationFailure,
        },
{
    match outcome {
        Some(fa) => Ok(fa),
        None => Err(CalibError::InitializationFailure),
    }
}

/// Construct the full five-parameter Unified Camera Model from a converged
/// seed: equal focal terms, the principal point at the image center, and
/// the converged shape parameter.
pub fn ucm_model_from_seed(focal: i64, alpha: i64, img_w: u32, img_h: u32) -> (r: CameraModel)
    requires
        1 <= img_w <= MAX_IMG,
        1 <= img_h <= MAX_IMG,
    ensures
        r.wf(),
        r.family == ModelFamily::Ucm,
        r.img_w == img_w,
        r.img_h == img_h,
        r.params@ == seq![
            focal,
            focal,
            (img_w as i64 * SCALE / 2) as i64,
            (img_h as i64 * SCALE / 2) as i64,
            alpha,
        ],
{
    let half_w: i64 = (img_w as i64) * SCALE / 2;
    let half_h: i64 = (img_h as i64) * SCALE / 2;
    let mut params: Vec<i64> = Vec::new();
    params.push(focal);
    params.push(focal);
    params.push(half_w);
    params.push(half_h);
    params.push(alpha);
    assert(params@ =~= seq![focal, focal, half_w, half_h, alpha]);
    CameraModel { family: ModelFamily::Ucm, params, img_w, img_h }
}

/// Accept a converged initial model, or reject one whose focal collapsed
/// to zero — a failed initialization the caller may retry.
pub fn accept_initial_model(model: CameraModel) -> (r: Result<CameraModel, CalibError>)
    requires
        model.wf(),
    ensures
        match r {
            Result::Err(e) => model.params@[0] == 0 && e == CalibError::InitializationFailure,
            Result::Ok(m) => model.params@[0] != 0 && m == model,
        },
{
    if model.params[0] == 0 {
        Err(CalibError::InitializationFailure)
    } else {
        Ok(model)
    }
}

} // verus!
