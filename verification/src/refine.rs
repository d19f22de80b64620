//! The joint calibration refiner: build one combined least-squares problem
//! over the shared intrinsic block and every seeded frame's pose blocks,
//! and fold the solver collaborator's answer back into a camera model and a
//! per-frame pose list.
//!
//! A frame whose pose seeding failed (no usable undistorted points, or a
//! degenerate configuration) is excluded from the variable set and from the
//! reported pose list; its absence does not abort calibration of the
//! remaining frames.  Disabled trailing distortion parameters are pinned to
//! exactly zero; with equal-xy-focal the second focal scalar is removed
//! from the optimization block and reinserted identically afterward.
use vstd::prelude::*;

use crate::MAX_FRAMES;
use crate::camera::CameraModel;
use crate::error::CalibError;
use crate::features::FrameFeature;
use crate::pose::RvecTvec;
use crate::problem::{
    BlockId, CalibrationProblem, ResidualKind, ScalarFix, SolverResult,
    spec_block_values, spec_has_block, spec_block_len, spec_shift, spec_param_bounds,
    set_problem_parameter_bound, set_problem_parameter_disabled,
};
use crate::select::count_of;

verus! {

/// The intrinsic-parameter vector as the optimizer sees it: with
/// equal-xy-focal the second focal scalar is removed.
pub open spec fn spec_reduced_params(p: Seq<i64>, xy_same_focal: bool) -> Seq<i64> {
    if xy_same_focal {
        p.remove(1)
    } else {
        p
    }
}

/// A parameter vector with its trailing `disabled` scalars replaced by
/// exactly zero.
pub open spec fn spec_zero_trailing(p: Seq<i64>, disabled: int) -> Seq<i64> {
    Seq::new(
        p.len(),
        |j: int|
            if j >= p.len() - disabled {
                0i64
            } else {
                p[j]
            },
    )
}

/// The full parameter vector recovered from a solver answer: the focal
/// overwritten by the caller-fixed value when focal is externally fixed,
/// the second focal scalar reinserted as a copy of the first when
/// equal-xy-focal, and the trailing disabled distortion scalars pinned to
/// exactly zero.
pub open spec fn spec_final_params(
    solved: Seq<i64>,
    orig_focal: i64,
    xy_same_focal: bool,
    disabled: int,
    fixed_focal: bool,
) -> Seq<i64> {
    let base = if fixed_focal {
        solved.update(0, orig_focal)
    } else {
        solved
    };
    let full = if xy_same_focal {
        base.insert(1, base[0])
    } else {
        base
    };
    spec_zero_trailing(full, disabled)
}

/// The number of reprojection residuals contributed by the seeded frames
/// before frame `f`: one per observed correspondence of each seeded frame.
pub open spec fn spec_points_before(
    frames: Seq<Option<FrameFeature>>,
    seeds: Seq<Option<RvecTvec>>,
    f: int,
) -> int
    decreases f,
{
    if f <= 0 {
        0
    } else {
        spec_points_before(frames, seeds, f - 1) + if seeds[f - 1] is Some {
            count_of(frames[f - 1])
        } else {
            0
        }
    }
}

/// The block references of one frame's reprojection residual: the shared
/// intrinsic block and the frame's own rotation and translation blocks.
pub open spec fn spec_reproj_refs(f: int, plen: int) -> Seq<(BlockId, usize)> {
    seq![
        (BlockId::Params, plen as usize),
        (BlockId::Rvec(f as usize), 3usize),
        (BlockId::Tvec(f as usize), 3usize),
    ]
}

/// Build the joint refinement problem.
///
/// `pose_seeds[i]` is the absolute-pose collaborator's seed for frame `i`:
/// `None` when the frame is absent, yields too few usable undistorted
/// points, or is degenerate.  Exactly the seeded frames contribute: one
/// robust reprojection residual per correspondence, one rotation and one
/// translation block per frame.  The returned index list names the seeded
/// frames in ascending order; every other frame is excluded, and its
/// exclusion does not abort the build.
pub fn build_calibration_problem(
    frames: &Vec<Option<FrameFeature>>,
    camera: &CameraModel,
    xy_same_focal: bool,
    disabled_distortions: usize,
    pose_seeds: &Vec<Option<RvecTvec>>,
) -> (r: (CalibrationProblem, Vec<usize>))
    requires
        camera.wf(),
        frames@.len() == pose_seeds@.len(),
        frames@.len() <= MAX_FRAMES,
        forall|i: int|
            0 <= i < pose_seeds@.len() && pose_seeds@[i] is Some ==> frames@[i] is Some && (
            #[trigger] pose_seeds@[i])->Some_0.wf(),
        disabled_distortions <= camera.family.spec_param_count() - 4,
    ensures
        r.0.wf(),
        // The valid frames: exactly the seeded ones, in ascending order.
        forall|k1: int, k2: int| 0 <= k1 < k2 < r.1@.len() ==> r.1@[k1] < r.1@[k2],
        forall|k: int|
            0 <= k < r.1@.len() ==> (#[trigger] r.1@[k]) < frames@.len()
                && pose_seeds@[r.1@[k] as int] is Some,
        forall|i: int|
            0 <= i < pose_seeds@.len() && pose_seeds@[i] is Some ==> r.1@.contains(i as usize),
        // The variable blocks: the reduced intrinsic vector with its
        // trailing disabled scalars pinned to zero, then one rotation and
        // one translation block per valid frame, seeded by the collaborator.
        r.0.blocks@.len() == 1 + 2 * r.1@.len(),
        r.0.blocks@[0].id == BlockId::Params,
        r.0.blocks@[0].init@ == spec_zero_trailing(
            spec_reduced_params(camera.params@, xy_same_focal),
            disabled_distortions as int,
        ),
        forall|k: int|
            0 <= k < r.1@.len() ==> (#[trigger] r.0.blocks@[1 + 2 * k]).id == BlockId::Rvec(
                r.1@[k],
            ) && r.0.blocks@[1 + 2 * k].init@ == pose_seeds@[r.1@[k] as int]->Some_0.rvec@,
        forall|k: int|
            0 <= k < r.1@.len() ==> (#[trigger] r.0.blocks@[2 + 2 * k]).id == BlockId::Tvec(
                r.1@[k],
            ) && r.0.blocks@[2 + 2 * k].init@ == pose_seeds@[r.1@[k] as int]->Some_0.tvec@,
        // The residuals: one robust two-dimensional reprojection residual
        // per correspondence of each valid frame, in frame order.
        r.0.residuals@.len() == spec_points_before(frames@, pose_seeds@, frames@.len() as int),
        forall|rr: int|
            0 <= rr < r.0.residuals@.len() ==> {
                let res = #[trigger] r.0.residuals@[rr];
                &&& res.dim == 2
                &&& res.robust
                &&& res.kind matches ResidualKind::Reprojection { frame, point } && 0
                    <= frame < frames@.len() && pose_seeds@[frame as int] is Some && 0
                    <= point < count_of(frames@[frame as int]) && rr == spec_points_before(
                    frames@,
                    pose_seeds@,
                    frame as int,
                ) + point && res.refs@ == spec_reproj_refs(
                    frame as int,
                    camera.family.spec_param_count() - spec_shift(xy_same_focal),
                )
            },
        // The scalar constraints: the standard intrinsic bounds, and one
        // zero-pin per disabled trailing distortion scalar.
        r.0.bounds@ == spec_param_bounds(*camera, xy_same_focal),
        r.0.fixes@.len() == disabled_distortions,
        forall|i: int|
            0 <= i < disabled_distortions ==> (#[trigger] r.0.fixes@[i]) == (ScalarFix {
                block: BlockId::Params,
                idx: (camera.family.spec_param_count() - 1 - spec_shift(xy_same_focal)
                    - i) as usize,
                value: 0,
            }),
{
    let full_count = camera.family.param_count();
    let mut params = camera.params();
    if xy_same_focal {
        params.remove(1);
    }
    let plen = params.len();
    assert(params@ == spec_reduced_params(camera.params@, xy_same_focal));
    let mut problem = CalibrationProblem::new();
    problem.add_block(BlockId::Params, params);
    let mut valid: Vec<usize> = Vec::new();
    let n = frames.len();
    for i in 0..n
        invariant
            n == frames@.len(),
            frames@.len() == pose_seeds@.len(),
            frames@.len() <= MAX_FRAMES,
            camera.wf(),
            plen == camera.family.spec_param_count() - spec_shift(xy_same_focal),
            forall|i2: int|
                0 <= i2 < pose_seeds@.len() && pose_seeds@[i2] is Some ==> frames@[i2] is Some && (
                #[trigger] pose_seeds@[i2])->Some_0.wf(),
            problem.wf(),
            problem.bounds@.len() == 0,
            problem.fixes@.len() == 0,
            forall|k1: int, k2: int| 0 <= k1 < k2 < valid@.len() ==> valid@[k1] < valid@[k2],
            forall|k: int|
                0 <= k < valid@.len() ==> (#[trigger] valid@[k]) < i && pose_seeds@[valid@[
                    k] as int] is Some,
            forall|i2: int|
                0 <= i2 < i && pose_seeds@[i2] is Some ==> valid@.contains(i2 as usize),
            problem.blocks@.len() == 1 + 2 * valid@.len(),
            problem.blocks@[0].id == BlockId::Params,
            problem.blocks@[0].init@ == spec_reduced_params(camera.params@, xy_same_focal),
            forall|k: int|
                0 <= k < valid@.len() ==> (#[trigger] problem.blocks@[1 + 2 * k]).id
                    == BlockId::Rvec(valid@[k]) && problem.blocks@[1 + 2 * k].init@ == pose_seeds@[
                    valid@[k] as int]->Some_0.rvec@,
            forall|k: int|
                0 <= k < valid@.len() ==> (#[trigger] problem.blocks@[2 + 2 * k]).id
                    == BlockId::Tvec(valid@[k]) && problem.blocks@[2 + 2 * k].init@ == pose_seeds@[
                    valid@[k] as int]->Some_0.tvec@,
            forall|f: int|
                #![trigger spec_has_block(problem.blocks@, BlockId::Rvec(f as usize))]
                i <= f < n ==> !spec_has_block(problem.blocks@, BlockId::Rvec(f as usize)),
            forall|f: int|
                #![trigger spec_has_block(problem.blocks@, BlockId::Tvec(f as usize))]
                i <= f < n ==> !spec_has_block(problem.blocks@, BlockId::Tvec(f as usize)),
            problem.residuals@.len() == spec_points_before(frames@, pose_seeds@, i as int),
            forall|rr: int|
                0 <= rr < problem.residuals@.len() ==> {
                    let res = #[trigger] problem.residuals@[rr];
                    &&& res.dim == 2
                    &&& res.robust
                    &&& res.kind matches ResidualKind::Reprojection { frame, point } && 0
                        <= frame < i && pose_seeds@[frame as int] is Some && 0 <= point < count_of(
                        frames@[frame as int],
                    ) && rr == spec_points_before(frames@, pose_seeds@, frame as int) + point
                        && res.refs@ == spec_reproj_refs(frame as int, plen as int)
                },
    {
        let seed = &pose_seeds[i];
        match seed {
            Some(rt) => {
                match &frames[i] {
                    Some(frame) => {
                        let ghost pre_blocks = problem.blocks@;
                        let ghost pre_valid = valid@;
                        problem.add_block(BlockId::Rvec(i), rt.rvec.clone());
                        problem.add_block(BlockId::Tvec(i), rt.tvec.clone());
                        valid.push(i);
                        proof {
                            assert forall|i2: int|
                                0 <= i2 < i + 1 && pose_seeds@[i2] is Some implies valid@.contains(
                                i2 as usize,
                            ) by {
                                if i2 < i {
                                    let k = choose|k: int|
                                        0 <= k < pre_valid.len() && pre_valid[k] == i2 as usize;
                                    assert(valid@[k] == i2 as usize);
                                } else {
                                    assert(valid@.last() == i2 as usize);
                                }
                            }
                            assert forall|f: int|
                                #![trigger spec_has_block(problem.blocks@, BlockId::Rvec(f as usize))]
                                i + 1 <= f < n implies !spec_has_block(
                                problem.blocks@,
                                BlockId::Rvec(f as usize),
                            ) by {
                                if spec_has_block(problem.blocks@, BlockId::Rvec(f as usize)) {
                                    let k = choose|k: int|
                                        0 <= k < problem.blocks@.len() && (
                                        #[trigger] problem.blocks@[k]).id == BlockId::Rvec(
                                            f as usize,
                                        );
                                    assert(k < pre_blocks.len());
                                    assert(spec_has_block(pre_blocks, BlockId::Rvec(f as usize)));
                                }
                            }
                            assert forall|f: int|
                                #![trigger spec_has_block(problem.blocks@, BlockId::Tvec(f as usize))]
                                i + 1 <= f < n implies !spec_has_block(
                                problem.blocks@,
                                BlockId::Tvec(f as usize),
                            ) by {
                                if spec_has_block(problem.blocks@, BlockId::Tvec(f as usize)) {
                                    let k = choose|k: int|
                                        0 <= k < problem.blocks@.len() && (
                                        #[trigger] problem.blocks@[k]).id == BlockId::Tvec(
                                            f as usize,
                                        );
                                    if k < pre_blocks.len() {
                                        assert(spec_has_block(
                                            pre_blocks,
                                            BlockId::Tvec(f as usize),
                                        ));
                                    }
                                }
                            }
                            assert forall|k: int| 0 <= k < valid@.len() implies (
                            #[trigger] problem.blocks@[1 + 2 * k]).id == BlockId::Rvec(valid@[k])
                                && problem.blocks@[1 + 2 * k].init@ == pose_seeds@[valid@[
                                k] as int]->Some_0.rvec@ by {
                                if k < pre_valid.len() {
                                    assert(problem.blocks@[1 + 2 * k] == pre_blocks[1 + 2 * k]);
                                }
                            }
                            assert forall|k: int| 0 <= k < valid@.len() implies (
                            #[trigger] problem.blocks@[2 + 2 * k]).id == BlockId::Tvec(valid@[k])
                                && problem.blocks@[2 + 2 * k].init@ == pose_seeds@[valid@[
                                k] as int]->Some_0.tvec@ by {
                                if k < pre_valid.len() {
                                    assert(problem.blocks@[2 + 2 * k] == pre_blocks[2 + 2 * k]);
                                }
                            }
                        }
                        let npts = frame.features.len();
                        let ghost pb = spec_points_before(frames@, pose_seeds@, i as int);
                        let ghost blocks_snap = problem.blocks@;
                        for j in 0..npts
                            invariant
                                problem.blocks@ == blocks_snap,
                                n == frames@.len(),
                                frames@.len() == pose_seeds@.len(),
                                0 <= i < n,
                                frames@[i as int] is Some,
                                pose_seeds@[i as int] is Some,
                                npts == count_of(frames@[i as int]),
                                camera.wf(),
                                plen == camera.family.spec_param_count() - spec_shift(
                                    xy_same_focal,
                                ),
                                problem.wf(),
                                problem.bounds@.len() == 0,
                                problem.fixes@.len() == 0,
                                problem.blocks@.len() >= 1,
                                problem.blocks@[0].id == BlockId::Params,
                                spec_block_len(problem.blocks@, BlockId::Params) == plen,
                                spec_has_block(problem.blocks@, BlockId::Rvec(i)),
                                spec_block_len(problem.blocks@, BlockId::Rvec(i)) == 3,
                                spec_has_block(problem.blocks@, BlockId::Tvec(i)),
                                spec_block_len(problem.blocks@, BlockId::Tvec(i)) == 3,
                                pb == spec_points_before(frames@, pose_seeds@, i as int),
                                problem.residuals@.len() == pb + j,
                                forall|rr: int|
                                    0 <= rr < problem.residuals@.len() ==> {
                                        let res = #[trigger] problem.residuals@[rr];
                                        &&& res.dim == 2
                                        &&& res.robust
                                        &&& res.kind matches ResidualKind::Reprojection {
                                            frame,
                                            point,
                                        } && 0 <= frame < i + 1 && pose_seeds@[frame as int] is Some
                                            && 0 <= point < count_of(frames@[frame as int]) && rr
                                            == spec_points_before(
                                            frames@,
                                            pose_seeds@,
                                            frame as int,
                                        ) + point && res.refs@ == spec_reproj_refs(
                                            frame as int,
                                            plen as int,
                                        )
                                    },
                        {
                            let mut refs: Vec<(BlockId, usize)> = Vec::new();
                            refs.push((BlockId::Params, plen));
                            refs.push((BlockId::Rvec(i), 3));
                            refs.push((BlockId::Tvec(i), 3));
                            assert(refs@ =~= spec_reproj_refs(i as int, plen as int));
                            problem.add_residual(
                                2,
                                refs,
                                ResidualKind::Reprojection { frame: i, point: j },
                                true,
                            );
                        }
                        proof {
                            assert(spec_points_before(frames@, pose_seeds@, i + 1) == pb + count_of(
                                frames@[i as int],
                            ));
                        }
                    },
                    None => {
                        proof {
                            assert(false);
                        }
                    },
                }
            },
            None => {
                proof {
                    assert(spec_points_before(frames@, pose_seeds@, i + 1)
                        == spec_points_before(frames@, pose_seeds@, i as int));
                    assert forall|i2: int|
                        0 <= i2 < i + 1 && pose_seeds@[i2] is Some implies valid@.contains(
                        i2 as usize,
                    ) by {
                        if i2 < i {
                            assert(valid@.contains(i2 as usize));
                        }
                    }
                }
            },
        }
    }
    set_problem_parameter_bound(&mut problem, camera, xy_same_focal);
    set_problem_parameter_disabled(
        &mut problem,
        full_count,
        xy_same_focal,
        disabled_distortions,
    );
    proof {
        assert(problem.bounds@ =~= spec_param_bounds(*camera, xy_same_focal));
        assert forall|i2: int| 0 <= i2 < disabled_distortions implies (#[trigger] problem.fixes@[
            i2]) == (ScalarFix {
            block: BlockId::Params,
            idx: (camera.family.spec_param_count() - 1 - spec_shift(xy_same_focal) - i2) as usize,
            value: 0,
        }) by {
            assert(problem.fixes@[0 + i2] == (ScalarFix {
                block: BlockId::Params,
                idx: (full_count - 1 - spec_shift(xy_same_focal) - i2) as usize,
                value: 0,
            }));
        }
        assert(problem.blocks@[0].init@ =~= spec_zero_trailing(
            spec_reduced_params(camera.params@, xy_same_focal),
            disabled_distortions as int,
        ));
        assert forall|k: int| 0 <= k < valid@.len() implies (
        #[trigger] problem.blocks@[1 + 2 * k]).id == BlockId::Rvec(valid@[k])
            && problem.blocks@[1 + 2 * k].init@ == pose_seeds@[valid@[k] as int]->Some_0.rvec@ by {
            assert(problem.blocks@[1 + 2 * k].id != BlockId::Params);
        }
        assert forall|k: int| 0 <= k < valid@.len() implies (
        #[trigger] problem.blocks@[2 + 2 * k]).id == BlockId::Tvec(valid@[k])
            && problem.blocks@[2 + 2 * k].init@ == pose_seeds@[valid@[k] as int]->Some_0.tvec@ by {
            assert(problem.blocks@[2 + 2 * k].id != BlockId::Params);
        }
    }
    (problem, valid)
}

/// Fold a solver outcome back into a camera model and a pose list.
///
/// `None` — the solver did not converge — becomes the
/// `SolverNonConvergence` failure, and nothing else does.  On success the
/// model's parameters are recovered by `spec_final_params`: in particular
/// the two focal scalars are equal whenever equal-xy-focal was set, and the
/// trailing disabled distortion scalars are exactly zero, whatever the
/// solver returned.  The pose list pairs each valid frame index, in order,
/// with its solved pose blocks.
pub fn finalize_calibration(
    camera: &CameraModel,
    xy_same_focal: bool,
    disabled_distortions: usize,
    fixed_focal: bool,
    valid: &Vec<usize>,
    outcome: Option<&SolverResult>,
) -> (r: Result<(CameraModel, Vec<(usize, RvecTvec)>), CalibError>)
    requires
        camera.wf(),
        disabled_distortions <= camera.family.spec_param_count() - 4,
        match outcome {
            Some(res) => {
                &&& res.wf()
                &&& spec_has_block(res.blocks@, BlockId::Params)
                &&& spec_block_len(res.blocks@, BlockId::Params)
                    == camera.family.spec_param_count() - spec_shift(xy_same_focal)
                &&& forall|k: int|
                    0 <= k < valid@.len() ==> spec_has_block(
                        res.blocks@,
                        BlockId::Rvec(#[trigger] valid@[k]),
                    ) && spec_block_len(res.blocks@, BlockId::Rvec(valid@[k])) == 3
                        && spec_has_block(res.blocks@, BlockId::Tvec(valid@[k]))
                        && spec_block_len(res.blocks@, BlockId::Tvec(valid@[k])) == 3
            },
            None => true,
        },
    ensures
        match r {
            Result::Err(e) => outcome is None && e == CalibError::SolverNonConvergence,
            Result::Ok((model, poses)) => {
                let res = outcome->Some_0;
                let full = spec_final_params(
                    spec_block_values(res.blocks@, BlockId::Params),
                    camera.params@[0],
                    xy_same_focal,
                    disabled_distortions as int,
                    fixed_focal,
                );
                &&& outcome is Some
                &&& model.wf()
                &&& model.family == camera.family
                &&& model.img_w == camera.img_w
                &&& model.img_h == camera.img_h
                &&& model.params@ == full
                // Equal-xy-focal yields two equal focal scalars.
                &&& xy_same_focal ==> model.params@[1] == model.params@[0]
                // Disabled trailing distortion scalars are exactly zero.
                &&& forall|j: int|
                    camera.family.spec_param_count() - disabled_distortions <= j
                        < camera.family.spec_param_count() ==> model.params@[j] == 0
                &&& poses@.len() == valid@.len()
                &&& forall|k: int|
                    0 <= k < valid@.len() ==> (#[trigger] poses@[k]).0 == valid@[k]
                        && poses@[k].1.rvec@ == spec_block_values(
                        res.blocks@,
                        BlockId::Rvec(valid@[k]),
                    ) && poses@[k].1.tvec@ == spec_block_values(
                        res.blocks@,
                        BlockId::Tvec(valid@[k]),
                    )
            },
        },
{
    let res = match outcome {
        Some(res) => res,
        None => {
            return Err(CalibError::SolverNonConvergence);
        },
    };
    let mut p = match res.get_values(BlockId::Params) {
        Some(v) => v,
        None => {
            proof {
                assert(false);
            }
            Vec::new()
        },
    };
    let ghost solved = spec_block_values(res.blocks@, BlockId::Params);
    let full_count = camera.family.param_count();
    if fixed_focal {
        p.set(0, camera.params[0]);
    }
    if xy_same_focal {
        let f0 = p[0];
        p.insert(1, f0);
    }
    let ghost full_pre = if xy_same_focal {
        (if fixed_focal {
            solved.update(0, camera.params@[0])
        } else {
            solved
        }).insert(1, (if fixed_focal {
            solved.update(0, camera.params@[0])
        } else {
            solved
        })[0])
    } else {
        (if fixed_focal {
            solved.update(0, camera.params@[0])
        } else {
            solved
        })
    };
    assert(p@ == full_pre);
    assert(p@.len() == full_count);
    for k in 0..disabled_distortions
        invariant
            p@.len() == full_count,
            full_count == camera.family.spec_param_count(),
            disabled_distortions <= full_count - 4,
            full_pre.len() == full_count,
            forall|j: int|
                0 <= j < full_count ==> p@[j] == (if j >= full_count - k {
                    0i64
                } else {
                    full_pre[j]
                }),
    {
        p.set(full_count - 1 - k, 0);
    }
    proof {
        assert(p@ =~= spec_final_params(
            solved,
            camera.params@[0],
            xy_same_focal,
            disabled_distortions as int,
            fixed_focal,
        ));
    }
    let model = CameraModel {
        family: camera.family,
        params: p,
        img_w: camera.img_w,
        img_h: camera.img_h,
    };
    let mut poses: Vec<(usize, RvecTvec)> = Vec::new();
    let nv = valid.len();
    for k in 0..nv
        invariant
            nv == valid@.len(),
            res.wf(),
            forall|k2: int|
                0 <= k2 < valid@.len() ==> spec_has_block(
                    res.blocks@,
                    BlockId::Rvec(#[trigger] valid@[k2]),
                ) && spec_block_len(res.blocks@, BlockId::Rvec(valid@[k2])) == 3 && spec_has_block(
                    res.blocks@,
                    BlockId::Tvec(valid@[k2]),
                ) && spec_block_len(res.blocks@, BlockId::Tvec(valid@[k2])) == 3,
            poses@.len() == k,
            forall|k2: int|
                0 <= k2 < k ==> (#[trigger] poses@[k2]).0 == valid@[k2] && poses@[k2].1.rvec@
                    == spec_block_values(res.blocks@, BlockId::Rvec(valid@[k2]))
                    && poses@[k2].1.tvec@ == spec_block_values(
                    res.blocks@,
                    BlockId::Tvec(valid@[k2]),
                ),
    {
        let i = valid[k];
        let rv = match res.get_values(BlockId::Rvec(i)) {
            Some(v) => v,
            None => {
                proof {
                    assert(false);
                }
                Vec::new()
            },
        };
        let tv = match res.get_values(BlockId::Tvec(i)) {
            Some(v) => v,
            None => {
                proof {
                    assert(false);
                }
                Vec::new()
            },
        };
        poses.push((i, RvecTvec::new(rv, tv)));
    }
    Ok((model, poses))
}

/// A frame whose pose seeding failed never appears in the reported pose
/// list: the valid indices name only seeded frames, and the finalized pose
/// list pairs exactly those indices.  The run itself still succeeds for
/// the remaining frames whenever the solver converges.
pub proof fn lemma_unseeded_frame_excluded(
    seeds: Seq<Option<RvecTvec>>,
    valid: Seq<usize>,
    poses: Seq<(usize, RvecTvec)>,
    i: int,
)
    requires
        forall|k: int|
            0 <= k < valid.len() ==> (#[trigger] valid[k]) < seeds.len()
                && seeds[valid[k] as int] is Some,
        poses.len() == valid.len(),
        forall|k: int| 0 <= k < poses.len() ==> (#[trigger] poses[k]).0 == valid[k],
        0 <= i < seeds.len(),
        seeds[i] is None,
    ensures
        forall|k: int| 0 <= k < poses.len() ==> (#[trigger] poses[k]).0 != i,
{
    assert forall|k: int| 0 <= k < poses.len() implies (#[trigger] poses[k]).0 != i by {
        assert(seeds[valid[k] as int] is Some);
    }
}

/// Prepare the second solve of an externally fixed focal length: pin the
/// first focal scalar of the intrinsic block to the caller-supplied model's
/// focal, and overwrite it in the first pass's answer, which seeds the
/// second pass.
pub fn prepare_fixed_focal_pass(
    problem: &mut CalibrationProblem,
    camera: &CameraModel,
    first: &mut SolverResult,
)
    requires
        old(problem).wf(),
        camera.wf(),
        spec_has_block(old(problem).blocks@, BlockId::Params),
        spec_block_len(old(problem).blocks@, BlockId::Params) >= 1,
        old(first).wf(),
        spec_has_block(old(first).blocks@, BlockId::Params),
        spec_block_len(old(first).blocks@, BlockId::Params) >= 1,
    ensures
        final(problem).wf(),
        final(problem).residuals@ == old(problem).residuals@,
        final(problem).bounds@ == old(problem).bounds@,
        final(problem).fixes@ == old(problem).fixes@.push(
            ScalarFix { block: BlockId::Params, idx: 0, value: camera.params@[0] },
        ),
        final(first).wf(),
        spec_block_values(final(first).blocks@, BlockId::Params) == spec_block_values(
            old(first).blocks@,
            BlockId::Params,
        ).update(0, camera.params@[0]),
        forall|k: int|
            0 <= k < old(first).blocks@.len() && old(first).blocks@[k].id != BlockId::Params ==> (
            #[trigger] final(first).blocks@[k]).init@ == old(first).blocks@[k].init@,
        forall|k: int|
            0 <= k < old(first).blocks@.len() ==> (#[trigger] final(first).blocks@[k]).id == old(
                first,
            ).blocks@[k].id,
{
    let focal = camera.params[0];
    problem.fix_scalar(BlockId::Params, 0, focal);
    first.set_scalar(BlockId::Params, 0, focal);
}

} // verus!
