//! Model conversion: refit a different family's parameters so its
//! projection matches a source model's ray mapping, sampled on a regular
//! pixel grid away from the image edges.
//!
//! The unprojection of the grid samples and the solve belong to the
//! projection and solver collaborators; this crate owns the sampling plan
//! (margin, stride, grid), the fail-fast dimension check, the target's
//! initialization from the source's shared leading parameters, and folding
//! the answer back into the target model.
use vstd::prelude::*;

use crate::camera::CameraModel;
use crate::error::CalibError;
use crate::problem::{
    BlockId, CalibrationProblem, ResidualKind, ScalarFix, SolverResult, spec_has_block,
    spec_block_len, spec_block_values, spec_shift, spec_param_bounds, set_problem_parameter_bound,
    set_problem_parameter_disabled,
};
use crate::refine::spec_zero_trailing;

verus! {

/// Largest ray count a conversion residual may compare, so its
/// two-per-ray dimension stays representable.
pub const MAX_RAYS: usize = 0x100_0000;

/// The larger image dimension.
pub open spec fn spec_max_dim(img_w: u32, img_h: u32) -> int {
    if img_w >= img_h {
        img_w as int
    } else {
        img_h as int
    }
}

/// The edge margin of the sampling grid: one percent of the larger image
/// dimension per side.
pub open spec fn spec_edge_margin(img_w: u32, img_h: u32) -> int {
    spec_max_dim(img_w, img_h) / 100
}

/// The sampling stride: one thirtieth of the larger image dimension, so
/// roughly thirty samples span it.
pub open spec fn spec_grid_stride(img_w: u32, img_h: u32) -> int {
    spec_max_dim(img_w, img_h) / 30
}

/// How many samples a span of `extent` pixels holds at stride `s`,
/// starting at its first pixel.
pub open spec fn spec_grid_count(extent: int, s: int) -> int {
    (extent - 1) / s + 1
}

/// The image is large enough to sample: at least one stride, and wider
/// than its two edge margins in both directions.
pub open spec fn spec_samplable(img_w: u32, img_h: u32) -> bool {
    &&& spec_grid_stride(img_w, img_h) >= 1
    &&& 2 * spec_edge_margin(img_w, img_h) < img_w
    &&& 2 * spec_edge_margin(img_w, img_h) < img_h
}

/// Sample a regular pixel grid over the image, excluding the edge margin:
/// columns first, rows within a column, both starting at the margin and
/// advancing by the stride while inside the far margin.
pub fn conversion_grid(img_w: u32, img_h: u32) -> (r: Vec<(u32, u32)>)
    requires
        1 <= img_w,
        1 <= img_h,
        spec_samplable(img_w, img_h),
    ensures
        ({
            let e = spec_edge_margin(img_w, img_h);
            let s = spec_grid_stride(img_w, img_h);
            let ny = spec_grid_count(img_h - 2 * e, s);
            let nx = spec_grid_count(img_w - 2 * e, s);
            &&& r@.len() == nx * ny
            &&& forall|k: int|
                0 <= k < r@.len() ==> (#[trigger] r@[k]).0 == e + s * (k / ny) && r@[k].1 == e + s
                    * (k % ny)
            &&& forall|k: int|
                0 <= k < r@.len() ==> e <= (#[trigger] r@[k]).0 < img_w - e && e <= r@[k].1 < img_h
                    - e
        }),
{
    let max_dim: u32 = if img_w >= img_h {
        img_w
    } else {
        img_h
    };
    let e: u32 = max_dim / 100;
    let s: u32 = max_dim / 30;
    let nx: usize = (((img_w - 2 * e - 1) / s) + 1) as usize;
    let ny: usize = (((img_h - 2 * e - 1) / s) + 1) as usize;
    let mut r: Vec<(u32, u32)> = Vec::new();
    let mut i: usize = 0;
    while i < nx
        invariant
            0 <= i <= nx,
            e == spec_edge_margin(img_w, img_h),
            s == spec_grid_stride(img_w, img_h),
            s >= 1,
            2 * e < img_w,
            2 * e < img_h,
            nx == spec_grid_count(img_w - 2 * e, s as int),
            ny == spec_grid_count(img_h - 2 * e, s as int),
            r@.len() == i * ny,
            forall|k: int|
                0 <= k < r@.len() ==> (#[trigger] r@[k]).0 == e + s * (k / ny as int) && r@[k].1
                    == e + s * (k % ny as int),
            forall|k: int|
                0 <= k < r@.len() ==> e <= (#[trigger] r@[k]).0 < img_w - e && e <= r@[k].1
                    < img_h - e,
        decreases nx - i,
    {
        proof {
            let w1 = img_w - 2 * e - 1;
            vstd::arithmetic::div_mod::lemma_fundamental_div_mod(w1, s as int);
            vstd::arithmetic::div_mod::lemma_mod_bound(w1, s as int);
            assert(s as int * (w1 / s as int) <= w1);
            // The column coordinate stays inside the far margin.
            assert(s * i <= w1) by (nonlinear_arith)
                requires
                    0 <= i,
                    s >= 1,
                    i <= w1 / s as int,
                    s as int * (w1 / s as int) <= w1,
            ;
        }
        let x: u32 = e + s * (i as u32);
        for j in 0..ny
            invariant
                e == spec_edge_margin(img_w, img_h),
                s == spec_grid_stride(img_w, img_h),
                s >= 1,
                2 * e < img_w,
                2 * e < img_h,
                nx == spec_grid_count(img_w - 2 * e, s as int),
                ny == spec_grid_count(img_h - 2 * e, s as int),
                0 <= i < nx,
                x == e + s * i,
                e <= x < img_w - e,
                r@.len() == i * ny + j,
                forall|k: int|
                    0 <= k < r@.len() ==> (#[trigger] r@[k]).0 == e + s * (k / ny as int)
                        && r@[k].1 == e + s * (k % ny as int),
                forall|k: int|
                    0 <= k < r@.len() ==> e <= (#[trigger] r@[k]).0 < img_w - e && e <= r@[k].1
                        < img_h - e,
        {
            proof {
                let h1 = img_h - 2 * e - 1;
                vstd::arithmetic::div_mod::lemma_fundamental_div_mod(h1, s as int);
                vstd::arithmetic::div_mod::lemma_mod_bound(h1, s as int);
                assert(s as int * (h1 / s as int) <= h1);
                assert(s * j <= h1) by (nonlinear_arith)
                    requires
                        0 <= j,
                        s >= 1,
                        j <= h1 / s as int,
                        s as int * (h1 / s as int) <= h1,
                ;
            }
            let y: u32 = e + s * (j as u32);
            r.push((x, y));
            proof {
                let k = i * ny + j;
                vstd::arithmetic::div_mod::lemma_fundamental_div_mod_converse(
                    k as int,
                    ny as int,
                    i as int,
                    j as int,
                );
            }
        }
        i = i + 1;
        proof {
            assert((i - 1) * ny + ny == i * ny) by (nonlinear_arith);
        }
    }
    proof {
        assert(nx * ny == r@.len());
    }
    r
}

/// Plan a model conversion: fail fast on mismatched image dimensions,
/// otherwise return the target's initial parameter vector — its own
/// distortion parameters behind the source's shared leading parameters —
/// and the sampling grid to unproject through the source model.
pub fn conversion_plan(source: &CameraModel, target: &CameraModel) -> (r: Result<
    (Vec<i64>, Vec<(u32, u32)>),
    CalibError,
>)
    requires
        source.wf(),
        target.wf(),
        spec_samplable(source.img_w, source.img_h),
    ensures
        match r {
            Result::Err(e) => {
                &&& e == CalibError::PreconditionViolation
                &&& (source.img_w != target.img_w || source.img_h != target.img_h)
            },
            Result::Ok((init, grid)) => {
                &&& source.img_w == target.img_w && source.img_h == target.img_h
                &&& init@ == source.params@.take(4) + target.params@.skip(4)
                &&& init@.len() == target.family.spec_param_count()
                &&& ({
                    let e = spec_edge_margin(source.img_w, source.img_h);
                    let s = spec_grid_stride(source.img_w, source.img_h);
                    let ny = spec_grid_count(source.img_h - 2 * e, s);
                    let nx = spec_grid_count(source.img_w - 2 * e, s);
                    &&& grid@.len() == nx * ny
                    &&& forall|k: int|
                        0 <= k < grid@.len() ==> e <= (#[trigger] grid@[k]).0 < source.img_w - e
                            && e <= grid@[k].1 < source.img_h - e
                })
            },
        },
{
    if source.img_w != target.img_w || source.img_h != target.img_h {
        return Err(CalibError::PreconditionViolation);
    }
    let mut init = source.camera_params();
    let tp = target.params();
    let n = tp.len();
    let mut k: usize = 4;
    proof {
        assert(init@ =~= source.params@.take(4) + target.params@.subrange(4, 4));
    }
    while k < n
        invariant
            4 <= k <= n,
            n == target.params@.len(),
            tp@ == target.params@,
            init@ == source.params@.take(4) + target.params@.subrange(4, k as int),
        decreases n - k,
    {
        init.push(tp[k]);
        k = k + 1;
        proof {
            assert(init@ =~= source.params@.take(4) + target.params@.subrange(4, k as int));
        }
    }
    proof {
        assert(target.params@.subrange(4, n as int) =~= target.params@.skip(4));
    }
    let grid = conversion_grid(source.img_w, source.img_h);
    Ok((init, grid))
}

/// Build the conversion problem: the target's full parameter vector as the
/// one variable block, one robust model-conversion residual comparing the
/// two models over the sampled rays, the standard intrinsic bounds, and
/// the trailing disabled distortion scalars pinned to zero.
pub fn build_conversion_problem(
    target: &CameraModel,
    target_init: Vec<i64>,
    ray_count: usize,
    disabled_distortions: usize,
) -> (r: CalibrationProblem)
    requires
        target.wf(),
        target_init@.len() == target.family.spec_param_count(),
        ray_count <= MAX_RAYS,
        disabled_distortions <= target.family.spec_param_count() - 4,
    ensures
        r.wf(),
        r.blocks@.len() == 1,
        r.blocks@[0].id == BlockId::Params,
        r.blocks@[0].init@ == spec_zero_trailing(target_init@, disabled_distortions as int),
        r.residuals@.len() == 1,
        r.residuals@[0].dim == 2 * ray_count,
        r.residuals@[0].robust,
        r.residuals@[0].kind == ResidualKind::ModelConvert,
        r.residuals@[0].refs@ == seq![
            (BlockId::Params, target.family.spec_param_count() as usize),
        ],
        r.bounds@ == spec_param_bounds(*target, false),
        r.fixes@.len() == disabled_distortions,
        forall|i: int|
            0 <= i < disabled_distortions ==> (#[trigger] r.fixes@[i]) == (ScalarFix {
                block: BlockId::Params,
                idx: (target.family.spec_param_count() - 1 - i) as usize,
                value: 0,
            }),
{
    let full_count = target.family.param_count();
    let mut problem = CalibrationProblem::new();
    problem.add_block(BlockId::Params, target_init);
    let mut refs: Vec<(BlockId, usize)> = Vec::new();
    refs.push((BlockId::Params, full_count));
    assert(refs@ =~= seq![(BlockId::Params, full_count)]);
    problem.add_residual(2 * ray_count, refs, ResidualKind::ModelConvert, true);
    set_problem_parameter_bound(&mut problem, target, false);
    set_problem_parameter_disabled(&mut problem, full_count, false, disabled_distortions);
    proof {
        assert(problem.bounds@ =~= spec_param_bounds(*target, false));
        assert(problem.blocks@[0].init@ =~= spec_zero_trailing(
            target_init@,
            disabled_distortions as int,
        ));
        assert forall|i: int| 0 <= i < disabled_distortions implies (#[trigger] problem.fixes@[i])
            == (ScalarFix {
            block: BlockId::Params,
            idx: (target.family.spec_param_count() - 1 - i) as usize,
            value: 0,
        }) by {
            assert(problem.fixes@[0 + i] == (ScalarFix {
                block: BlockId::Params,
                idx: (full_count - 1 - spec_shift(false) - i) as usize,
                value: 0,
            }));
        }
    }
    problem
}

/// Fold a conversion solve back into the target model: replace its
/// parameters in place with the converged vector, the trailing disabled
/// scalars pinned to exactly zero.  `None` — the solver did not converge —
/// becomes the `SolverNonConvergence` failure and leaves the target
/// untouched.
pub fn finalize_conversion(
    target: &mut CameraModel,
    disabled_distortions: usize,
    outcome: Option<&SolverResult>,
) -> (r: Result<(), CalibError>)
    requires
        old(target).wf(),
        disabled_distortions <= old(target).family.spec_param_count() - 4,
        match outcome {
            Some(res) => {
                &&& res.wf()
                &&& spec_has_block(res.blocks@, BlockId::Params)
                &&& spec_block_len(res.blocks@, BlockId::Params) == old(
                    target,
                ).family.spec_param_count()
            },
            None => true,
        },
    ensures
        final(target).family == old(target).family,
        final(target).img_w == old(target).img_w,
        final(target).img_h == old(target).img_h,
        final(target).wf(),
        match r {
            Result::Err(e) => {
                &&& outcome is None
                &&& e == CalibError::SolverNonConvergence
                &&& final(target).params@ == old(target).params@
            },
            Result::Ok(u) => {
                &&& outcome is Some
                &&& final(target).params@ == spec_zero_trailing(
                    spec_block_values(outcome->Some_0.blocks@, BlockId::Params),
                    disabled_distortions as int,
                )
                &&& forall|j: int|
                    old(target).family.spec_param_count() - disabled_distortions <= j < old(
                        target,
                    ).family.spec_param_count() ==> final(target).params@[j] == 0
            },
        },
{
    let res = match outcome {
        Some(res) => res,
        None => {
            return Err(CalibError::SolverNonConvergence);
        },
    };
    let mut p = match res.get_values(BlockId::Params) {
        Some(v) => v,
        None => {
            proof {
                assert(false);
            }
            Vec::new()
        },
    };
    let ghost solved = spec_block_values(res.blocks@, BlockId::Params);
    let full_count = target.family.param_count();
    for k in 0..disabled_distortions
        invariant
            p@.len() == full_count,
            full_count == old(target).family.spec_param_count(),
            disabled_distortions <= full_count - 4,
            solved.len() == full_count,
            forall|j: int|
                0 <= j < full_count ==> p@[j] == (if j >= full_count - k {
                    0i64
                } else {
                    solved[j]
                }),
    {
        p.set(full_count - 1 - k, 0);
    }
    proof {
        assert(p@ =~= spec_zero_trailing(solved, disabled_distortions as int));
    }
    target.set_params(&p);
    Ok(())
}

} // verus!
