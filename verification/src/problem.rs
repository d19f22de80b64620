//! The joint nonlinear least-squares problem the pipeline hands to the
//! solver collaborator: named variable blocks with initial values, residual
//! blocks referencing them, per-scalar bounds and per-scalar fixed-value
//! constraints.  Blocks are addressed by a stable enumerated key, not by
//! strings.  The invariant: every block reference of a residual, and every
//! bound or fix, names a declared block of the matching length.
use vstd::prelude::*;

use crate::SCALE;
use crate::camera::CameraModel;

verus! {

/// The upper bound of a focal-length scalar, in fixed-point pixel units:
/// ten thousand pixels.
pub const FOCAL_BOUND: i64 = 10000 * 65536;

/// A stable identifier for one optimization variable block: the shared
/// intrinsic-parameter block, or one frame's rotation or translation block.
#[derive(Clone, Copy, Debug, PartialEq, Eq, Structural)]
pub enum BlockId {
    Params,
    Rvec(usize),
    Tvec(usize),
}

/// One optimization variable block: its identifier and its initial values.
/// The block's declared length is the length of its initial-value vector.
#[derive(Clone, Debug)]
pub struct VariableBlock {
    pub id: BlockId,
    pub init: Vec<i64>,
}

/// Which residual function a residual block evaluates.  The observation it
/// is built over is named by index, never copied.
#[derive(Clone, Copy, Debug, PartialEq, Eq, Structural)]
pub enum ResidualKind {
    /// Reprojection of one observed correspondence of one frame through the
    /// full model.
    Reprojection { frame: usize, point: usize },
    /// Reprojection of one observed correspondence through the restricted
    /// two-parameter (focal, distortion-shape) seed model.
    UcmInitFocalAlpha { frame: usize, point: usize },
    /// Comparison of two models' projections over a fixed set of sampled
    /// rays.
    ModelConvert,
}

/// One residual block: its output dimension, the blocks it reads (each with
/// the length it expects), its residual function, and whether a robust loss
/// is applied to it.
#[derive(Clone, Debug)]
pub struct ResidualBlock {
    pub dim: usize,
    pub refs: Vec<(BlockId, usize)>,
    pub kind: ResidualKind,
    pub robust: bool,
}

/// A per-scalar range constraint on one entry of one block.
#[derive(Clone, Copy, Debug, PartialEq, Eq, Structural)]
pub struct ScalarBound {
    pub block: BlockId,
    pub idx: usize,
    pub lower: i64,
    pub upper: i64,
}

/// A per-scalar fixed-value constraint on one entry of one block: the
/// scalar enters the solve at exactly `value` and is excluded from
/// optimization.
#[derive(Clone, Copy, Debug, PartialEq, Eq, Structural)]
pub struct ScalarFix {
    pub block: BlockId,
    pub idx: usize,
    pub value: i64,
}

/// Some declared block carries this identifier.
pub open spec fn spec_has_block(blocks: Seq<VariableBlock>, id: BlockId) -> bool {
    exists|k: int| 0 <= k < blocks.len() && (#[trigger] blocks[k]).id == id
}

/// The declared length of the block carrying this identifier.
pub open spec fn spec_block_len(blocks: Seq<VariableBlock>, id: BlockId) -> int
    recommends
        spec_has_block(blocks, id),
{
    blocks[choose|k: int| 0 <= k < blocks.len() && (#[trigger] blocks[k]).id == id].init@.len() as int
}

/// One joint optimization problem, ready to hand to the solver
/// collaborator.
#[derive(Clone, Debug)]
pub struct CalibrationProblem {
    pub blocks: Vec<VariableBlock>,
    pub residuals: Vec<ResidualBlock>,
    pub bounds: Vec<ScalarBound>,
    pub fixes: Vec<ScalarFix>,
}

impl CalibrationProblem {
    /// Well-formedness: block identifiers are unique, and every residual
    /// reference, bound and fix names a declared block of the matching
    /// length.
    pub open spec fn wf(self) -> bool {
        &&& forall|k1: int, k2: int|
            0 <= k1 < k2 < self.blocks@.len() ==> (#[trigger] self.blocks@[k1]).id != (
            #[trigger] self.blocks@[k2]).id
        &&& forall|r: int, j: int|
            0 <= r < self.residuals@.len() && 0 <= j < (
            #[trigger] self.residuals@[r]).refs@.len() ==> spec_has_block(
                self.blocks@,
                (#[trigger] self.residuals@[r].refs@[j]).0,
            ) && spec_block_len(self.blocks@, self.residuals@[r].refs@[j].0)
                == self.residuals@[r].refs@[j].1
        &&& forall|b: int|
            0 <= b < self.bounds@.len() ==> spec_has_block(
                self.blocks@,
                (#[trigger] self.bounds@[b]).block,
            ) && self.bounds@[b].idx < spec_block_len(self.blocks@, self.bounds@[b].block)
                && self.bounds@[b].lower <= self.bounds@[b].upper
        &&& forall|f: int|
            0 <= f < self.fixes@.len() ==> spec_has_block(
                self.blocks@,
                (#[trigger] self.fixes@[f]).block,
            ) && self.fixes@[f].idx < spec_block_len(self.blocks@, self.fixes@[f].block)
    }

    /// An empty problem.
    pub fn new() -> (r: CalibrationProblem)
        ensures
            r.wf(),
            r.blocks@.len() == 0,
            r.residuals@.len() == 0,
            r.bounds@.len() == 0,
            r.fixes@.len() == 0,
    {
        CalibrationProblem {
            blocks: Vec::new(),
            residuals: Vec::new(),
            bounds: Vec::new(),
            fixes: Vec::new(),
        }
    }

    /// The position of the block carrying this identifier, if declared.
    pub fn find_block(&self, id: BlockId) -> (r: Option<usize>)
        ensures
            match r {
                Some(k) => k < self.blocks@.len() && self.blocks@[k as int].id == id,
                None => !spec_has_block(self.blocks@, id),
            },
    {
        let n = self.blocks.len();
        for k in 0..n
            invariant
                n == self.blocks@.len(),
                forall|j: int| 0 <= j < k ==> (#[trigger] self.blocks@[j]).id != id,
        {
            if self.blocks[k].id == id {
                return Some(k);
            }
        }
        None
    }

    /// Whether a block carrying this identifier is declared.
    pub fn has_block(&self, id: BlockId) -> (r: bool)
        ensures
            r == spec_has_block(self.blocks@, id),
    {
        self.find_block(id).is_some()
    }

    /// Declare a new variable block with its initial values.
    pub fn add_block(&mut self, id: BlockId, init: Vec<i64>)
        requires
            old(self).wf(),
            !spec_has_block(old(self).blocks@, id),
        ensures
            final(self).wf(),
            final(self).blocks@ == old(self).blocks@.push(VariableBlock { id, init }),
            final(self).residuals@ == old(self).residuals@,
            final(self).bounds@ == old(self).bounds@,
            final(self).fixes@ == old(self).fixes@,
            spec_has_block(final(self).blocks@, id),
            spec_block_len(final(self).blocks@, id) == init@.len(),
            forall|id2: BlockId|
                spec_has_block(old(self).blocks@, id2) ==> spec_has_block(
                    final(self).blocks@,
                    id2,
                ) && spec_block_len(final(self).blocks@, id2) == spec_block_len(
                    old(self).blocks@,
                    id2,
                ),
            forall|id2: BlockId|
                id2 != id ==> #[trigger] spec_has_block(final(self).blocks@, id2)
                    == spec_has_block(old(self).blocks@, id2),
    {
        let ghost old_blocks = self.blocks@;
        self.blocks.push(VariableBlock { id, init });
        proof {
            let new_blocks = self.blocks@;
            assert(new_blocks[new_blocks.len() - 1].id == id);
            assert forall|id2: BlockId| spec_has_block(old_blocks, id2) implies spec_has_block(
                new_blocks,
                id2,
            ) && spec_block_len(new_blocks, id2) == spec_block_len(old_blocks, id2) by {
                let k = choose|k: int| 0 <= k < old_blocks.len() && (#[trigger] old_blocks[k]).id
                    == id2;
                assert(new_blocks[k].id == id2);
                lemma_block_len_unique(new_blocks, id2, k);
                lemma_block_len_unique(old_blocks, id2, k);
            }
            assert forall|id2: BlockId|
                spec_has_block(new_blocks, id2) && id2 != id implies spec_has_block(
                old_blocks,
                id2,
            ) by {
                let k = choose|k: int| 0 <= k < new_blocks.len() && (#[trigger] new_blocks[k]).id
                    == id2;
                assert(old_blocks[k].id == id2);
            }
            lemma_block_len_unique(new_blocks, id, new_blocks.len() - 1);
        }
    }

    /// Add a residual block over already-declared variable blocks.
    pub fn add_residual(
        &mut self,
        dim: usize,
        refs: Vec<(BlockId, usize)>,
        kind: ResidualKind,
        robust: bool,
    )
        requires
            old(self).wf(),
            forall|j: int|
                0 <= j < refs@.len() ==> spec_has_block(old(self).blocks@, (#[trigger] refs@[j]).0)
                    && spec_block_len(old(self).blocks@, refs@[j].0) == refs@[j].1,
        ensures
            final(self).wf(),
            final(self).blocks@ == old(self).blocks@,
            final(self).residuals@ == old(self).residuals@.push(
                ResidualBlock { dim, refs, kind, robust },
            ),
            final(self).bounds@ == old(self).bounds@,
            final(self).fixes@ == old(self).fixes@,
    {
        self.residuals.push(ResidualBlock { dim, refs, kind, robust });
    }

    /// Constrain one scalar of a declared block to a non-empty range.
    pub fn set_bound(&mut self, block: BlockId, idx: usize, lower: i64, upper: i64)
        requires
            old(self).wf(),
            spec_has_block(old(self).blocks@, block),
            idx < spec_block_len(old(self).blocks@, block),
            lower <= upper,
        ensures
            final(self).wf(),
            final(self).blocks@ == old(self).blocks@,
            final(self).residuals@ == old(self).residuals@,
            final(self).bounds@ == old(self).bounds@.push(
                ScalarBound { block, idx, lower, upper },
            ),
            final(self).fixes@ == old(self).fixes@,
    {
        self.bounds.push(ScalarBound { block, idx, lower, upper });
    }

    /// Pin one scalar of a declared block to a fixed value: record the
    /// constraint and write the value into the block's initial values.
    pub fn fix_scalar(&mut self, block: BlockId, idx: usize, value: i64)
        requires
            old(self).wf(),
            spec_has_block(old(self).blocks@, block),
            idx < spec_block_len(old(self).blocks@, block),
        ensures
            final(self).wf(),
            final(self).blocks@.len() == old(self).blocks@.len(),
            forall|k: int|
                0 <= k < old(self).blocks@.len() ==> (#[trigger] final(self).blocks@[k]).id == old(
                    self,
                ).blocks@[k].id,
            forall|k: int|
                0 <= k < old(self).blocks@.len() && old(self).blocks@[k].id != block ==> (
                #[trigger] final(self).blocks@[k]).init@ == old(self).blocks@[k].init@,
            forall|k: int|
                0 <= k < old(self).blocks@.len() && old(self).blocks@[k].id == block ==> (
                #[trigger] final(self).blocks@[k]).init@ == old(self).blocks@[k].init@.update(
                    idx as int,
                    value,
                ),
            final(self).residuals@ == old(self).residuals@,
            final(self).bounds@ == old(self).bounds@,
            final(self).fixes@ == old(self).fixes@.push(ScalarFix { block, idx, value }),
    {
        let bi = match self.find_block(block) {
            Some(bi) => bi,
            None => {
                proof {
                    assert(false);
                }
                0
            },
        };
        proof {
            lemma_block_len_unique(self.blocks@, block, bi as int);
        }
        let mut init = self.blocks[bi].init.clone();
        init.set(idx, value);
        let blk = VariableBlock { id: block, init };
        self.blocks.set(bi, blk);
        self.fixes.push(ScalarFix { block, idx, value });
        proof {
            let old_blocks = old(self).blocks@;
            let new_blocks = self.blocks@;
            assert forall|k: int|
                0 <= k < old_blocks.len() && old_blocks[k].id == block implies (
            #[trigger] new_blocks[k]).init@ == old_blocks[k].init@.update(
                idx as int,
                value,
            ) by {
                if k != bi {
                    assert(old_blocks[k].id == old_blocks[bi as int].id);
                    assert(false);
                }
            }
            assert forall|id2: BlockId| spec_has_block(new_blocks, id2) implies spec_has_block(
                old_blocks,
                id2,
            ) && spec_block_len(new_blocks, id2) == spec_block_len(old_blocks, id2) by {
                let k = choose|k: int| 0 <= k < new_blocks.len() && (#[trigger] new_blocks[k]).id
                    == id2;
                assert(old_blocks[k].id == id2);
                lemma_block_len_unique(new_blocks, id2, k);
                lemma_block_len_unique(old_blocks, id2, k);
            }
            assert forall|id2: BlockId| spec_has_block(old_blocks, id2) implies spec_has_block(
                new_blocks,
                id2,
            ) by {
                let k = choose|k: int| 0 <= k < old_blocks.len() && (#[trigger] old_blocks[k]).id
                    == id2;
                assert(new_blocks[k].id == id2);
            }
        }
    }
}

/// The values of the block carrying this identifier.
pub open spec fn spec_block_values(blocks: Seq<VariableBlock>, id: BlockId) -> Seq<i64>
    recommends
        spec_has_block(blocks, id),
{
    blocks[choose|k: int| 0 <= k < blocks.len() && (#[trigger] blocks[k]).id == id].init@
}

/// What the solver collaborator hands back when it converges: one value
/// vector per variable block, carried in the same block representation the
/// problem uses.
#[derive(Clone, Debug)]
pub struct SolverResult {
    pub blocks: Vec<VariableBlock>,
}

impl SolverResult {
    /// Well-formedness: block identifiers are unique.
    pub open spec fn wf(self) -> bool {
        forall|k1: int, k2: int|
            0 <= k1 < k2 < self.blocks@.len() ==> (#[trigger] self.blocks@[k1]).id != (
            #[trigger] self.blocks@[k2]).id
    }

    /// The result vector of one block, if the solver reported it.
    pub fn get_values(&self, id: BlockId) -> (r: Option<Vec<i64>>)
        requires
            self.wf(),
        ensures
            match r {
                Some(v) => spec_has_block(self.blocks@, id) && v@ == spec_block_values(
                    self.blocks@,
                    id,
                ),
                None => !spec_has_block(self.blocks@, id),
            },
    {
        let n = self.blocks.len();
        for k in 0..n
            invariant
                n == self.blocks@.len(),
                self.wf(),
                forall|j: int| 0 <= j < k ==> (#[trigger] self.blocks@[j]).id != id,
        {
            if self.blocks[k].id == id {
                proof {
                    lemma_block_len_unique(self.blocks@, id, k as int);
                }
                return Some(self.blocks[k].init.clone());
            }
        }
        None
    }

    /// Overwrite one scalar of one reported block.
    pub fn set_scalar(&mut self, id: BlockId, idx: usize, value: i64)
        requires
            old(self).wf(),
            spec_has_block(old(self).blocks@, id),
            idx < spec_block_len(old(self).blocks@, id),
        ensures
            final(self).wf(),
            final(self).blocks@.len() == old(self).blocks@.len(),
            forall|k: int|
                0 <= k < old(self).blocks@.len() ==> (#[trigger] final(self).blocks@[k]).id == old(
                    self,
                ).blocks@[k].id,
            forall|k: int|
                0 <= k < old(self).blocks@.len() && old(self).blocks@[k].id != id ==> (
                #[trigger] final(self).blocks@[k]).init@ == old(self).blocks@[k].init@,
            forall|k: int|
                0 <= k < old(self).blocks@.len() && old(self).blocks@[k].id == id ==> (
                #[trigger] final(self).blocks@[k]).init@ == old(self).blocks@[k].init@.update(
                    idx as int,
                    value,
                ),
            spec_block_values(final(self).blocks@, id) == spec_block_values(
                old(self).blocks@,
                id,
            ).update(idx as int, value),
    {
        let n = self.blocks.len();
        let mut bi: usize = 0;
        let mut found = false;
        for k in 0..n
            invariant
                n == self.blocks@.len(),
                found ==> bi < n && self.blocks@[bi as int].id == id,
                !found ==> forall|j: int| 0 <= j < k ==> (#[trigger] self.blocks@[j]).id != id,
        {
            if !found && self.blocks[k].id == id {
                bi = k;
                found = true;
            }
        }
        proof {
            if !found {
                assert(false);
            }
        }
        proof {
            lemma_block_len_unique(self.blocks@, id, bi as int);
        }
        let mut init = self.blocks[bi].init.clone();
        init.set(idx, value);
        let blk = VariableBlock { id, init };
        self.blocks.set(bi, blk);
        proof {
            let old_blocks = old(self).blocks@;
            let new_blocks = self.blocks@;
            assert forall|k: int|
                0 <= k < old_blocks.len() && old_blocks[k].id == id implies (
            #[trigger] new_blocks[k]).init@ == old_blocks[k].init@.update(idx as int, value) by {
                if k != bi {
                    assert(old_blocks[k].id == old_blocks[bi as int].id);
                    assert(false);
                }
            }
            let kc = choose|k: int| 0 <= k < new_blocks.len() && (#[trigger] new_blocks[k]).id
                == id;
            lemma_block_len_unique(new_blocks, id, bi as int);
            assert(spec_block_values(new_blocks, id) == new_blocks[kc].init@);
            if kc != bi {
                assert(old_blocks[kc].id == old_blocks[bi as int].id);
                assert(false);
            }
            let ko = choose|k: int| 0 <= k < old_blocks.len() && (#[trigger] old_blocks[k]).id
                == id;
            if ko != bi {
                assert(old_blocks[ko].id == old_blocks[bi as int].id);
                assert(false);
            }
        }
    }
}

/// With unique identifiers, any block found at a position carrying `id`
/// gives the declared length of `id`.
pub proof fn lemma_block_len_unique(blocks: Seq<VariableBlock>, id: BlockId, k: int)
    requires
        forall|k1: int, k2: int|
            0 <= k1 < k2 < blocks.len() ==> (#[trigger] blocks[k1]).id != (
            #[trigger] blocks[k2]).id,
        0 <= k < blocks.len(),
        blocks[k].id == id,
    ensures
        spec_has_block(blocks, id),
        spec_block_len(blocks, id) == blocks[k].init@.len(),
{
    let k2 = choose|k2: int| 0 <= k2 < blocks.len() && (#[trigger] blocks[k2]).id == id;
    if k2 != k {
        if k2 < k {
            assert(blocks[k2].id != blocks[k].id);
        } else {
            assert(blocks[k].id != blocks[k2].id);
        }
        assert(false);
    }
}

/// The shift that removing the second focal scalar applies to every
/// parameter index at or above it.
pub open spec fn spec_shift(xy_same_focal: bool) -> int {
    if xy_same_focal {
        1
    } else {
        0
    }
}

/// The bounds the refiner attaches to the intrinsic-parameter block: focal
/// terms in `[0, FOCAL_BOUND]`, principal point within the image, and each
/// distortion parameter in its family's declared range, all at indices
/// shifted down by one when the second focal scalar was removed.
pub open spec fn spec_param_bounds(camera: CameraModel, xy_same_focal: bool) -> Seq<ScalarBound> {
    let sh = spec_shift(xy_same_focal);
    seq![
        ScalarBound { block: BlockId::Params, idx: 0, lower: 0, upper: FOCAL_BOUND },
        ScalarBound { block: BlockId::Params, idx: (1 - sh) as usize, lower: 0, upper: FOCAL_BOUND },
        ScalarBound {
            block: BlockId::Params,
            idx: (2 - sh) as usize,
            lower: 0,
            upper: (camera.img_w * SCALE) as i64,
        },
        ScalarBound {
            block: BlockId::Params,
            idx: (3 - sh) as usize,
            lower: 0,
            upper: (camera.img_h * SCALE) as i64,
        },
    ] + camera.family.spec_distortion_bounds().map_values(
        |b: (usize, i64, i64)|
            ScalarBound { block: BlockId::Params, idx: (b.0 - sh) as usize, lower: b.1, upper: b.2 },
    )
}

/// Attach the refiner's bounds to the intrinsic-parameter block: focal
/// terms, principal point, and the family's declared distortion ranges.
pub fn set_problem_parameter_bound(
    problem: &mut CalibrationProblem,
    camera: &CameraModel,
    xy_same_focal: bool,
)
    requires
        old(problem).wf(),
        camera.wf(),
        spec_has_block(old(problem).blocks@, BlockId::Params),
        spec_block_len(old(problem).blocks@, BlockId::Params)
            == camera.family.spec_param_count() - spec_shift(xy_same_focal),
    ensures
        final(problem).wf(),
        final(problem).blocks@ == old(problem).blocks@,
        final(problem).residuals@ == old(problem).residuals@,
        final(problem).fixes@ == old(problem).fixes@,
        final(problem).bounds@ == old(problem).bounds@ + spec_param_bounds(*camera, xy_same_focal),
{
    let shift: usize = if xy_same_focal {
        1
    } else {
        0
    };
    let ghost added = spec_param_bounds(*camera, xy_same_focal);
    problem.set_bound(BlockId::Params, 0, 0, FOCAL_BOUND);
    problem.set_bound(BlockId::Params, 1 - shift, 0, FOCAL_BOUND);
    problem.set_bound(BlockId::Params, 2 - shift, 0, camera.width_fixed());
    problem.set_bound(BlockId::Params, 3 - shift, 0, camera.height_fixed());
    let dist = camera.family.distortion_params_bound();
    let nd = dist.len();
    for k in 0..nd
        invariant
            nd == dist@.len(),
            dist@ == camera.family.spec_distortion_bounds(),
            forall|j: int|
                0 <= j < dist@.len() ==> 4 <= (#[trigger] dist@[j]).0
                    < camera.family.spec_param_count() && dist@[j].1 <= dist@[j].2,
            camera.wf(),
            shift == spec_shift(xy_same_focal),
            shift <= 1,
            added == spec_param_bounds(*camera, xy_same_focal),
            problem.wf(),
            problem.blocks@ == old(problem).blocks@,
            problem.residuals@ == old(problem).residuals@,
            problem.fixes@ == old(problem).fixes@,
            spec_has_block(problem.blocks@, BlockId::Params),
            spec_block_len(problem.blocks@, BlockId::Params) == camera.family.spec_param_count()
                - shift,
            problem.bounds@ == old(problem).bounds@ + added.take(4 + k),
    {
        let (idx, lower, upper) = dist[k];
        problem.set_bound(BlockId::Params, idx - shift, lower, upper);
        proof {
            let sh = spec_shift(xy_same_focal);
            assert(added.len() == 4 + camera.family.spec_distortion_bounds().len());
            assert(added[4 + k] == ScalarBound {
                block: BlockId::Params,
                idx: (dist@[k as int].0 - sh) as usize,
                lower: dist@[k as int].1,
                upper: dist@[k as int].2,
            });
            assert(added.take(4 + k + 1) =~= added.take(4 + k).push(added[4 + k]));
            assert(problem.bounds@ =~= old(problem).bounds@ + added.take(4 + k + 1));
        }
    }
    proof {
        assert(added.take(4 + nd) =~= added);
    }
}

/// Disable the trailing distortion parameters: pin the last
/// `disabled_distortions` scalars of the intrinsic-parameter block to
/// exactly zero, counted from the last parameter backward.
pub fn set_problem_parameter_disabled(
    problem: &mut CalibrationProblem,
    full_param_count: usize,
    xy_same_focal: bool,
    disabled_distortions: usize,
)
    requires
        old(problem).wf(),
        spec_has_block(old(problem).blocks@, BlockId::Params),
        spec_block_len(old(problem).blocks@, BlockId::Params) == full_param_count - spec_shift(
            xy_same_focal,
        ),
        5 <= full_param_count,
        spec_shift(xy_same_focal) <= full_param_count,
        disabled_distortions <= full_param_count - 4,
    ensures
        final(problem).wf(),
        final(problem).blocks@.len() == old(problem).blocks@.len(),
        final(problem).residuals@ == old(problem).residuals@,
        final(problem).bounds@ == old(problem).bounds@,
        forall|k: int|
            0 <= k < old(problem).blocks@.len() ==> (#[trigger] final(problem).blocks@[k]).id
                == old(problem).blocks@[k].id && final(problem).blocks@[k].init@.len() == old(
                problem,
            ).blocks@[k].init@.len(),
        forall|k: int|
            0 <= k < old(problem).blocks@.len() && old(problem).blocks@[k].id != BlockId::Params
                ==> (#[trigger] final(problem).blocks@[k]).init@ == old(problem).blocks@[k].init@,
        // The pinned block: the trailing disabled scalars are exactly zero,
        // everything before them is untouched.
        forall|k: int, j: int|
            0 <= k < old(problem).blocks@.len() && old(problem).blocks@[k].id == BlockId::Params
                && 0 <= j < old(problem).blocks@[k].init@.len() ==> (
            #[trigger] final(problem).blocks@[k].init@[j]) == (if j >= full_param_count - spec_shift(
                xy_same_focal,
            ) - disabled_distortions {
                0
            } else {
                old(problem).blocks@[k].init@[j]
            }),
        final(problem).fixes@.len() == old(problem).fixes@.len() + disabled_distortions,
        forall|i: int|
            0 <= i < disabled_distortions ==> (#[trigger] final(problem).fixes@[old(
                problem,
            ).fixes@.len() + i]) == (ScalarFix {
                block: BlockId::Params,
                idx: (full_param_count - 1 - spec_shift(xy_same_focal) - i) as usize,
                value: 0,
            }),
        forall|i: int|
            0 <= i < old(problem).fixes@.len() ==> (#[trigger] final(problem).fixes@[i]) == old(
                problem,
            ).fixes@[i],
{
    let shift: usize = if xy_same_focal {
        1
    } else {
        0
    };
    for i in 0..disabled_distortions
        invariant
            problem.wf(),
            shift == spec_shift(xy_same_focal),
            5 <= full_param_count,
            shift + disabled_distortions <= full_param_count,
            disabled_distortions <= full_param_count - 4,
            spec_has_block(problem.blocks@, BlockId::Params),
            spec_block_len(problem.blocks@, BlockId::Params) == full_param_count - shift,
            problem.blocks@.len() == old(problem).blocks@.len(),
            problem.residuals@ == old(problem).residuals@,
            problem.bounds@ == old(problem).bounds@,
            forall|k: int|
                0 <= k < old(problem).blocks@.len() ==> (#[trigger] problem.blocks@[k]).id == old(
                    problem,
                ).blocks@[k].id && problem.blocks@[k].init@.len() == old(
                    problem,
                ).blocks@[k].init@.len(),
            forall|k: int|
                0 <= k < old(problem).blocks@.len() && old(problem).blocks@[k].id
                    != BlockId::Params ==> (#[trigger] problem.blocks@[k]).init@ == old(
                    problem,
                ).blocks@[k].init@,
            forall|k: int, j: int|
                0 <= k < old(problem).blocks@.len() && old(problem).blocks@[k].id
                    == BlockId::Params && 0 <= j < old(problem).blocks@[k].init@.len() ==> (
                #[trigger] problem.blocks@[k].init@[j]) == (if j >= full_param_count - shift - i {
                    0
                } else {
                    old(problem).blocks@[k].init@[j]
                }),
            problem.fixes@.len() == old(problem).fixes@.len() + i,
            forall|i2: int|
                0 <= i2 < i ==> (#[trigger] problem.fixes@[old(problem).fixes@.len() + i2])
                    == (ScalarFix {
                    block: BlockId::Params,
                    idx: (full_param_count - 1 - shift - i2) as usize,
                    value: 0,
                }),
            forall|i2: int|
                0 <= i2 < old(problem).fixes@.len() ==> (#[trigger] problem.fixes@[i2]) == old(
                    problem,
                ).fixes@[i2],
    {
        let idx = full_param_count - 1 - shift - i;
        let ghost pre = problem.blocks@;
        problem.fix_scalar(BlockId::Params, idx, 0);
        proof {
            let k = choose|k: int| 0 <= k < pre.len() && (#[trigger] pre[k]).id == BlockId::Params;
            assert(problem.blocks@[k].id == BlockId::Params);
            assert(problem.blocks@[k].init@ == pre[k].init@.update(idx as int, 0i64));
            lemma_block_len_unique(problem.blocks@, BlockId::Params, k);
            let orig = old(problem).blocks@;
            assert forall|k2: int, j: int|
                0 <= k2 < orig.len() && orig[k2].id == BlockId::Params && 0 <= j < orig[
                    k2].init@.len() implies (#[trigger] problem.blocks@[k2].init@[j]) == (if j
                >= full_param_count - shift - (i + 1) {
                0
            } else {
                orig[k2].init@[j]
            }) by {
                assert(pre[k2].id == BlockId::Params);
                assert(problem.blocks@[k2].init@ == pre[k2].init@.update(idx as int, 0i64));
                assert(pre[k2].init@[j] == (if j >= full_param_count - shift - i {
                    0
                } else {
                    orig[k2].init@[j]
                }));
            }
        }
    }
}

} // verus!
