//! Failure taxonomy of the calibration pipeline.
use vstd::prelude::*;

verus! {

/// How a pipeline stage can fail.
///
/// - `InitializationFailure`: the homography-derived focal length could not
///   be extracted, or the two-parameter seed did not produce a usable model.
///   The caller may retry with a different frame pair.
/// - `SolverNonConvergence`: the nonlinear-solver collaborator reported no
///   solution for a joint refinement or a model conversion.
/// - `PreconditionViolation`: the caller broke a contract that has a checked
///   entry point, such as converting between models sized to different
///   image dimensions.
#[derive(Clone, Copy, Debug, PartialEq, Eq, Structural)]
pub enum CalibError {
    InitializationFailure,
    SolverNonConvergence,
    PreconditionViolation,
}

} // verus!
