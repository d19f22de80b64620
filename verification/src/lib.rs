//! Core of a camera-calibration pipeline: residual-problem assembly, frame
//! selection, staged initialization bookkeeping, model conversion planning and
//! accuracy validation, verified over a fixed-point scalar model.
//!
//! Scalar values throughout this library are fixed-point numbers: an `i64`
//! counts units of 1/65536 (`SCALE`) of the underlying quantity (a pixel, a
//! unit of target-board length, a radian).  The projection, homography,
//! absolute-pose and nonlinear-solver collaborators work outside this crate
//! on machine reals; this crate owns every decision made around them: which
//! frames seed the run, how the joint problem is laid out, which scalars are
//! bounded, pinned or removed, and how results are folded back together.
use vstd::prelude::*;

pub mod error;
pub mod features;
pub mod select;
pub mod camera;
pub mod pose;
pub mod problem;
pub mod refine;
pub mod seed;
pub mod convert;
pub mod validate;

verus! {

/// Number of fixed-point units in one whole (one pixel, one radian, ...).
pub const SCALE: i64 = 65536;

/// Largest magnitude a pixel-coordinate scalar may take, in fixed-point
/// units: 8192 pixels.  Keeping coordinates within this limit lets every
/// bounding-box, centroid and squared-distance computation stay inside `i64`.
pub const COORD_LIMIT: i64 = 0x2000_0000;

/// Largest number of feature points one frame may carry.
pub const MAX_POINTS: usize = 0x10_0000;

/// Largest number of frames one calibration run may carry.
pub const MAX_FRAMES: usize = 0x10_0000;

/// Largest image width or height, in pixels, that a camera model may be
/// sized to.  `MAX_IMG * SCALE` still fits comfortably below `COORD_LIMIT`.
pub const MAX_IMG: u32 = 8192;

} // verus!
