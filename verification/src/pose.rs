//! The rigid transform from the target frame to a camera frame: a rotation
//! vector (axis-angle) and a translation vector, three fixed-point scalars
//! each.
use vstd::prelude::*;

verus! {

/// One frame's pose: rotation vector and translation vector.
#[derive(Clone, Debug)]
pub struct RvecTvec {
    pub rvec: Vec<i64>,
    pub tvec: Vec<i64>,
}

impl RvecTvec {
    /// Well-formedness: both vectors have three components.
    pub open spec fn wf(self) -> bool {
        self.rvec@.len() == 3 && self.tvec@.len() == 3
    }

    /// Pack a rotation vector and a translation vector into a pose.
    pub fn new(rvec: Vec<i64>, tvec: Vec<i64>) -> (r: RvecTvec)
        requires
            rvec@.len() == 3,
            tvec@.len() == 3,
        ensures
            r.wf(),
            r.rvec@ == rvec@,
            r.tvec@ == tvec@,
    {
        RvecTvec { rvec, tvec }
    }
}

} // verus!
