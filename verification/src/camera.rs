//! The camera-model abstraction the pipeline refines: a closed set of
//! intrinsic-model families, each identified by a tag and a fixed-length
//! parameter vector.  The first four parameters of every family are the
//! shared leading parameters: two focal terms and the principal point.  The
//! remaining parameters are the family's distortion shape terms, each with a
//! declared valid range.  The families' closed-form projection formulas
//! belong to the projection collaborator outside this crate; this crate owns
//! the parameter bookkeeping.
use vstd::prelude::*;

use crate::{SCALE, MAX_IMG};

verus! {

/// The tangential-distortion bound of the five-parameter OpenCV-style
/// family, in fixed-point units: the nearest representable value to
/// one-thousandth.
pub const TANGENTIAL_BOUND: i64 = 66;

/// The closed set of intrinsic-model families.
#[derive(Clone, Copy, Debug, PartialEq, Eq, Structural)]
pub enum ModelFamily {
    Ucm,
    Eucm,
    Eucmt,
    KannalaBrandt4,
    OpenCvModel5,
    Ftheta,
    FovCamera,
}

impl ModelFamily {
    /// The length of the family's parameter vector.
    pub open spec fn spec_param_count(self) -> nat {
        match self {
            ModelFamily::Ucm => 5,
            ModelFamily::Eucm => 6,
            ModelFamily::Eucmt => 8,
            ModelFamily::KannalaBrandt4 => 8,
            ModelFamily::OpenCvModel5 => 9,
            ModelFamily::Ftheta => 9,
            ModelFamily::FovCamera => 5,
        }
    }

    /// The length of the family's parameter vector.
    pub fn param_count(&self) -> (n: usize)
        ensures
            n == self.spec_param_count(),
            5 <= n <= 9,
    {
        match self {
            ModelFamily::Ucm => 5,
            ModelFamily::Eucm => 6,
            ModelFamily::Eucmt => 8,
            ModelFamily::KannalaBrandt4 => 8,
            ModelFamily::OpenCvModel5 => 9,
            ModelFamily::Ftheta => 9,
            ModelFamily::FovCamera => 5,
        }
    }

    /// The declared valid range of each distortion parameter, as
    /// `(index, lower, upper)` in fixed-point units, mirroring the ranges
    /// the projection collaborator declares for each family.
    pub open spec fn spec_distortion_bounds(self) -> Seq<(usize, i64, i64)> {
        let neg_one = -SCALE as i64;
        let neg_hundred = (-100 * SCALE) as i64;
        let neg_tang = -TANGENTIAL_BOUND as i64;
        match self {
            ModelFamily::Ucm => seq![(4usize, 0i64, SCALE as i64)],
            ModelFamily::Eucm => seq![(4usize, 0i64, SCALE as i64), (5usize, 0i64, (100 * SCALE) as i64)],
            ModelFamily::Eucmt => seq![
                (4usize, 0i64, SCALE as i64),
                (5usize, 0i64, (100 * SCALE) as i64),
                (6usize, neg_hundred, (100 * SCALE) as i64),
                (7usize, neg_hundred, (100 * SCALE) as i64),
            ],
            ModelFamily::KannalaBrandt4 => seq![
                (4usize, neg_one, SCALE as i64),
                (5usize, neg_one, SCALE as i64),
                (6usize, neg_one, SCALE as i64),
                (7usize, neg_one, SCALE as i64),
            ],
            ModelFamily::OpenCvModel5 => seq![
                (4usize, neg_one, SCALE as i64),
                (5usize, neg_one, SCALE as i64),
                (6usize, neg_tang, TANGENTIAL_BOUND as i64),
                (7usize, neg_tang, TANGENTIAL_BOUND as i64),
                (8usize, neg_one, SCALE as i64),
            ],
            ModelFamily::Ftheta => seq![
                (4usize, neg_one, SCALE as i64),
                (5usize, neg_one, SCALE as i64),
                (6usize, neg_one, SCALE as i64),
                (7usize, neg_one, SCALE as i64),
                (8usize, neg_one, SCALE as i64),
            ],
            ModelFamily::FovCamera => seq![(4usize, 1i64, (3 * SCALE) as i64)],
        }
    }

    /// The declared valid range of each distortion parameter.  Every listed
    /// index names a distortion slot of this family, and every range is
    /// non-empty.
    pub fn distortion_params_bound(&self) -> (r: Vec<(usize, i64, i64)>)
        ensures
            r@ == self.spec_distortion_bounds(),
            forall|k: int|
                0 <= k < r@.len() ==> 4 <= (#[trigger] r@[k]).0 < self.spec_param_count()
                    && r@[k].1 <= r@[k].2,
    {
        let neg_one: i64 = -SCALE;
        let neg_hundred: i64 = -100 * SCALE;
        let neg_tang: i64 = -TANGENTIAL_BOUND;
        let r: Vec<(usize, i64, i64)> = match self {
            ModelFamily::Ucm => vec![(4usize, 0i64, SCALE)],
            ModelFamily::Eucm => vec![(4usize, 0i64, SCALE), (5usize, 0i64, 100 * SCALE)],
            ModelFamily::Eucmt => vec![
                (4usize, 0i64, SCALE),
                (5usize, 0i64, 100 * SCALE),
                (6usize, neg_hundred, 100 * SCALE),
                (7usize, neg_hundred, 100 * SCALE),
            ],
            ModelFamily::KannalaBrandt4 => vec![
                (4usize, neg_one, SCALE),
                (5usize, neg_one, SCALE),
                (6usize, neg_one, SCALE),
                (7usize, neg_one, SCALE),
            ],
            ModelFamily::OpenCvModel5 => vec![
                (4usize, neg_one, SCALE),
                (5usize, neg_one, SCALE),
                (6usize, neg_tang, TANGENTIAL_BOUND),
                (7usize, neg_tang, TANGENTIAL_BOUND),
                (8usize, neg_one, SCALE),
            ],
            ModelFamily::Ftheta => vec![
                (4usize, neg_one, SCALE),
                (5usize, neg_one, SCALE),
                (6usize, neg_one, SCALE),
                (7usize, neg_one, SCALE),
                (8usize, neg_one, SCALE),
            ],
            ModelFamily::FovCamera => vec![(4usize, 1i64, 3 * SCALE)],
        };
        proof {
            assert(r@ =~= self.spec_distortion_bounds());
        }
        r
    }
}

/// A camera model: a family tag, that family's parameter vector in
/// fixed-point units, and the image dimensions the model is sized to.
/// Mutated only by assigning a full new parameter vector.
#[derive(Clone, Debug)]
pub struct CameraModel {
    pub family: ModelFamily,
    pub params: Vec<i64>,
    pub img_w: u32,
    pub img_h: u32,
}

impl CameraModel {
    /// Well-formedness: the parameter vector has the family's length and
    /// the image dimensions are within the supported limits.
    pub open spec fn wf(self) -> bool {
        &&& self.params@.len() == self.family.spec_param_count()
        &&& 1 <= self.img_w <= MAX_IMG
        &&& 1 <= self.img_h <= MAX_IMG
    }

    /// Construct a model from a family tag, its full parameter vector and
    /// the image dimensions.
    pub fn new(family: ModelFamily, params: Vec<i64>, img_w: u32, img_h: u32) -> (r: CameraModel)
        requires
            params@.len() == family.spec_param_count(),
            1 <= img_w <= MAX_IMG,
            1 <= img_h <= MAX_IMG,
        ensures
            r.wf(),
            r.family == family,
            r.params@ == params@,
            r.img_w == img_w,
            r.img_h == img_h,
    {
        CameraModel { family, params, img_w, img_h }
    }

    /// The full parameter vector.
    pub fn params(&self) -> (r: Vec<i64>)
        ensures
            r@ == self.params@,
    {
        self.params.clone()
    }

    /// Replace the full parameter vector; the family and image dimensions
    /// are untouched.
    pub fn set_params(&mut self, params: &Vec<i64>)
        requires
            params@.len() == old(self).family.spec_param_count(),
        ensures
            final(self).params@ == params@,
            final(self).family == old(self).family,
            final(self).img_w == old(self).img_w,
            final(self).img_h == old(self).img_h,
            old(self).wf() ==> final(self).wf(),
    {
        self.params = params.clone();
    }

    /// The shared leading parameters: the two focal terms and the
    /// principal point.
    pub fn camera_params(&self) -> (r: Vec<i64>)
        requires
            self.wf(),
        ensures
            r@ == self.params@.take(4),
    {
        let mut r: Vec<i64> = Vec::new();
        r.push(self.params[0]);
        r.push(self.params[1]);
        r.push(self.params[2]);
        r.push(self.params[3]);
        proof {
            assert(r@ =~= self.params@.take(4));
        }
        r
    }

    /// The image width in fixed-point pixel units.
    pub fn width_fixed(&self) -> (r: i64)
        requires
            self.wf(),
        ensures
            r == self.img_w * SCALE,
            0 < r <= MAX_IMG * SCALE,
    {
        (self.img_w as i64) * SCALE
    }

    /// The image height in fixed-point pixel units.
    pub fn height_fixed(&self) -> (r: i64)
        requires
            self.wf(),
        ensures
            r == self.img_h * SCALE,
            0 < r <= MAX_IMG * SCALE,
    {
        (self.img_h as i64) * SCALE
    }
}

} // verus!
