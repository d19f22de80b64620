//! Observed calibration data: feature points and per-frame observation sets,
//! together with the per-frame summary quantities (average point position,
//! covered bounding-box area) that frame selection ranks by.
use vstd::prelude::*;

use crate::{COORD_LIMIT, MAX_POINTS, MAX_IMG};

verus! {

/// A 2D position in fixed-point pixel units.
#[derive(Clone, Copy, Debug, PartialEq, Eq, Structural)]
pub struct Point2 {
    pub x: i64,
    pub y: i64,
}

/// A 3D position in fixed-point target-board units.
#[derive(Clone, Copy, Debug, PartialEq, Eq, Structural)]
pub struct Point3 {
    pub x: i64,
    pub y: i64,
    pub z: i64,
}

/// One observed correspondence: a detected 2D pixel location and the 3D
/// location of the matched point on the calibration target, keyed by a
/// stable point identifier.
#[derive(Clone, Copy, Debug, PartialEq, Eq, Structural)]
pub struct FeaturePoint {
    pub id: u32,
    pub p2d: Point2,
    pub p3d: Point3,
}

/// One frame's observation set: its feature points (identifiers unique
/// within the frame, order irrelevant), the image dimensions shared by every
/// frame of a run, and the capture timestamp.
#[derive(Clone, Debug)]
pub struct FrameFeature {
    pub features: Vec<FeaturePoint>,
    pub img_w: u32,
    pub img_h: u32,
    pub time_ns: i64,
}

/// The detected pixel location lies inside the coordinate range the
/// selection arithmetic is proved overflow-free on.
pub open spec fn pt_in_range(p: FeaturePoint) -> bool {
    &&& 0 <= p.p2d.x <= COORD_LIMIT
    &&& 0 <= p.p2d.y <= COORD_LIMIT
}

impl FrameFeature {
    /// Well-formedness: point identifiers are unique, every detected pixel
    /// is in range, and the frame is sized within the supported limits.
    pub open spec fn wf(self) -> bool {
        &&& self.features@.len() <= MAX_POINTS
        &&& forall|i: int| 0 <= i < self.features@.len() ==> pt_in_range(#[trigger] self.features@[i])
        &&& forall|i: int, j: int|
            0 <= i < j < self.features@.len() ==> self.features@[i].id != self.features@[j].id
        &&& 1 <= self.img_w <= MAX_IMG
        &&& 1 <= self.img_h <= MAX_IMG
    }
}

/// Sum of the detected x coordinates of a point sequence.
pub open spec fn sum_x(s: Seq<FeaturePoint>) -> int
    decreases s.len(),
{
    if s.len() == 0 {
        0
    } else {
        sum_x(s.drop_last()) + s.last().p2d.x
    }
}

/// Sum of the detected y coordinates of a point sequence.
pub open spec fn sum_y(s: Seq<FeaturePoint>) -> int
    decreases s.len(),
{
    if s.len() == 0 {
        0
    } else {
        sum_y(s.drop_last()) + s.last().p2d.y
    }
}

/// Smallest detected x coordinate of a non-empty point sequence.
pub open spec fn min_x(s: Seq<FeaturePoint>) -> int
    recommends s.len() > 0,
    decreases s.len(),
{
    if s.len() <= 1 {
        s[0].p2d.x as int
    } else if s.last().p2d.x < min_x(s.drop_last()) {
        s.last().p2d.x as int
    } else {
        min_x(s.drop_last())
    }
}

/// Largest detected x coordinate of a non-empty point sequence.
pub open spec fn max_x(s: Seq<FeaturePoint>) -> int
    recommends s.len() > 0,
    decreases s.len(),
{
    if s.len() <= 1 {
        s[0].p2d.x as int
    } else if s.last().p2d.x > max_x(s.drop_last()) {
        s.last().p2d.x as int
    } else {
        max_x(s.drop_last())
    }
}

/// Smallest detected y coordinate of a non-empty point sequence.
pub open spec fn min_y(s: Seq<FeaturePoint>) -> int
    recommends s.len() > 0,
    decreases s.len(),
{
    if s.len() <= 1 {
        s[0].p2d.y as int
    } else if s.last().p2d.y < min_y(s.drop_last()) {
        s.last().p2d.y as int
    } else {
        min_y(s.drop_last())
    }
}

/// Largest detected y coordinate of a non-empty point sequence.
pub open spec fn max_y(s: Seq<FeaturePoint>) -> int
    recommends s.len() > 0,
    decreases s.len(),
{
    if s.len() <= 1 {
        s[0].p2d.y as int
    } else if s.last().p2d.y > max_y(s.drop_last()) {
        s.last().p2d.y as int
    } else {
        max_y(s.drop_last())
    }
}

/// The average detected point position of a non-empty point sequence,
/// componentwise, rounded toward zero.
pub open spec fn spec_avg_center(s: Seq<FeaturePoint>) -> Point2
    recommends s.len() > 0,
{
    Point2 { x: (sum_x(s) / s.len() as int) as i64, y: (sum_y(s) / s.len() as int) as i64 }
}

/// The axis-aligned bounding-box area covered by a non-empty point sequence.
pub open spec fn spec_covered_area(s: Seq<FeaturePoint>) -> int
    recommends s.len() > 0,
{
    (max_x(s) - min_x(s)) * (max_y(s) - min_y(s))
}

/// The squared Euclidean distance between two positions.
pub open spec fn spec_dist2(a: Point2, b: Point2) -> int {
    (a.x - b.x) * (a.x - b.x) + (a.y - b.y) * (a.y - b.y)
}

/// Coordinate sums of an in-range point sequence stay within
/// `len * COORD_LIMIT`.
pub proof fn lemma_sum_bounds(s: Seq<FeaturePoint>)
    requires
        forall|i: int| 0 <= i < s.len() ==> pt_in_range(#[trigger] s[i]),
    ensures
        0 <= sum_x(s) <= s.len() * COORD_LIMIT,
        0 <= sum_y(s) <= s.len() * COORD_LIMIT,
    decreases s.len(),
{
    if s.len() > 0 {
        lemma_sum_bounds(s.drop_last());
        assert((s.len() - 1) * COORD_LIMIT + COORD_LIMIT == s.len() * COORD_LIMIT)
            by (nonlinear_arith);
    }
}

/// The average point position of one frame's observations: the componentwise
/// mean of all detected pixel locations, rounded toward zero.
pub fn features_avg_center(features: &Vec<FeaturePoint>) -> (r: Point2)
    requires
        features@.len() > 0,
        features@.len() <= MAX_POINTS,
        forall|i: int| 0 <= i < features@.len() ==> pt_in_range(#[trigger] features@[i]),
    ensures
        r == spec_avg_center(features@),
        0 <= r.x <= COORD_LIMIT,
        0 <= r.y <= COORD_LIMIT,
{
    let n = features.len();
    let mut sx: i64 = 0;
    let mut sy: i64 = 0;
    for i in 0..n
        invariant
            n == features@.len(),
            features@.len() <= MAX_POINTS,
            forall|k: int| 0 <= k < features@.len() ==> pt_in_range(#[trigger] features@[k]),
            sx == sum_x(features@.take(i as int)),
            sy == sum_y(features@.take(i as int)),
            0 <= sx <= i * COORD_LIMIT,
            0 <= sy <= i * COORD_LIMIT,
    {
        proof {
            assert(features@.take(i + 1).drop_last() =~= features@.take(i as int));
            assert(features@.take(i + 1).last() == features@[i as int]);
            assert(i * COORD_LIMIT + COORD_LIMIT == (i + 1) * COORD_LIMIT) by (nonlinear_arith);
            assert((i + 1) * COORD_LIMIT <= MAX_POINTS * COORD_LIMIT) by (nonlinear_arith)
                requires 0 <= i + 1 <= MAX_POINTS as int;
        }
        sx = sx + features[i].p2d.x;
        sy = sy + features[i].p2d.y;
    }
    proof {
        assert(features@.take(n as int) =~= features@);
        lemma_sum_bounds(features@);
        vstd::arithmetic::div_mod::lemma_div_is_ordered(sx as int, n as int * COORD_LIMIT, n as int);
        vstd::arithmetic::div_mod::lemma_div_multiples_vanish(COORD_LIMIT as int, n as int);
        vstd::arithmetic::div_mod::lemma_div_is_ordered(0, sx as int, n as int);
        vstd::arithmetic::div_mod::lemma_div_is_ordered(sy as int, n as int * COORD_LIMIT, n as int);
        vstd::arithmetic::div_mod::lemma_div_is_ordered(0, sy as int, n as int);
    }
    Point2 { x: sx / (n as i64), y: sy / (n as i64) }
}

/// The axis-aligned bounding-box area covered by one frame's detected pixel
/// locations.  Reported in raw fixed-point product units; frame selection
/// uses it only for ranking.
pub fn features_covered_area(features: &Vec<FeaturePoint>) -> (r: i64)
    requires
        features@.len() > 0,
        forall|i: int| 0 <= i < features@.len() ==> pt_in_range(#[trigger] features@[i]),
    ensures
        r == spec_covered_area(features@),
        0 <= r,
{
    let n = features.len();
    let mut xmin: i64 = features[0].p2d.x;
    let mut xmax: i64 = features[0].p2d.x;
    let mut ymin: i64 = features[0].p2d.y;
    let mut ymax: i64 = features[0].p2d.y;
    proof {
        assert(features@.take(1) =~= seq![features@[0]]);
    }
    for i in 1..n
        invariant
            n == features@.len(),
            1 <= i <= n,
            forall|k: int| 0 <= k < features@.len() ==> pt_in_range(#[trigger] features@[k]),
            xmin == min_x(features@.take(i as int)),
            xmax == max_x(features@.take(i as int)),
            ymin == min_y(features@.take(i as int)),
            ymax == max_y(features@.take(i as int)),
            0 <= xmin <= xmax <= COORD_LIMIT,
            0 <= ymin <= ymax <= COORD_LIMIT,
    {
        proof {
            assert(features@.take(i + 1).drop_last() =~= features@.take(i as int));
            assert(features@.take(i + 1).last() == features@[i as int]);
        }
        let p = features[i].p2d;
        if p.x < xmin {
            xmin = p.x;
        }
        if p.x > xmax {
            xmax = p.x;
        }
        if p.y < ymin {
            ymin = p.y;
        }
        if p.y > ymax {
            ymax = p.y;
        }
    }
    proof {
        assert(features@.take(n as int) =~= features@);
        assert((xmax - xmin) * (ymax - ymin) <= COORD_LIMIT * COORD_LIMIT) by (nonlinear_arith)
            requires 0 <= xmax - xmin <= COORD_LIMIT, 0 <= ymax - ymin <= COORD_LIMIT;
        assert(0 <= (xmax - xmin) * (ymax - ymin)) by (nonlinear_arith)
            requires 0 <= xmax - xmin, 0 <= ymax - ymin;
    }
    (xmax - xmin) * (ymax - ymin)
}

/// The squared Euclidean distance between two in-range positions.  Reported
/// in raw fixed-point product units; frame selection uses it only for
/// ranking.
pub fn vec2_distance2(v0: &Point2, v1: &Point2) -> (r: i64)
    requires
        0 <= v0.x <= COORD_LIMIT,
        0 <= v0.y <= COORD_LIMIT,
        0 <= v1.x <= COORD_LIMIT,
        0 <= v1.y <= COORD_LIMIT,
    ensures
        r == spec_dist2(*v0, *v1),
        0 <= r,
{
    let dx = v0.x - v1.x;
    let dy = v0.y - v1.y;
    proof {
        assert(0 <= dx * dx <= COORD_LIMIT * COORD_LIMIT) by (nonlinear_arith)
            requires -COORD_LIMIT <= dx <= COORD_LIMIT;
        assert(0 <= dy * dy <= COORD_LIMIT * COORD_LIMIT) by (nonlinear_arith)
            requires -COORD_LIMIT <= dy <= COORD_LIMIT;
    }
    dx * dx + dy * dy
}

} // verus!
