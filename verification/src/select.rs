//! Frame-pair selection: pick the two frames that seed initialization.
//!
//! Among the frames with the maximum number of detected correspondences,
//! one pick maximizes the covered bounding-box area (wide spatial spread,
//! good for focal estimation) and the other maximizes the squared distance
//! of its average point position from the candidates' centroid (viewpoint
//! diversity).  The two picks are computed independently and may coincide.
use vstd::prelude::*;

use crate::{COORD_LIMIT, MAX_FRAMES, MAX_POINTS};
use crate::features::{
    FrameFeature, FeaturePoint, Point2, pt_in_range, spec_avg_center, spec_covered_area,
    spec_dist2, features_avg_center, features_covered_area, vec2_distance2,
};

verus! {

/// The number of correspondences a detected frame carries; an undetected
/// frame counts as zero.
pub open spec fn count_of(fo: Option<FrameFeature>) -> int {
    match fo {
        Some(f) => f.features@.len() as int,
        None => 0,
    }
}

/// The feature points of a detected frame.
pub open spec fn frame_features(frames: Seq<Option<FrameFeature>>, i: int) -> Seq<FeaturePoint> {
    match frames[i] {
        Some(f) => f.features@,
        None => Seq::empty(),
    }
}

/// The maximum correspondence count over a frame sequence.
pub open spec fn max_count(frames: Seq<Option<FrameFeature>>) -> int
    decreases frames.len(),
{
    if frames.len() == 0 {
        0
    } else if count_of(frames.last()) > max_count(frames.drop_last()) {
        count_of(frames.last())
    } else {
        max_count(frames.drop_last())
    }
}

/// A frame belongs to the candidate set when it is detected and carries the
/// maximum correspondence count.
pub open spec fn is_candidate(frames: Seq<Option<FrameFeature>>, i: int) -> bool {
    &&& 0 <= i < frames.len()
    &&& frames[i] is Some
    &&& count_of(frames[i]) == max_count(frames)
}

/// The candidate indices among the first `n` frames, in ascending order.
pub open spec fn candidates_up_to(frames: Seq<Option<FrameFeature>>, n: int) -> Seq<usize>
    decreases n,
{
    if n <= 0 {
        Seq::empty()
    } else if is_candidate(frames, n - 1) {
        candidates_up_to(frames, n - 1).push((n - 1) as usize)
    } else {
        candidates_up_to(frames, n - 1)
    }
}

/// The candidate indices of a frame sequence, in ascending order.
pub open spec fn candidates(frames: Seq<Option<FrameFeature>>) -> Seq<usize> {
    candidates_up_to(frames, frames.len() as int)
}

/// The average point positions of the given frames.
pub open spec fn centers_of(frames: Seq<Option<FrameFeature>>, cs: Seq<usize>) -> Seq<Point2> {
    cs.map_values(|i: usize| spec_avg_center(frame_features(frames, i as int)))
}

/// Sum of the x components of a position sequence.
pub open spec fn sum_cx(s: Seq<Point2>) -> int
    decreases s.len(),
{
    if s.len() == 0 {
        0
    } else {
        sum_cx(s.drop_last()) + s.last().x
    }
}

/// Sum of the y components of a position sequence.
pub open spec fn sum_cy(s: Seq<Point2>) -> int
    decreases s.len(),
{
    if s.len() == 0 {
        0
    } else {
        sum_cy(s.drop_last()) + s.last().y
    }
}

/// The componentwise mean of a non-empty position sequence, rounded toward
/// zero.
pub open spec fn spec_centroid(cen: Seq<Point2>) -> Point2
    recommends cen.len() > 0,
{
    Point2 {
        x: (sum_cx(cen) / cen.len() as int) as i64,
        y: (sum_cy(cen) / cen.len() as int) as i64,
    }
}

/// The position of the last maximum of a non-empty score sequence: the
/// greatest index whose score no other index exceeds.
pub open spec fn last_argmax(scores: Seq<int>) -> int
    recommends scores.len() > 0,
    decreases scores.len(),
{
    if scores.len() <= 1 {
        0
    } else if scores.last() >= scores[last_argmax(scores.drop_last())] {
        scores.len() - 1
    } else {
        last_argmax(scores.drop_last())
    }
}

/// `last_argmax` names a valid index, its score is maximal, and every later
/// index scores strictly less.
pub proof fn lemma_last_argmax_is_max(scores: Seq<int>)
    requires
        scores.len() > 0,
    ensures
        0 <= last_argmax(scores) < scores.len(),
        forall|k: int| 0 <= k < scores.len() ==> #[trigger] scores[k] <= scores[last_argmax(scores)],
        forall|k: int|
            last_argmax(scores) < k < scores.len() ==> #[trigger] scores[k] < scores[last_argmax(
                scores,
            )],
    decreases scores.len(),
{
    if scores.len() > 1 {
        lemma_last_argmax_is_max(scores.drop_last());
        assert(forall|k: int|
            0 <= k < scores.len() - 1 ==> #[trigger] scores[k] == scores.drop_last()[k]);
    }
}

/// The covered areas of the candidate frames.
pub open spec fn cand_areas(frames: Seq<Option<FrameFeature>>, cs: Seq<usize>) -> Seq<int> {
    cs.map_values(|i: usize| spec_covered_area(frame_features(frames, i as int)))
}

/// The squared distances of the candidate centers from their centroid.
pub open spec fn cand_dists(cen: Seq<Point2>) -> Seq<int> {
    cen.map_values(|c: Point2| spec_dist2(c, spec_centroid(cen)))
}

/// The pair of frame indices that seeds initialization: the candidate with
/// the largest covered area, and the candidate whose average point position
/// is farthest from the candidates' centroid.  Ties go to the larger frame
/// index; the two picks may coincide.
pub open spec fn spec_select_pair(frames: Seq<Option<FrameFeature>>) -> (usize, usize) {
    let cs = candidates(frames);
    let cen = centers_of(frames, cs);
    (cs[last_argmax(cand_areas(frames, cs))], cs[last_argmax(cand_dists(cen))])
}

/// Every well-formed frame sequence that feeds selection: bounded length,
/// well-formed detected frames, and at least one detected frame with at
/// least one correspondence.
pub open spec fn selectable(frames: Seq<Option<FrameFeature>>) -> bool {
    &&& frames.len() <= MAX_FRAMES
    &&& forall|i: int|
        0 <= i < frames.len() && frames[i] is Some ==> (#[trigger] frames[i])->Some_0.wf()
    &&& exists|i: int| 0 <= i < frames.len() && count_of(#[trigger] frames[i]) >= 1
}

/// The maximum count dominates every frame's count.
pub proof fn lemma_max_count_ge(frames: Seq<Option<FrameFeature>>, i: int)
    requires
        0 <= i < frames.len(),
    ensures
        count_of(frames[i]) <= max_count(frames),
    decreases frames.len(),
{
    if i < frames.len() - 1 {
        lemma_max_count_ge(frames.drop_last(), i);
    }
}

/// A non-empty frame sequence achieves its maximum count at some index.
pub proof fn lemma_max_count_achieved(frames: Seq<Option<FrameFeature>>)
    requires
        frames.len() > 0,
    ensures
        exists|i: int|
            0 <= i < frames.len() && count_of(#[trigger] frames[i]) == max_count(frames),
    decreases frames.len(),
{
    if frames.len() > 1 && count_of(frames.last()) <= max_count(frames.drop_last()) {
        lemma_max_count_achieved(frames.drop_last());
        let i = choose|i: int|
            0 <= i < frames.drop_last().len() && count_of(#[trigger] frames.drop_last()[i])
                == max_count(frames.drop_last());
        assert(count_of(frames[i]) == max_count(frames));
    } else {
        if frames.len() == 1 {
            assert(max_count(frames.drop_last()) == 0);
        }
        assert(count_of(frames[frames.len() - 1]) == max_count(frames));
    }
}

/// Candidate indices listed up to `n` are exactly the candidates below `n`,
/// in ascending order.
pub proof fn lemma_candidates_up_to(frames: Seq<Option<FrameFeature>>, n: int)
    requires
        0 <= n <= frames.len(),
        frames.len() <= MAX_FRAMES,
    ensures
        candidates_up_to(frames, n).len() <= n,
        forall|k: int|
            0 <= k < candidates_up_to(frames, n).len() ==> is_candidate(
                frames,
                #[trigger] candidates_up_to(frames, n)[k] as int,
            ) && candidates_up_to(frames, n)[k] < n,
        forall|k1: int, k2: int|
            0 <= k1 < k2 < candidates_up_to(frames, n).len() ==> candidates_up_to(frames, n)[k1]
                < candidates_up_to(frames, n)[k2],
        forall|i: int|
            0 <= i < n && is_candidate(frames, i) ==> candidates_up_to(frames, n).contains(
                i as usize,
            ),
    decreases n,
{
    if n > 0 {
        lemma_candidates_up_to(frames, n - 1);
        let prev = candidates_up_to(frames, n - 1);
        let cur = candidates_up_to(frames, n);
        if is_candidate(frames, n - 1) {
            assert forall|k1: int, k2: int| 0 <= k1 < k2 < cur.len() implies cur[k1] < cur[k2] by {
                if k2 < prev.len() {
                    assert(cur[k1] == prev[k1] && cur[k2] == prev[k2]);
                } else {
                    assert(cur[k2] == (n - 1) as usize);
                    assert(cur[k1] == prev[k1] && prev[k1] < n - 1);
                }
            }
        }
        assert forall|i: int| 0 <= i < n && is_candidate(frames, i) implies cur.contains(
            i as usize,
        ) by {
            if i < n - 1 {
                let k = choose|k: int| 0 <= k < prev.len() && prev[k] == i as usize;
                assert(cur[k] == i as usize);
            } else {
                assert(cur.last() == i as usize);
            }
        }
    }
}

/// A frame with at least one correspondence forces a positive maximum, so
/// the candidate set of a selectable frame sequence is never empty.
pub proof fn lemma_candidates_nonempty(frames: Seq<Option<FrameFeature>>)
    requires
        selectable(frames),
    ensures
        max_count(frames) >= 1,
        candidates(frames).len() > 0,
{
    let i = choose|i: int| 0 <= i < frames.len() && count_of(#[trigger] frames[i]) >= 1;
    lemma_max_count_ge(frames, i);
    lemma_max_count_achieved(frames);
    let j = choose|j: int|
        0 <= j < frames.len() && count_of(#[trigger] frames[j]) == max_count(frames);
    assert(frames[j] is Some);
    assert(is_candidate(frames, j));
    lemma_candidates_up_to(frames, frames.len() as int);
    assert(candidates(frames).contains(j as usize));
}

/// Collect the candidate indices: the detected frames whose correspondence
/// count equals the maximum over the whole sequence, in ascending order.
fn collect_candidates(frames: &Vec<Option<FrameFeature>>) -> (c: Vec<usize>)
    requires
        selectable(frames@),
    ensures
        c@ == candidates(frames@),
        c@.len() > 0,
{
    let n = frames.len();
    let mut m: usize = 0;
    for i in 0..n
        invariant
            n == frames@.len(),
            m == max_count(frames@.take(i as int)),
    {
        proof {
            assert(frames@.take(i + 1).drop_last() =~= frames@.take(i as int));
            assert(frames@.take(i + 1).last() == frames@[i as int]);
        }
        match &frames[i] {
            Some(f) => {
                if f.features.len() > m {
                    m = f.features.len();
                }
            },
            None => {},
        }
    }
    proof {
        assert(frames@.take(n as int) =~= frames@);
    }
    let mut c: Vec<usize> = Vec::new();
    for i in 0..n
        invariant
            n == frames@.len(),
            m == max_count(frames@),
            m >= 1 ==> c@ == candidates_up_to(frames@, i as int),
            m == 0 ==> c@.len() == 0,
    {
        let cnt: usize = match &frames[i] {
            Some(f) => f.features.len(),
            None => 0,
        };
        let is_some = frames[i].is_some();
        if is_some && cnt == m && m >= 1 {
            c.push(i);
        }
    }
    proof {
        lemma_candidates_nonempty(frames@);
    }
    c
}

/// A score sequence seen as mathematical integers.
pub open spec fn int_seq(s: Seq<i64>) -> Seq<int> {
    s.map_values(|v: i64| v as int)
}

/// The position of the last maximum of a non-empty score vector.
fn exec_last_argmax(scores: &Vec<i64>) -> (k: usize)
    requires
        scores@.len() > 0,
    ensures
        0 <= k < scores@.len(),
        k as int == last_argmax(int_seq(scores@)),
{
    let n = scores.len();
    let mut best: usize = 0;
    let mut best_score: i64 = scores[0];
    assert(int_seq(scores@).take(1) =~= seq![scores@[0] as int]);
    for k in 1..n
        invariant
            n == scores@.len(),
            1 <= k <= n,
            0 <= best < k,
            best as int == last_argmax(int_seq(scores@).take(k as int)),
            best_score == scores@[best as int],
    {
        proof {
            assert(int_seq(scores@).take(k + 1).drop_last() =~= int_seq(scores@).take(k as int));
            assert(int_seq(scores@).take(k + 1).last() == scores@[k as int] as int);
        }
        if scores[k] >= best_score {
            best = k;
            best_score = scores[k];
        }
    }
    proof {
        assert(int_seq(scores@).take(n as int) =~= int_seq(scores@));
    }
    best
}

/// The average point position of every candidate frame.
fn candidate_centers(frames: &Vec<Option<FrameFeature>>, cands: &Vec<usize>) -> (centers: Vec<
    Point2,
>)
    requires
        selectable(frames@),
        forall|k: int| 0 <= k < cands@.len() ==> is_candidate(frames@, #[trigger] cands@[k] as int),
        max_count(frames@) >= 1,
    ensures
        centers@ == centers_of(frames@, cands@),
        forall|k: int|
            0 <= k < centers@.len() ==> 0 <= #[trigger] centers@[k].x <= COORD_LIMIT && 0
                <= centers@[k].y <= COORD_LIMIT,
{
    let ncand = cands.len();
    let mut centers: Vec<Point2> = Vec::new();
    for k in 0..ncand
        invariant
            ncand == cands@.len(),
            selectable(frames@),
            forall|k2: int|
                0 <= k2 < cands@.len() ==> is_candidate(frames@, #[trigger] cands@[k2] as int),
            max_count(frames@) >= 1,
            centers@ =~= centers_of(frames@, cands@.take(k as int)),
            forall|k2: int|
                0 <= k2 < centers@.len() ==> 0 <= #[trigger] centers@[k2].x <= COORD_LIMIT && 0
                    <= centers@[k2].y <= COORD_LIMIT,
    {
        let i = cands[k];
        assert(is_candidate(frames@, i as int));
        let center = match &frames[i] {
            Some(f) => features_avg_center(&f.features),
            None => Point2 { x: 0, y: 0 },  // unreachable: candidates are detected frames
        };
        centers.push(center);
        proof {
            assert(cands@.take(k + 1).drop_last() =~= cands@.take(k as int));
            assert(centers_of(frames@, cands@.take(k + 1)) =~= centers_of(
                frames@,
                cands@.take(k as int),
            ).push(spec_avg_center(frame_features(frames@, cands@[k as int] as int))));
        }
    }
    proof {
        assert(cands@.take(ncand as int) =~= cands@);
        assert(centers@ =~= centers_of(frames@, cands@));
    }
    centers
}

/// The componentwise mean of the candidate centers, rounded toward zero.
fn candidate_centroid(centers: &Vec<Point2>) -> (c: Point2)
    requires
        0 < centers@.len() <= MAX_FRAMES,
        forall|k: int|
            0 <= k < centers@.len() ==> 0 <= #[trigger] centers@[k].x <= COORD_LIMIT && 0
                <= centers@[k].y <= COORD_LIMIT,
    ensures
        c == spec_centroid(centers@),
        0 <= c.x <= COORD_LIMIT,
        0 <= c.y <= COORD_LIMIT,
{
    let n = centers.len();
    let mut sx: i64 = 0;
    let mut sy: i64 = 0;
    for k in 0..n
        invariant
            n == centers@.len(),
            centers@.len() <= MAX_FRAMES,
            forall|k2: int|
                0 <= k2 < centers@.len() ==> 0 <= #[trigger] centers@[k2].x <= COORD_LIMIT && 0
                    <= centers@[k2].y <= COORD_LIMIT,
            sx == sum_cx(centers@.take(k as int)),
            sy == sum_cy(centers@.take(k as int)),
            0 <= sx <= k * COORD_LIMIT,
            0 <= sy <= k * COORD_LIMIT,
    {
        proof {
            assert(centers@.take(k + 1).drop_last() =~= centers@.take(k as int));
            assert(centers@.take(k + 1).last() == centers@[k as int]);
            assert(k * COORD_LIMIT + COORD_LIMIT == (k + 1) * COORD_LIMIT) by (nonlinear_arith);
            assert((k + 1) * COORD_LIMIT <= MAX_FRAMES * COORD_LIMIT) by (nonlinear_arith)
                requires 0 <= k + 1 <= MAX_FRAMES as int;
        }
        sx = sx + centers[k].x;
        sy = sy + centers[k].y;
    }
    proof {
        assert(centers@.take(n as int) =~= centers@);
        vstd::arithmetic::div_mod::lemma_div_is_ordered(sx as int, n as int * COORD_LIMIT, n as int);
        vstd::arithmetic::div_mod::lemma_div_multiples_vanish(COORD_LIMIT as int, n as int);
        vstd::arithmetic::div_mod::lemma_div_is_ordered(0, sx as int, n as int);
        vstd::arithmetic::div_mod::lemma_div_is_ordered(sy as int, n as int * COORD_LIMIT, n as int);
        vstd::arithmetic::div_mod::lemma_div_is_ordered(0, sy as int, n as int);
    }
    Point2 { x: sx / (n as i64), y: sy / (n as i64) }
}

/// Pick the two frames that seed initialization.
///
/// The result is a pure function of the input (`spec_select_pair`), so
/// repeated calls on a fixed detected-frame sequence return the same pair.
/// Both picks are candidates: detected frames carrying the maximum
/// correspondence count.
pub fn find_best_two_frames(frames: &Vec<Option<FrameFeature>>) -> (r: (usize, usize))
    requires
        selectable(frames@),
    ensures
        r == spec_select_pair(frames@),
        is_candidate(frames@, r.0 as int),
        is_candidate(frames@, r.1 as int),
{
    proof {
        lemma_candidates_nonempty(frames@);
        lemma_candidates_up_to(frames@, frames@.len() as int);
    }
    let cands = collect_candidates(frames);
    let ncand = cands.len();

    let centers = candidate_centers(frames, &cands);
    let centroid = candidate_centroid(&centers);

    // Squared distance of every candidate center from the centroid.
    let mut dists: Vec<i64> = Vec::new();
    for k in 0..ncand
        invariant
            ncand == centers@.len(),
            centers@ == centers_of(frames@, cands@),
            forall|k2: int|
                0 <= k2 < centers@.len() ==> 0 <= #[trigger] centers@[k2].x <= COORD_LIMIT && 0
                    <= centers@[k2].y <= COORD_LIMIT,
            0 <= centroid.x <= COORD_LIMIT,
            0 <= centroid.y <= COORD_LIMIT,
            centroid == spec_centroid(centers@),
            dists@.len() == k,
            forall|k2: int|
                0 <= k2 < k ==> #[trigger] dists@[k2] as int == cand_dists(centers@)[k2],
    {
        let d = vec2_distance2(&centers[k], &centroid);
        dists.push(d);
    }

    // Covered bounding-box area of every candidate.
    let mut areas: Vec<i64> = Vec::new();
    for k in 0..ncand
        invariant
            ncand == cands@.len(),
            cands@ == candidates(frames@),
            selectable(frames@),
            forall|k2: int|
                0 <= k2 < cands@.len() ==> is_candidate(frames@, #[trigger] cands@[k2] as int),
            max_count(frames@) >= 1,
            areas@.len() == k,
            forall|k2: int|
                0 <= k2 < k ==> #[trigger] areas@[k2] as int == cand_areas(frames@, cands@)[k2],
    {
        let i = cands[k];
        assert(is_candidate(frames@, i as int));
        let a = match &frames[i] {
            Some(f) => features_covered_area(&f.features),
            None => 0,  // unreachable: candidates are detected frames
        };
        areas.push(a);
        assert(areas@[k as int] as int == cand_areas(frames@, cands@)[k as int]);
    }

    let best_a = exec_last_argmax(&areas);
    let best_d = exec_last_argmax(&dists);
    proof {
        assert(int_seq(areas@) =~= cand_areas(frames@, cands@));
        assert(int_seq(dists@) =~= cand_dists(centers@));
        lemma_last_argmax_is_max(cand_areas(frames@, cands@));
        lemma_last_argmax_is_max(cand_dists(centers@));
    }
    (cands[best_a], cands[best_d])
}

/// A frame with strictly more correspondences than every other detected
/// frame is never excluded: it is the sole candidate, so selection returns
/// it as both picks.
pub proof fn lemma_dominant_frame_is_selected(frames: Seq<Option<FrameFeature>>, i: int)
    requires
        selectable(frames),
        0 <= i < frames.len(),
        frames[i] is Some,
        count_of(frames[i]) >= 1,
        forall|j: int|
            0 <= j < frames.len() && j != i ==> count_of(#[trigger] frames[j]) < count_of(
                frames[i],
            ),
    ensures
        candidates(frames) =~= seq![i as usize],
        spec_select_pair(frames) == (i as usize, i as usize),
{
    lemma_max_count_ge(frames, i);
    lemma_max_count_achieved(frames);
    assert(max_count(frames) == count_of(frames[i]));
    assert(is_candidate(frames, i));
    lemma_candidates_up_to(frames, frames.len() as int);
    let cs = candidates(frames);
    assert(cs.contains(i as usize));
    assert forall|k: int| 0 <= k < cs.len() implies cs[k] == i as usize by {
        assert(is_candidate(frames, cs[k] as int));
    }
    let k0 = choose|k: int| 0 <= k < cs.len() && cs[k] == i as usize;
    assert(cs.len() >= 1);
    if cs.len() > 1 {
        assert(cs[0] == i as usize && cs[1] == i as usize);
        assert(false);
    }
    assert(cs =~= seq![i as usize]);
    let cen = centers_of(frames, cs);
    assert(cen.len() == 1);
    assert(cand_areas(frames, cs).len() == 1);
    assert(cand_dists(cen).len() == 1);
    assert(last_argmax(cand_areas(frames, cs)) == 0);
    assert(last_argmax(cand_dists(cen)) == 0);
}

} // verus!
