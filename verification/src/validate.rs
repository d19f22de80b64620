//! Accuracy validation: outlier-robust statistics over the per-point
//! reprojection errors of a converged calibration.
//!
//! The per-point errors themselves — transform, reproject, pixel distance —
//! are computed through the projection collaborator; this crate owns the
//! statistics: the combined errors are sorted ascending, the median is the
//! upper-middle element, and the trimmed mean averages the lowest
//! ninety-nine percent by count, suppressing the heaviest outliers.
use vstd::prelude::*;
use vstd::relations::{sorted_by, total_ordering};

use crate::COORD_LIMIT;

verus! {

/// Largest number of per-point errors one validation may combine.
pub const MAX_ERROR_COUNT: usize = 0x100_0000;

/// The ascending order the error statistics sort by.
pub open spec fn spec_le() -> spec_fn(i64, i64) -> bool {
    |a: i64, b: i64| a <= b
}

/// The combined error sequence in ascending order.
pub open spec fn spec_sorted_errors(s: Seq<i64>) -> Seq<i64> {
    s.sort_by(spec_le())
}

/// Sum of an error sequence.
pub open spec fn spec_error_sum(s: Seq<i64>) -> int
    decreases s.len(),
{
    if s.len() == 0 {
        0
    } else {
        spec_error_sum(s.drop_last()) + s.last()
    }
}

/// What validation reports: how many per-point errors were combined, their
/// median, and the mean of the lowest ninety-nine percent of them.
#[derive(Clone, Copy, Debug, PartialEq, Eq, Structural)]
pub struct ValidationReport {
    pub total: usize,
    pub median: i64,
    pub trimmed_mean_99: i64,
}

/// The ascending order is total.
pub proof fn lemma_le_total_ordering()
    ensures
        total_ordering(spec_le()),
{
    let leq = spec_le();
    assert forall|a: i64, b: i64| #[trigger] leq(a, b) || #[trigger] leq(b, a) by {}
}

/// Sums split over prefixes: the sum of a prefix one longer grows by the
/// element at its end.
proof fn lemma_error_sum_take(s: Seq<i64>, k: int)
    requires
        0 <= k < s.len(),
    ensures
        spec_error_sum(s.take(k + 1)) == spec_error_sum(s.take(k)) + s[k],
{
    assert(s.take(k + 1).drop_last() =~= s.take(k));
    assert(s.take(k + 1).last() == s[k]);
}

/// Sort a copy of the error vector ascending by insertion sort.
fn sorted_copy(v: &Vec<i64>) -> (r: Vec<i64>)
    ensures
        r@.len() == v@.len(),
        r@.to_multiset() == v@.to_multiset(),
        sorted_by(r@, spec_le()),
        r@ == spec_sorted_errors(v@),
{
    broadcast use vstd::seq_lib::group_to_multiset_ensures;

    let mut r: Vec<i64> = Vec::new();
    let n = v.len();
    for i in 0..n
        invariant
            n == v@.len(),
            r@.len() == i,
            r@.to_multiset() == v@.take(i as int).to_multiset(),
            sorted_by(r@, spec_le()),
    {
        let x = v[i];
        // Find the insertion position: the first entry greater than `x`.
        let mut pos: usize = 0;
        while pos < r.len() && r[pos] <= x
            invariant
                pos <= r@.len(),
                forall|q: int| 0 <= q < pos ==> #[trigger] r@[q] <= x,
            decreases r@.len() - pos,
        {
            pos = pos + 1;
        }
        let ghost old_r = r@;
        r.insert(pos, x);
        proof {
            assert(v@.take(i + 1) =~= v@.take(i as int).push(v@[i as int]));
            assert(r@ == old_r.insert(pos as int, x));
            vstd::seq_lib::to_multiset_insert(old_r, pos as int, x);
            vstd::seq_lib::to_multiset_build(v@.take(i as int), v@[i as int]);
            assert(r@ =~= old_r.take(pos as int).push(x) + old_r.skip(pos as int));
            let leq = spec_le();
            assert forall|q1: int, q2: int| 0 <= q1 < q2 < r@.len() implies #[trigger] leq(
                r@[q1],
                r@[q2],
            ) by {
                assert(q1 < pos ==> r@[q1] == old_r[q1]);
                assert(q1 == pos ==> r@[q1] == x);
                assert(q1 > pos ==> r@[q1] == old_r[q1 - 1]);
                assert(q2 < pos ==> r@[q2] == old_r[q2]);
                assert(q2 == pos ==> r@[q2] == x);
                assert(q2 > pos ==> r@[q2] == old_r[q2 - 1]);
                if q2 < pos {
                    assert(leq(old_r[q1], old_r[q2]));
                } else if q2 == pos {
                    assert(old_r[q1] <= x);
                } else {
                    // q2 > pos: the scan stopped at an entry greater than x.
                    if q1 < pos {
                        assert(leq(old_r[q1], old_r[q2 - 1]));
                    } else if q1 == pos {
                        assert(pos < old_r.len());
                        assert(!(old_r[pos as int] <= x));
                        assert(leq(old_r[pos as int], old_r[q2 - 1]));
                    } else {
                        assert(leq(old_r[q1 - 1], old_r[q2 - 1]));
                    }
                }
            }
        }
    }
    proof {
        assert(v@.take(n as int) =~= v@);
        lemma_le_total_ordering();
        v@.lemma_sort_by_ensures(spec_le());
        vstd::seq_lib::lemma_sorted_unique(r@, v@.sort_by(spec_le()), spec_le());
    }
    r
}

/// Every element of a sequence whose multiset equals an in-range
/// sequence's multiset is itself in range.
proof fn lemma_range_transfers(a: Seq<i64>, b: Seq<i64>)
    requires
        a.to_multiset() == b.to_multiset(),
        forall|q: int| 0 <= q < b.len() ==> 0 <= #[trigger] b[q] <= COORD_LIMIT,
    ensures
        forall|q: int| 0 <= q < a.len() ==> 0 <= #[trigger] a[q] <= COORD_LIMIT,
{
    broadcast use vstd::seq_lib::group_to_multiset_ensures;

    assert forall|q: int| 0 <= q < a.len() implies 0 <= #[trigger] a[q] <= COORD_LIMIT by {
        assert(a.to_multiset().contains(a[q]));
        assert(b.contains(a[q]));
    }
}

/// Validation statistics over the combined per-point reprojection errors:
/// the median is the upper-middle element of the ascending order, and the
/// trimmed mean averages the lowest ninety-nine percent by count (zero
/// when that trim leaves nothing).
pub fn validation(errors: &Vec<i64>) -> (r: ValidationReport)
    requires
        0 < errors@.len() <= MAX_ERROR_COUNT,
        forall|q: int| 0 <= q < errors@.len() ==> 0 <= #[trigger] errors@[q] <= COORD_LIMIT,
    ensures
        r.total == errors@.len(),
        r.median == spec_sorted_errors(errors@)[errors@.len() as int / 2],
        ({
            let cut = errors@.len() as int * 99 / 100;
            r.trimmed_mean_99 == if cut == 0 {
                0
            } else {
                spec_error_sum(spec_sorted_errors(errors@).take(cut)) / cut
            }
        }),
{
    let n = errors.len();
    let sorted = sorted_copy(errors);
    proof {
        lemma_range_transfers(sorted@, errors@);
    }
    let median = sorted[n / 2];
    let cut = n * 99 / 100;
    proof {
        vstd::arithmetic::div_mod::lemma_div_is_ordered(n as int * 99, 100 * n as int, 100);
        vstd::arithmetic::div_mod::lemma_div_multiples_vanish(n as int, 100);
        vstd::arithmetic::div_mod::lemma_div_is_ordered(0, n as int * 99, 100);
    }
    let mut sum: i64 = 0;
    for k in 0..cut
        invariant
            cut <= n,
            n == sorted@.len(),
            n <= MAX_ERROR_COUNT,
            forall|q: int| 0 <= q < sorted@.len() ==> 0 <= #[trigger] sorted@[q] <= COORD_LIMIT,
            sum == spec_error_sum(sorted@.take(k as int)),
            0 <= sum <= k * COORD_LIMIT,
    {
        proof {
            lemma_error_sum_take(sorted@, k as int);
            assert(k * COORD_LIMIT + COORD_LIMIT == (k + 1) * COORD_LIMIT) by (nonlinear_arith);
            assert((k + 1) * COORD_LIMIT <= MAX_ERROR_COUNT * COORD_LIMIT) by (nonlinear_arith)
                requires 0 <= k + 1 <= MAX_ERROR_COUNT as int;
        }
        sum = sum + sorted[k];
    }
    let trimmed_mean_99 = if cut == 0 {
        0
    } else {
        sum / (cut as i64)
    };
    ValidationReport { total: n, median, trimmed_mean_99 }
}

/// The mean per-point reprojection error of one frame, rounded toward
/// zero: the per-frame diagnostic the validator reports to its observer.
pub fn average_error(errors: &Vec<i64>) -> (r: i64)
    requires
        0 < errors@.len() <= MAX_ERROR_COUNT,
        forall|q: int| 0 <= q < errors@.len() ==> 0 <= #[trigger] errors@[q] <= COORD_LIMIT,
    ensures
        r == spec_error_sum(errors@) / errors@.len() as int,
{
    let n = errors.len();
    let mut sum: i64 = 0;
    for k in 0..n
        invariant
            n == errors@.len(),
            n <= MAX_ERROR_COUNT,
            forall|q: int| 0 <= q < errors@.len() ==> 0 <= #[trigger] errors@[q] <= COORD_LIMIT,
            sum == spec_error_sum(errors@.take(k as int)),
            0 <= sum <= k * COORD_LIMIT,
    {
        proof {
            lemma_error_sum_take(errors@, k as int);
            assert(k * COORD_LIMIT + COORD_LIMIT == (k + 1) * COORD_LIMIT) by (nonlinear_arith);
            assert((k + 1) * COORD_LIMIT <= MAX_ERROR_COUNT * COORD_LIMIT) by (nonlinear_arith)
                requires 0 <= k + 1 <= MAX_ERROR_COUNT as int;
        }
        sum = sum + errors[k];
    }
    proof {
        assert(errors@.take(n as int) =~= errors@);
    }
    sum / (n as i64)
}

} // verus!
