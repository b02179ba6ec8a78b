//! The nearest-neighbour novelty descriptor: a query row is the more novel
//! the farther its nearest inliers are.
//!
//! Raw scores are mean distances and come from the caller. Decided here are
//! the fitting, the bounds of a batch of raw scores, when a batch collapses
//! to zero, and the clamping of what the caller has scaled.

use crate::bruteforce::BruteForceIndex;
use crate::distance::Metric;
use crate::error::FrError;
use crate::ieee::{
    at_most, finite, in_unit_interval, is_at_most, is_finite, is_less, key_order_is_value_order, larger, less,
    maximum, minimum, nan, scaled_value, smaller, EPSILON, INFINITY, NEG_INFINITY, ONE, ZERO,
};
use crate::matrix::Matrix;
use crate::training::zero_k_reason;
use crate::transformations::{guarded_quotient, safe_divide};
use vstd::prelude::*;
use vstd::string::*;

verus! {

/// The settings of the novelty descriptor.
#[derive(Debug, Clone, Copy)]
#[allow(clippy::upper_case_acronyms)]
pub struct NND {
    /// How many nearest inliers the score is taken over.
    pub k: usize,
    /// The metric that neighbours are found in.
    pub metric: Metric,
}

impl Default for NND {
    /// Five neighbours, Euclidean distance.
    fn default() -> (r: Self)
        ensures
            r.k == 5,
            r.metric == Metric::Euclidean,
    {
        Self { k: 5, metric: Metric::Euclidean }
    }
}

/// A fitted novelty descriptor.
#[derive(Debug, Clone)]
#[allow(clippy::upper_case_acronyms)]
pub struct NNDModel {
    pub x_inlier: Matrix,
    pub index: BruteForceIndex,
    pub k: usize,
    pub metric: Metric,
}

impl NNDModel {
    /// What fitting establishes: the model holds the inliers as given, an
    /// index over the same rows in the model's metric, and a neighbour count
    /// of at least 1.
    pub open spec fn well_formed(&self) -> bool {
        &&& self.x_inlier.rows() > 0
        &&& self.x_inlier.cols() > 0
        &&& self.index.x_train.same_as(&self.x_inlier)
        &&& self.index.metric == self.metric
        &&& self.k >= 1
    }
}

impl NND {
    /// Fits the descriptor to a matrix of inliers.
    ///
    /// A matrix without rows or columns is rejected as empty, then a `k` of
    /// zero as invalid. Any other matrix gives a model that holds a copy of
    /// it and an index over it.
    pub fn fit(&self, x_inlier: &Matrix) -> (r: Result<NNDModel, FrError>)
        ensures
            r is Ok <==> x_inlier.rows() > 0 && x_inlier.cols() > 0 && self.k >= 1,
            x_inlier.rows() == 0 || x_inlier.cols() == 0 ==> r is Err && r->Err_0 == FrError::EmptyInput,
            x_inlier.rows() > 0 && x_inlier.cols() > 0 && self.k == 0 ==> r is Err && r->Err_0.is_invalid_input(
                zero_k_reason(),
            ),
            r matches Ok(model) ==> {
                &&& model.well_formed()
                &&& model.x_inlier.same_as(x_inlier)
                &&& model.k == self.k
                &&& model.metric == self.metric
            },
    {
        if x_inlier.nrows() == 0 || x_inlier.ncols() == 0 {
            return Err(FrError::EmptyInput);
        }
        if self.k == 0 {
            return Err(FrError::InvalidInput(String::from_str("k must be at least 1")));
        }
        Ok(
            NNDModel {
                x_inlier: x_inlier.clone(),
                index: BruteForceIndex::new(x_inlier.clone(), self.metric),
                k: self.k,
                metric: self.metric,
            },
        )
    }
}

/// The raw score of a query row: the guarded mean of the distances to its
/// neighbours, and 0 where that is negative.
pub open spec fn raw_anomaly(sum: u64, count: u64, mean: u64) -> u64 {
    larger(guarded_quotient(sum, count, mean, ZERO), ZERO)
}

/// The raw score of a query row. `sum` is the sum of the distances to its
/// neighbours, `count` their number as a binary64, and `mean` the rounded
/// quotient of the two; all three are the caller's arithmetic.
pub fn raw_score(sum: u64, count: u64, mean: u64) -> (r: u64)
    ensures
        r == raw_anomaly(sum, count, mean),
        finite(r),
        at_most(ZERO, r),
{
    maximum(safe_divide(sum, count, mean, ZERO), ZERO)
}

/// The smallest of the first `n` raw scores, and positive infinity of none.
pub open spec fn least_score(raw: Seq<u64>, n: nat) -> u64
    decreases n,
{
    if n == 0 {
        INFINITY
    } else {
        smaller(least_score(raw, (n - 1) as nat), raw[n - 1])
    }
}

/// The largest of the first `n` raw scores, and negative infinity of none.
pub open spec fn greatest_score(raw: Seq<u64>, n: nat) -> u64
    decreases n,
{
    if n == 0 {
        NEG_INFINITY
    } else {
        larger(greatest_score(raw, (n - 1) as nat), raw[n - 1])
    }
}

/// The smallest and the largest raw score of a batch.
pub fn score_bounds(raw: &Vec<u64>) -> (r: (u64, u64))
    ensures
        r.0 == least_score(raw@, raw@.len()),
        r.1 == greatest_score(raw@, raw@.len()),
{
    let mut least: u64 = INFINITY;
    let mut greatest: u64 = NEG_INFINITY;
    let mut i: usize = 0;
    while i < raw.len()
        invariant
            i <= raw.len(),
            least == least_score(raw@, i as nat),
            greatest == greatest_score(raw@, i as nat),
        decreases raw.len() - i,
    {
        least = minimum(least, raw[i]);
        greatest = maximum(greatest, raw[i]);
        i += 1;
    }
    (least, greatest)
}

/// The bounds of a batch of numbers enclose every score of the batch.
pub proof fn score_bounds_enclose(raw: Seq<u64>, n: nat, i: int)
    requires
        n <= raw.len(),
        0 <= i < n,
        forall|j: int| 0 <= j < n ==> !nan(#[trigger] raw[j]),
    ensures
        at_most(least_score(raw, n), raw[i]),
        at_most(raw[i], greatest_score(raw, n)),
    decreases n,
{
    bounds_are_numbers(raw, (n - 1) as nat);
    if i < n - 1 {
        score_bounds_enclose(raw, (n - 1) as nat, i);
    }
}

/// The bounds of a batch of numbers are numbers.
proof fn bounds_are_numbers(raw: Seq<u64>, n: nat)
    requires
        n <= raw.len(),
        forall|j: int| 0 <= j < n ==> !nan(#[trigger] raw[j]),
    ensures
        !nan(least_score(raw, n)),
        !nan(greatest_score(raw, n)),
    decreases n,
{
    if n > 0 {
        bounds_are_numbers(raw, (n - 1) as nat);
    }
}

/// A batch whose scores span this range collapses: the range is infinite or
/// a NaN, or no wider than machine epsilon.
pub open spec fn collapses(range: u64) -> bool {
    !finite(range) || at_most(range, EPSILON)
}

/// Whether a batch whose scores span this range collapses to zero.
pub fn range_collapses(range: u64) -> (r: bool)
    ensures
        r == collapses(range),
{
    !is_finite(range) || is_at_most(range, EPSILON)
}

/// A number limited to the unit interval: 0 below it, 1 above it, itself
/// within it. A NaN stays what it is.
pub open spec fn limited(value: u64) -> u64 {
    if less(value, ZERO) {
        ZERO
    } else if less(ONE, value) {
        ONE
    } else {
        value
    }
}

/// Limits a number to the unit interval.
pub fn limit_to_unit(value: u64) -> (r: u64)
    ensures
        r == limited(value),
        !nan(value) ==> in_unit_interval(r),
{
    if is_less(value, ZERO) {
        ZERO
    } else if is_less(ONE, value) {
        ONE
    } else {
        value
    }
}

/// The anomaly score of one query row of a batch that spans `range`:
/// zero where the batch collapses, and otherwise the guarded quotient of
/// `offset`, the row's raw score less the smallest of the batch, by `range`,
/// limited to the unit interval.
pub open spec fn anomaly_score(range: u64, offset: u64, quotient: u64) -> u64 {
    if collapses(range) {
        ZERO
    } else {
        limited(guarded_quotient(offset, range, quotient, ZERO))
    }
}

/// `scores` are the anomaly scores of a batch with these offsets and
/// quotients.
pub open spec fn are_batch_scores(range: u64, offsets: Seq<u64>, quotients: Seq<u64>, scores: Seq<u64>) -> bool {
    &&& scores.len() == offsets.len()
    &&& forall|i: int|
        0 <= i < offsets.len() ==> #[trigger] scores[i] == anomaly_score(range, offsets[i], quotients[i])
}

/// The anomaly scores of a batch of query rows.
///
/// `range` is the largest raw score of the batch less the smallest;
/// `offsets` holds for each row its raw score less the smallest, and
/// `quotients` the rounded quotient of that offset by `range`. All three are
/// the caller's arithmetic. There is one score per offset.
pub fn batch_scores(range: u64, offsets: &Vec<u64>, quotients: &Vec<u64>) -> (scores: Vec<u64>)
    requires
        quotients@.len() == offsets@.len(),
    ensures
        are_batch_scores(range, offsets@, quotients@, scores@),
{
    let collapsed = range_collapses(range);
    let mut scores: Vec<u64> = Vec::new();
    let mut i: usize = 0;
    while i < offsets.len()
        invariant
            quotients@.len() == offsets@.len(),
            i <= offsets.len(),
            collapsed == collapses(range),
            scores@.len() == i,
            forall|j: int|
                0 <= j < i ==> #[trigger] scores@[j] == anomaly_score(range, offsets@[j], quotients@[j]),
        decreases offsets.len() - i,
    {
        if collapsed {
            scores.push(ZERO);
        } else {
            scores.push(limit_to_unit(safe_divide(offsets[i], range, quotients[i], ZERO)));
        }
        i += 1;
    }
    scores
}

/// Anomaly scores lie in the unit interval, whatever the batch and whatever
/// the arithmetic handed in.
pub proof fn anomaly_score_in_unit_interval(range: u64, offset: u64, quotient: u64)
    ensures
        in_unit_interval(anomaly_score(range, offset, quotient)),
{
}

/// As numbers: every anomaly score is finite and lies between zero and one.
pub proof fn anomaly_score_lies_between_zero_and_one(range: u64, offset: u64, quotient: u64)
    ensures
        finite(anomaly_score(range, offset, quotient)),
        0 <= scaled_value(anomaly_score(range, offset, quotient)) <= scaled_value(ONE),
{
    let score = anomaly_score(range, offset, quotient);
    key_order_is_value_order(ZERO, score);
    key_order_is_value_order(score, ONE);
    key_order_is_value_order(ONE, score);
}

/// The anomaly scores of a batch are decided by its range, offsets and
/// quotients: scoring the same batch again gives the same patterns.
pub proof fn batch_scores_are_repeatable(
    range: u64,
    offsets: Seq<u64>,
    quotients: Seq<u64>,
    first: Seq<u64>,
    second: Seq<u64>,
)
    requires
        are_batch_scores(range, offsets, quotients, first),
        are_batch_scores(range, offsets, quotients, second),
    ensures
        first == second,
{
    assert(first =~= second);
}

} // verus!
