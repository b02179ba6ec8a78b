//! The nearest-neighbour classifier: each of the `k` nearest reference rows
//! votes for its class with a weight that falls with its distance.
//!
//! Fitting and the step from neighbours to their classes are decided here;
//! the weights and their sums are rounded arithmetic and the caller's.

use crate::bruteforce::BruteForceIndex;
use crate::distance::Metric;
use crate::error::FrError;
use crate::ieee::{at_most, is_at_most, ONE, ZERO};
use crate::matrix::Matrix;
use crate::training::{
    check_training_set, countable, fits_training, is_class_count, is_training_error, neighbor_labels,
};
use vstd::prelude::*;

verus! {

/// The settings of the nearest-neighbour classifier.
#[derive(Debug, Clone, Copy)]
#[allow(clippy::upper_case_acronyms)]
pub struct NN {
    /// How many neighbours vote.
    pub k: usize,
    /// The metric that neighbours are found in.
    pub metric: Metric,
}

impl Default for NN {
    /// One neighbour, Euclidean distance.
    fn default() -> (r: Self)
        ensures
            r.k == 1,
            r.metric == Metric::Euclidean,
    {
        Self { k: 1, metric: Metric::Euclidean }
    }
}

/// A fitted nearest-neighbour classifier.
#[derive(Debug, Clone)]
#[allow(clippy::upper_case_acronyms)]
pub struct NNModel {
    pub x_train: Matrix,
    pub y_train: Vec<usize>,
    pub index: BruteForceIndex,
    pub n_classes: usize,
    pub k: usize,
}

impl NNModel {
    /// What fitting establishes: the model holds the training set as given,
    /// an index over the same rows, the number of classes of the labels and
    /// a neighbour count of at least 1.
    pub open spec fn well_formed(&self) -> bool {
        &&& self.x_train.rows() > 0
        &&& self.x_train.cols() > 0
        &&& self.y_train@.len() == self.x_train.rows()
        &&& self.index.x_train.same_as(&self.x_train)
        &&& is_class_count(self.y_train@, self.n_classes as nat)
        &&& self.k >= 1
    }

    /// The model is what `estimator` makes of the training set `x`, `y`.
    pub open spec fn is_fit_of(&self, estimator: &NN, x: &Matrix, y: Seq<usize>) -> bool {
        &&& self.well_formed()
        &&& self.x_train.same_as(x)
        &&& self.y_train@ == y
        &&& self.index.metric == estimator.metric
        &&& self.k == estimator.k
    }

    /// The classes of the neighbours that the model's index returned. Every
    /// class is below the model's number of classes.
    pub fn neighbor_labels(&self, indices: &Matrix) -> (labels: Matrix)
        requires
            self.well_formed(),
            forall|q: int, p: int|
                0 <= q < indices.rows() && 0 <= p < indices.cols() ==> (#[trigger] indices.at(q, p))
                    < self.x_train.rows(),
        ensures
            labels.rows() == indices.rows(),
            labels.cols() == indices.cols(),
            forall|q: int, p: int|
                0 <= q < indices.rows() && 0 <= p < indices.cols() ==> {
                    &&& #[trigger] labels.at(q, p) == self.y_train@[indices.at(q, p) as int]
                    &&& labels.at(q, p) < self.n_classes
                },
    {
        neighbor_labels(&self.y_train, indices)
    }
}

/// The weight of a neighbour's vote: 1 for a neighbour at distance zero or
/// below, and otherwise the reciprocal of one plus its distance.
pub open spec fn vote_weight(distance: u64, reciprocal: u64) -> u64 {
    if at_most(distance, ZERO) {
        ONE
    } else {
        reciprocal
    }
}

/// The weight of a neighbour's vote. `reciprocal` is the rounded reciprocal
/// of one plus `distance`, which the caller has taken.
pub fn weight(distance: u64, reciprocal: u64) -> (r: u64)
    ensures
        r == vote_weight(distance, reciprocal),
{
    if is_at_most(distance, ZERO) {
        ONE
    } else {
        reciprocal
    }
}

impl NN {
    /// Fits the classifier to a training set.
    ///
    /// A matrix without rows or columns is rejected as empty, then a `k` of
    /// zero as invalid, then a label vector that is not as long as the matrix
    /// has rows. Any other training set gives a model that holds copies of
    /// the matrix and the labels, an index over the matrix, and the number
    /// of classes.
    pub fn fit(&self, x: &Matrix, y: &Vec<usize>) -> (r: Result<NNModel, FrError>)
        requires
            countable(y@),
        ensures
            r is Ok <==> fits_training(x, y@, self.k),
            r matches Ok(model) ==> model.is_fit_of(self, x, y@),
            r matches Err(e) ==> is_training_error(x, y@, self.k, e),
    {
        let n_classes = match check_training_set(x, y, self.k) {
            Ok(n) => n,
            Err(e) => {
                return Err(e);
            },
        };
        let y_train = y.clone();
        assert(y_train@ =~= y@);
        Ok(
            NNModel {
                x_train: x.clone(),
                y_train,
                index: BruteForceIndex::new(x.clone(), self.metric),
                n_classes,
                k: self.k,
            },
        )
    }
}

} // verus!
