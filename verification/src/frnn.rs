//! The fuzzy-rough nearest-neighbour classifier.
//!
//! For a query row and a class, the upper approximation is the largest
//! similarity among the neighbours of that class, and the lower approximation
//! is what the minimum t-norm leaves of 1 after it has met the complement of
//! the similarity of every neighbour of another class. Both only compare, so
//! both are decided here from the similarities and complements that the
//! caller has rounded.

use crate::bruteforce::BruteForceIndex;
use crate::distance::Metric;
use crate::error::FrError;
use crate::ieee::{at_most, finite, in_unit_interval, is_finite, is_less, larger, less, maximum, nan, ONE, ZERO};
use crate::matrix::{shape_fits, Matrix};
use crate::t_norms::{min_t_norm_of, min_t_norm_scalar};
use crate::training::{
    check_training_set, countable, fits_training, is_class_count, is_training_error, neighbor_labels,
};
use crate::transformations::{clamp01, clamped};
use vstd::prelude::*;

verus! {

/// The settings of the fuzzy-rough nearest-neighbour classifier.
#[derive(Debug, Clone, Copy)]
#[allow(clippy::upper_case_acronyms)]
pub struct FRNN {
    /// How many neighbours are looked at.
    pub k: usize,
    /// The metric that neighbours are found in.
    pub metric: Metric,
}

impl Default for FRNN {
    /// Five neighbours, Euclidean distance.
    fn default() -> (r: Self)
        ensures
            r.k == 5,
            r.metric == Metric::Euclidean,
    {
        Self { k: 5, metric: Metric::Euclidean }
    }
}

/// A fitted fuzzy-rough nearest-neighbour classifier.
#[derive(Debug, Clone)]
#[allow(clippy::upper_case_acronyms)]
pub struct FRNNModel {
    pub x_train: Matrix,
    pub y_train: Vec<usize>,
    pub index: BruteForceIndex,
    pub n_classes: usize,
    pub k: usize,
}

/// How similar a neighbour at `distance` is: not at all where the distance is
/// negative, infinite or a NaN, and otherwise the reciprocal of one plus the
/// distance, brought into the unit interval.
pub open spec fn similarity(distance: u64, reciprocal: u64) -> u64 {
    if !finite(distance) || less(distance, ZERO) {
        ZERO
    } else {
        clamped(reciprocal)
    }
}

/// The similarity of a neighbour. `reciprocal` is the rounded reciprocal of
/// one plus `distance`, which the caller has taken.
pub fn similarity_from_distance(distance: u64, reciprocal: u64) -> (r: u64)
    ensures
        r == similarity(distance, reciprocal),
        in_unit_interval(r),
{
    if !is_finite(distance) || is_less(distance, ZERO) {
        return ZERO;
    }
    clamp01(reciprocal)
}

/// The upper approximation of `class` after the first `n` neighbours: 0, made
/// larger by the similarity of each neighbour of that class.
pub open spec fn upper_approximation(labels: Seq<u64>, similarities: Seq<u64>, class: int, n: nat) -> u64
    decreases n,
{
    if n == 0 {
        ZERO
    } else {
        let so_far = upper_approximation(labels, similarities, class, (n - 1) as nat);
        if labels[n - 1] == class {
            larger(so_far, similarities[n - 1])
        } else {
            so_far
        }
    }
}

/// The lower approximation of `class` after the first `n` neighbours: 1,
/// combined by the minimum t-norm with the complement of each neighbour of
/// another class.
pub open spec fn lower_approximation(labels: Seq<u64>, complements: Seq<u64>, class: int, n: nat) -> u64
    decreases n,
{
    if n == 0 {
        ONE
    } else {
        let so_far = lower_approximation(labels, complements, class, (n - 1) as nat);
        if labels[n - 1] != class {
            min_t_norm_of(so_far, complements[n - 1])
        } else {
            so_far
        }
    }
}

/// The upper approximation is no smaller than the similarity of any
/// neighbour of the class, and it is 0 or one of those similarities.
pub proof fn upper_approximation_is_maximum(labels: Seq<u64>, similarities: Seq<u64>, class: int, n: nat)
    requires
        n <= labels.len(),
        n <= similarities.len(),
        forall|p: int| 0 <= p < n ==> !nan(#[trigger] similarities[p]),
    ensures
        !nan(upper_approximation(labels, similarities, class, n)),
        forall|p: int|
            0 <= p < n && labels[p] == class ==> at_most(
                #[trigger] similarities[p],
                upper_approximation(labels, similarities, class, n),
            ),
        upper_approximation(labels, similarities, class, n) == ZERO || exists|p: int|
            0 <= p < n && labels[p] == class && #[trigger] similarities[p] == upper_approximation(
                labels,
                similarities,
                class,
                n,
            ),
    decreases n,
{
    if n > 0 {
        upper_approximation_is_maximum(labels, similarities, class, (n - 1) as nat);
        let so_far = upper_approximation(labels, similarities, class, (n - 1) as nat);
        let now = upper_approximation(labels, similarities, class, n);
        if labels[n - 1] == class {
            assert(!nan(similarities[n - 1]));
            if now != ZERO {
                if now == similarities[n - 1] {
                    assert(labels[n - 1] == class && similarities[n - 1] == now);
                } else {
                    let w = choose|p: int|
                        0 <= p < n - 1 && labels[p] == class && #[trigger] similarities[p] == so_far;
                    assert(labels[w] == class && similarities[w] == now);
                }
            }
        } else {
            if now != ZERO {
                let w = choose|p: int|
                    0 <= p < n - 1 && labels[p] == class && #[trigger] similarities[p] == so_far;
                assert(labels[w] == class && similarities[w] == now);
            }
        }
    }
}

/// The lower approximation lies in the unit interval and is no larger than
/// the clamped complement of any neighbour of another class.
pub proof fn lower_approximation_is_minimum(labels: Seq<u64>, complements: Seq<u64>, class: int, n: nat)
    requires
        n <= labels.len(),
        n <= complements.len(),
    ensures
        in_unit_interval(lower_approximation(labels, complements, class, n)),
        forall|p: int|
            0 <= p < n && labels[p] != class ==> at_most(
                lower_approximation(labels, complements, class, n),
                clamped(#[trigger] complements[p]),
            ),
    decreases n,
{
    if n > 0 {
        lower_approximation_is_minimum(labels, complements, class, (n - 1) as nat);
    }
}

/// With similarities in the unit interval the upper approximation lies
/// there too.
pub proof fn upper_approximation_in_unit_interval(
    labels: Seq<u64>,
    similarities: Seq<u64>,
    class: int,
    n: nat,
)
    requires
        n <= labels.len(),
        n <= similarities.len(),
        forall|p: int| 0 <= p < n ==> in_unit_interval(#[trigger] similarities[p]),
    ensures
        in_unit_interval(upper_approximation(labels, similarities, class, n)),
    decreases n,
{
    if n > 0 {
        upper_approximation_in_unit_interval(labels, similarities, class, (n - 1) as nat);
    }
}

/// The lower and upper approximation of every class for every query row.
///
/// `labels`, `similarities` and `complements` have one row per query row and
/// one column per neighbour: the neighbour's class, its similarity to the
/// query row, and the complement of that similarity. The two results have
/// one row per query row and one column per class.
pub fn approximations(labels: &Matrix, similarities: &Matrix, complements: &Matrix, n_classes: usize) -> (r: (
    Matrix,
    Matrix,
))
    requires
        similarities.rows() == labels.rows(),
        similarities.cols() == labels.cols(),
        complements.rows() == labels.rows(),
        complements.cols() == labels.cols(),
        shape_fits(labels.rows(), n_classes as nat),
    ensures
        r.0.rows() == labels.rows(),
        r.0.cols() == n_classes,
        r.1.rows() == labels.rows(),
        r.1.cols() == n_classes,
        forall|q: int, c: int|
            0 <= q < labels.rows() && 0 <= c < n_classes ==> #[trigger] r.0.at(q, c) == lower_approximation(
                labels@[q],
                complements@[q],
                c,
                labels.cols(),
            ),
        forall|q: int, c: int|
            0 <= q < labels.rows() && 0 <= c < n_classes ==> #[trigger] r.1.at(q, c) == upper_approximation(
                labels@[q],
                similarities@[q],
                c,
                labels.cols(),
            ),
{
    let n_query = labels.nrows();
    let k = labels.ncols();
    let mut lower = Matrix::zeros(n_query, n_classes);
    let mut upper = Matrix::zeros(n_query, n_classes);
    let mut q: usize = 0;
    while q < n_query
        invariant
            n_query == labels.rows(),
            k == labels.cols(),
            similarities.rows() == labels.rows(),
            similarities.cols() == labels.cols(),
            complements.rows() == labels.rows(),
            complements.cols() == labels.cols(),
            lower.rows() == n_query,
            lower.cols() == n_classes,
            upper.rows() == n_query,
            upper.cols() == n_classes,
            q <= n_query,
            forall|a: int, c: int|
                0 <= a < q && 0 <= c < n_classes ==> #[trigger] lower.at(a, c) == lower_approximation(
                    labels@[a],
                    complements@[a],
                    c,
                    k as nat,
                ),
            forall|a: int, c: int|
                0 <= a < q && 0 <= c < n_classes ==> #[trigger] upper.at(a, c) == upper_approximation(
                    labels@[a],
                    similarities@[a],
                    c,
                    k as nat,
                ),
        decreases n_query - q,
    {
        let mut class: usize = 0;
        while class < n_classes
            invariant
                n_query == labels.rows(),
                k == labels.cols(),
                similarities.rows() == labels.rows(),
                similarities.cols() == labels.cols(),
                complements.rows() == labels.rows(),
                complements.cols() == labels.cols(),
                lower.rows() == n_query,
                lower.cols() == n_classes,
                upper.rows() == n_query,
                upper.cols() == n_classes,
                q < n_query,
                class <= n_classes,
                forall|a: int, c: int|
                    0 <= a < q && 0 <= c < n_classes ==> #[trigger] lower.at(a, c) == lower_approximation(
                        labels@[a],
                        complements@[a],
                        c,
                        k as nat,
                    ),
                forall|a: int, c: int|
                    0 <= a < q && 0 <= c < n_classes ==> #[trigger] upper.at(a, c) == upper_approximation(
                        labels@[a],
                        similarities@[a],
                        c,
                        k as nat,
                    ),
                forall|c: int|
                    0 <= c < class ==> #[trigger] lower.at(q as int, c) == lower_approximation(
                        labels@[q as int],
                        complements@[q as int],
                        c,
                        k as nat,
                    ),
                forall|c: int|
                    0 <= c < class ==> #[trigger] upper.at(q as int, c) == upper_approximation(
                        labels@[q as int],
                        similarities@[q as int],
                        c,
                        k as nat,
                    ),
            decreases n_classes - class,
        {
            let mut upper_now: u64 = ZERO;
            let mut lower_now: u64 = ONE;
            let mut p: usize = 0;
            while p < k
                invariant
                    n_query == labels.rows(),
                    k == labels.cols(),
                    similarities.rows() == labels.rows(),
                    similarities.cols() == labels.cols(),
                    complements.rows() == labels.rows(),
                    complements.cols() == labels.cols(),
                    q < n_query,
                    p <= k,
                    upper_now == upper_approximation(
                        labels@[q as int],
                        similarities@[q as int],
                        class as int,
                        p as nat,
                    ),
                    lower_now == lower_approximation(
                        labels@[q as int],
                        complements@[q as int],
                        class as int,
                        p as nat,
                    ),
                decreases k - p,
            {
                let label = labels.get(q, p);
                assert(label == labels@[q as int][p as int]);
                if label == class as u64 {
                    let s = similarities.get(q, p);
                    assert(s == similarities@[q as int][p as int]);
                    upper_now = maximum(upper_now, s);
                } else {
                    let c = complements.get(q, p);
                    assert(c == complements@[q as int][p as int]);
                    lower_now = min_t_norm_scalar(lower_now, c);
                }
                p += 1;
            }
            lower.set(q, class, lower_now);
            upper.set(q, class, upper_now);
            class += 1;
        }
        q += 1;
    }
    (lower, upper)
}

impl FRNNModel {
    /// What fitting establishes: the model holds the training set as given,
    /// an index over the same rows, the number of classes of the labels and
    /// a neighbour count of at least 1.
    pub open spec fn well_formed(&self) -> bool {
        &&& self.x_train.rows() > 0
        &&& self.x_train.cols() > 0
        &&& self.y_train@.len() == self.x_train.rows()
        &&& self.index.x_train.same_as(&self.x_train)
        &&& is_class_count(self.y_train@, self.n_classes as nat)
        &&& self.k >= 1
    }

    /// The model is what `estimator` makes of the training set `x`, `y`.
    pub open spec fn is_fit_of(&self, estimator: &FRNN, x: &Matrix, y: Seq<usize>) -> bool {
        &&& self.well_formed()
        &&& self.x_train.same_as(x)
        &&& self.y_train@ == y
        &&& self.index.metric == estimator.metric
        &&& self.k == estimator.k
    }

    /// The classes of the neighbours that the model's index returned. Every
    /// class is below the model's number of classes.
    pub fn neighbor_labels(&self, indices: &Matrix) -> (labels: Matrix)
        requires
            self.well_formed(),
            forall|q: int, p: int|
                0 <= q < indices.rows() && 0 <= p < indices.cols() ==> (#[trigger] indices.at(q, p))
                    < self.x_train.rows(),
        ensures
            labels.rows() == indices.rows(),
            labels.cols() == indices.cols(),
            forall|q: int, p: int|
                0 <= q < indices.rows() && 0 <= p < indices.cols() ==> {
                    &&& #[trigger] labels.at(q, p) == self.y_train@[indices.at(q, p) as int]
                    &&& labels.at(q, p) < self.n_classes
                },
    {
        neighbor_labels(&self.y_train, indices)
    }
}

impl FRNN {
    /// Fits the classifier to a training set.
    ///
    /// A matrix without rows or columns is rejected as empty, then a `k` of
    /// zero as invalid, then a label vector that is not as long as the matrix
    /// has rows. Any other training set gives a model that holds copies of
    /// the matrix and the labels, an index over the matrix, and the number
    /// of classes.
    pub fn fit(&self, x: &Matrix, y: &Vec<usize>) -> (r: Result<FRNNModel, FrError>)
        requires
            countable(y@),
        ensures
            r is Ok <==> fits_training(x, y@, self.k),
            r matches Ok(model) ==> model.is_fit_of(self, x, y@),
            r matches Err(e) ==> is_training_error(x, y@, self.k, e),
    {
        let n_classes = match check_training_set(x, y, self.k) {
            Ok(n) => n,
            Err(e) => {
                return Err(e);
            },
        };
        let y_train = y.clone();
        assert(y_train@ =~= y@);
        Ok(
            FRNNModel {
                x_train: x.clone(),
                y_train,
                index: BruteForceIndex::new(x.clone(), self.metric),
                n_classes,
                k: self.k,
            },
        )
    }
}

} // verus!
