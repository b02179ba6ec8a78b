//! The models that a benchmark run fits, by name, and the pass-through
//! selection stages that stand before them.
//!
//! A run never stops at a training set that cannot be fitted: it goes on
//! with a fallback model over a single reference row.

use crate::distance::Metric;
use crate::error::FrError;
use crate::frnn::{FRNNModel, FRNN};
use crate::bruteforce::BruteForceIndex;
use crate::matrix::{narrower_shape_fits, shape_fits, Matrix};
use crate::nn::{NNModel, NN};
use crate::nnd::{NNDModel, NND};
use crate::runner::BackendChoice;
use crate::scoring::{is_chosen_class, select_class};
use crate::training::{countable, fits_training, is_training_error, zero_k_reason};
use vstd::prelude::*;

verus! {

/// The classifiers that a run fits.
#[derive(Copy, Clone, Debug, PartialEq, Eq, Structural)]
#[allow(clippy::upper_case_acronyms)]
pub enum ClassifierKind {
    NN,
    FRNN,
    FRONEC,
    FROVOCO,
}

impl ClassifierKind {
    /// The name of the classifier.
    pub fn as_str(&self) -> (name: &'static str)
        ensures
            name@ == match *self {
                ClassifierKind::NN => "NN"@,
                ClassifierKind::FRNN => "FRNN"@,
                ClassifierKind::FRONEC => "FRONEC"@,
                ClassifierKind::FROVOCO => "FROVOCO"@,
            },
    {
        match self {
            ClassifierKind::NN => "NN",
            ClassifierKind::FRNN => "FRNN",
            ClassifierKind::FRONEC => "FRONEC",
            ClassifierKind::FROVOCO => "FROVOCO",
        }
    }
}

/// Every classifier, in the order a run fits them.
pub fn available_classifiers() -> (kinds: Vec<ClassifierKind>)
    ensures
        kinds@ == seq![
            ClassifierKind::NN,
            ClassifierKind::FRNN,
            ClassifierKind::FRONEC,
            ClassifierKind::FROVOCO,
        ],
{
    let mut kinds: Vec<ClassifierKind> = Vec::new();
    kinds.push(ClassifierKind::NN);
    kinds.push(ClassifierKind::FRNN);
    kinds.push(ClassifierKind::FRONEC);
    kinds.push(ClassifierKind::FROVOCO);
    assert(kinds@ =~= seq![
        ClassifierKind::NN,
        ClassifierKind::FRNN,
        ClassifierKind::FRONEC,
        ClassifierKind::FROVOCO,
    ]);
    kinds
}

/// The novelty descriptors that a run fits.
#[derive(Copy, Clone, Debug, PartialEq, Eq, Structural)]
#[allow(clippy::upper_case_acronyms)]
pub enum DescriptorKind {
    NND,
    LNND,
}

impl DescriptorKind {
    /// The name of the descriptor.
    pub fn as_str(&self) -> (name: &'static str)
        ensures
            name@ == match *self {
                DescriptorKind::NND => "NND"@,
                DescriptorKind::LNND => "LNND"@,
            },
    {
        match self {
            DescriptorKind::NND => "NND",
            DescriptorKind::LNND => "LNND",
        }
    }
}

/// Every descriptor, in the order a run fits them.
pub fn available_descriptors() -> (kinds: Vec<DescriptorKind>)
    ensures
        kinds@ == seq![DescriptorKind::NND, DescriptorKind::LNND],
{
    let mut kinds: Vec<DescriptorKind> = Vec::new();
    kinds.push(DescriptorKind::NND);
    kinds.push(DescriptorKind::LNND);
    assert(kinds@ =~= seq![DescriptorKind::NND, DescriptorKind::LNND]);
    kinds
}

/// A copy of a list of labels.
fn copy_labels(y: &[usize]) -> (copy: Vec<usize>)
    ensures
        copy@ == y@,
{
    let mut copy: Vec<usize> = Vec::new();
    let mut i: usize = 0;
    while i < y.len()
        invariant
            i <= y.len(),
            copy@.len() == i,
            forall|j: int| 0 <= j < i ==> #[trigger] copy@[j] == y@[j],
        decreases y.len() - i,
    {
        copy.push(y[i]);
        i += 1;
    }
    assert(copy@ =~= y@);
    copy
}

/// The feature-selection stage. It keeps every feature.
pub struct Frfs;

/// A fitted feature selection: the columns that are kept, in order.
pub struct FrfsModel {
    pub selected: Vec<usize>,
}

impl Frfs {
    /// Selects every column of the training matrix, in order.
    pub fn fit(&self, x_train: &Matrix, _y_train: &[usize]) -> (model: FrfsModel)
        ensures
            model.selected@.len() == x_train.cols(),
            forall|i: int| 0 <= i < x_train.cols() ==> #[trigger] model.selected@[i] == i,
    {
        let cols = x_train.ncols();
        let mut selected: Vec<usize> = Vec::new();
        let mut i: usize = 0;
        while i < cols
            invariant
                i <= cols,
                selected@.len() == i,
                forall|j: int| 0 <= j < i ==> #[trigger] selected@[j] == j,
            decreases cols - i,
        {
            selected.push(i);
            i += 1;
        }
        FrfsModel { selected }
    }
}

impl FrfsModel {
    /// The matrix of the selected columns of `x`, in the order of the
    /// selection.
    pub fn transform(&self, x: &Matrix) -> (out: Matrix)
        requires
            forall|i: int| 0 <= i < self.selected@.len() ==> (#[trigger] self.selected@[i]) < x.cols(),
            shape_fits(x.rows(), self.selected@.len()),
        ensures
            out.rows() == x.rows(),
            out.cols() == self.selected@.len(),
            forall|r: int, c: int|
                0 <= r < out.rows() && 0 <= c < out.cols() ==> #[trigger] out.at(r, c) == x.at(
                    r,
                    self.selected@[c] as int,
                ),
    {
        let rows = x.nrows();
        let kept = self.selected.len();
        let mut out = Matrix::zeros(rows, kept);
        let mut c: usize = 0;
        while c < kept
            invariant
                rows == x.rows(),
                kept == self.selected@.len(),
                out.rows() == rows,
                out.cols() == kept,
                c <= kept,
                forall|i: int| 0 <= i < self.selected@.len() ==> (#[trigger] self.selected@[i]) < x.cols(),
                forall|a: int, b: int|
                    0 <= a < rows && 0 <= b < c ==> #[trigger] out.at(a, b) == x.at(a, self.selected@[b] as int),
            decreases kept - c,
        {
            let from = self.selected[c];
            let mut r: usize = 0;
            while r < rows
                invariant
                    rows == x.rows(),
                    kept == self.selected@.len(),
                    out.rows() == rows,
                    out.cols() == kept,
                    c < kept,
                    r <= rows,
                    from == self.selected@[c as int],
                    from < x.cols(),
                    forall|a: int, b: int|
                        0 <= a < rows && 0 <= b < c ==> #[trigger] out.at(a, b) == x.at(
                            a,
                            self.selected@[b] as int,
                        ),
                    forall|a: int| 0 <= a < r ==> #[trigger] out.at(a, c as int) == x.at(a, from as int),
                decreases rows - r,
            {
                out.set(r, c, x.get(r, from));
                r += 1;
            }
            c += 1;
        }
        out
    }

    /// The columns that are kept.
    pub fn selected_features(&self) -> (selected: Vec<usize>)
        ensures
            selected@ == self.selected@,
    {
        let selected = self.selected.clone();
        assert(selected@ =~= self.selected@);
        selected
    }
}

/// Runs the feature selection on a training and a test matrix: both come
/// back with the columns of the training matrix, and with them the list of
/// those columns.
pub fn fit_apply_frfs(x_train: &Matrix, y_train: &[usize], x_test: &Matrix) -> (r: (Matrix, Matrix, Vec<usize>))
    requires
        x_train.cols() <= x_test.cols(),
    ensures
        r.0.same_as(x_train),
        r.1.rows() == x_test.rows(),
        r.1.cols() == x_train.cols(),
        forall|i: int, j: int|
            0 <= i < x_test.rows() && 0 <= j < x_train.cols() ==> #[trigger] r.1.at(i, j) == x_test.at(i, j),
        r.2@.len() == x_train.cols(),
        forall|j: int| 0 <= j < x_train.cols() ==> #[trigger] r.2@[j] == j,
{
    let frfs = Frfs;
    let model = frfs.fit(x_train, y_train);
    let train_rows = x_train.nrows();
    let test_rows = x_test.nrows();
    proof {
        narrower_shape_fits(x_test.rows(), x_test.cols(), x_train.cols());
    }
    let x_train_s = model.transform(x_train);
    let x_test_s = model.transform(x_test);
    let selected = model.selected_features();
    (x_train_s, x_test_s, selected)
}

/// The prototype-selection stage. It keeps every row.
pub struct Frps;

/// A fitted prototype selection.
pub struct FrpsModel;

impl Frps {
    /// Fits the stage, which learns nothing from the training set.
    pub fn fit(&self, _x_train: &Matrix, _y_train: &[usize]) -> (model: FrpsModel) {
        FrpsModel
    }
}

impl FrpsModel {
    /// The training set with the selected rows: all of them.
    pub fn transform_dataset(&self, x_train: &Matrix, y_train: &[usize]) -> (r: (Matrix, Vec<usize>))
        ensures
            r.0.same_as(x_train),
            r.1@ == y_train@,
    {
        (x_train.clone(), copy_labels(y_train))
    }
}

/// Runs the prototype selection on a training set, which comes back as it
/// went in.
pub fn fit_apply_frps(x_train: &Matrix, y_train: &[usize]) -> (r: (Matrix, Vec<usize>))
    ensures
        r.0.same_as(x_train),
        r.1@ == y_train@,
{
    let frps = Frps;
    let model = frps.fit(x_train, y_train);
    model.transform_dataset(x_train, y_train)
}

/// The FRONEC classifier, which scores as the fuzzy-rough nearest-neighbour
/// classifier does.
pub struct Fronec {
    pub inner: FRNN,
}

/// The FROVOCO classifier, which scores as the fuzzy-rough nearest-neighbour
/// classifier does.
pub struct Frovoco {
    pub inner: FRNN,
}

/// The localised novelty descriptor, which scores as the nearest-neighbour
/// descriptor does.
pub struct Lnnd {
    pub inner: NND,
}

/// `text` is what a training set is rejected with, as a message.
pub open spec fn is_training_complaint(x: &Matrix, y: Seq<usize>, k: usize, text: Seq<char>) -> bool {
    exists|e: FrError| is_training_error(x, y, k, e) && text == #[trigger] e.message_text()
}

impl Fronec {
    /// A classifier with the given neighbour count and metric.
    pub fn new(k: usize, metric: Metric) -> (r: Self)
        ensures
            r.inner.k == k,
            r.inner.metric == metric,
    {
        Self { inner: FRNN { k, metric } }
    }

    /// Fits the classifier as the fuzzy-rough nearest-neighbour classifier
    /// is fitted, and reports a rejected training set by its message.
    pub fn fit(&self, x_train: &Matrix, y_train: &[usize]) -> (r: Result<FRNNModel, String>)
        requires
            countable(y_train@),
        ensures
            r is Ok <==> fits_training(x_train, y_train@, self.inner.k),
            r matches Ok(model) ==> model.is_fit_of(&self.inner, x_train, y_train@),
            r matches Err(text) ==> is_training_complaint(x_train, y_train@, self.inner.k, text@),
    {
        let labels = copy_labels(y_train);
        match self.inner.fit(x_train, &labels) {
            Ok(model) => Ok(model),
            Err(e) => Err(e.message()),
        }
    }
}

impl Frovoco {
    /// A classifier with the given neighbour count and metric.
    pub fn new(k: usize, metric: Metric) -> (r: Self)
        ensures
            r.inner.k == k,
            r.inner.metric == metric,
    {
        Self { inner: FRNN { k, metric } }
    }

    /// Fits the classifier as the fuzzy-rough nearest-neighbour classifier
    /// is fitted, and reports a rejected training set by its message.
    pub fn fit(&self, x_train: &Matrix, y_train: &[usize]) -> (r: Result<FRNNModel, String>)
        requires
            countable(y_train@),
        ensures
            r is Ok <==> fits_training(x_train, y_train@, self.inner.k),
            r matches Ok(model) ==> model.is_fit_of(&self.inner, x_train, y_train@),
            r matches Err(text) ==> is_training_complaint(x_train, y_train@, self.inner.k, text@),
    {
        let labels = copy_labels(y_train);
        match self.inner.fit(x_train, &labels) {
            Ok(model) => Ok(model),
            Err(e) => Err(e.message()),
        }
    }
}

impl Lnnd {
    /// A descriptor with the given neighbour count and metric.
    pub fn new(k: usize, metric: Metric) -> (r: Self)
        ensures
            r.inner.k == k,
            r.inner.metric == metric,
    {
        Self { inner: NND { k, metric } }
    }

    /// Fits the descriptor as the nearest-neighbour descriptor is fitted,
    /// and reports a rejected matrix by its message.
    pub fn fit(&self, x_inlier: &Matrix) -> (r: Result<NNDModel, String>)
        ensures
            r is Ok <==> x_inlier.rows() > 0 && x_inlier.cols() > 0 && self.inner.k >= 1,
            r matches Ok(model) ==> {
                &&& model.well_formed()
                &&& model.x_inlier.same_as(x_inlier)
                &&& model.k == self.inner.k
                &&& model.metric == self.inner.metric
            },
            r matches Err(text) ==> text@ == if x_inlier.rows() == 0 || x_inlier.cols() == 0 {
                FrError::EmptyInput.message_text()
            } else {
                "invalid input: "@ + zero_k_reason()
            },
    {
        match self.inner.fit(x_inlier) {
            Ok(model) => Ok(model),
            Err(e) => Err(e.message()),
        }
    }
}

/// A matrix is the single reference row that fallback models stand on: one
/// cell, holding zero.
pub open spec fn is_single_zero(m: &Matrix) -> bool {
    m.rows() == 1 && m.cols() == 1 && m.at(0, 0) == 0
}

/// The single reference row that fallback models stand on.
fn single_zero() -> (m: Matrix)
    ensures
        is_single_zero(&m),
{
    Matrix::zeros(1, 1)
}

/// The nearest-neighbour model that stands in where fitting fails: one
/// reference row, one class, one neighbour.
pub fn fallback_nn_model(metric: Metric) -> (model: NNModel)
    ensures
        model.well_formed(),
        is_single_zero(&model.x_train),
        model.y_train@ == seq![0usize],
        model.index.metric == metric,
        model.n_classes == 1,
        model.k == 1,
{
    let x_train = single_zero();
    let mut y_train: Vec<usize> = Vec::new();
    y_train.push(0);
    assert(y_train@ =~= seq![0usize]);
    assert(y_train@[0] + 1 == 1);
    NNModel { x_train: x_train.clone(), y_train, index: BruteForceIndex::new(x_train, metric), n_classes: 1, k: 1 }
}

/// The fuzzy-rough model that stands in where fitting fails: one reference
/// row, one class, one neighbour.
pub fn fallback_frnn_model(metric: Metric) -> (model: FRNNModel)
    ensures
        model.well_formed(),
        is_single_zero(&model.x_train),
        model.y_train@ == seq![0usize],
        model.index.metric == metric,
        model.n_classes == 1,
        model.k == 1,
{
    let x_train = single_zero();
    let mut y_train: Vec<usize> = Vec::new();
    y_train.push(0);
    assert(y_train@ =~= seq![0usize]);
    assert(y_train@[0] + 1 == 1);
    FRNNModel { x_train: x_train.clone(), y_train, index: BruteForceIndex::new(x_train, metric), n_classes: 1, k: 1 }
}

/// The novelty model that stands in where fitting fails: one inlier, one
/// neighbour.
pub fn fallback_nnd_model(metric: Metric) -> (model: NNDModel)
    ensures
        model.well_formed(),
        is_single_zero(&model.x_inlier),
        model.metric == metric,
        model.k == 1,
{
    let x_train = single_zero();
    NNDModel { x_inlier: x_train.clone(), index: BruteForceIndex::new(x_train, metric), k: 1, metric }
}

/// A fitted classifier of one of the two kinds of model.
pub enum FittedClassifier {
    /// A nearest-neighbour model.
    Voting(NNModel),
    /// A fuzzy-rough model.
    FuzzyRough(FRNNModel),
}

impl FittedClassifier {
    /// The model is well-formed, whichever kind it is.
    pub open spec fn well_formed(&self) -> bool {
        match self {
            FittedClassifier::Voting(model) => model.well_formed(),
            FittedClassifier::FuzzyRough(model) => model.well_formed(),
        }
    }
}

/// Fits the classifier of the given kind with Euclidean distance. Where the
/// training set is rejected the fallback model of that kind is the result.
/// The nearest-neighbour kind gives a nearest-neighbour model, every other
/// kind a fuzzy-rough one.
pub fn fit_classifier(
    kind: ClassifierKind,
    backend: BackendChoice,
    k: usize,
    x_train: &Matrix,
    y_train: &[usize],
) -> (fitted: FittedClassifier)
    requires
        countable(y_train@),
    ensures
        fitted.well_formed(),
        kind == ClassifierKind::NN <==> fitted is Voting,
        kind != ClassifierKind::NN <==> fitted is FuzzyRough,
        fitted matches FittedClassifier::Voting(model) ==> model.index.metric == Metric::Euclidean && if fits_training(
            x_train,
            y_train@,
            k,
        ) {
            model.is_fit_of(&NN { k, metric: Metric::Euclidean }, x_train, y_train@)
        } else {
            is_single_zero(&model.x_train) && model.y_train@ == seq![0usize] && model.n_classes == 1 && model.k == 1
        },
        fitted matches FittedClassifier::FuzzyRough(model) ==> model.index.metric == Metric::Euclidean
            && if fits_training(x_train, y_train@, k) {
            model.is_fit_of(&FRNN { k, metric: Metric::Euclidean }, x_train, y_train@)
        } else {
            is_single_zero(&model.x_train) && model.y_train@ == seq![0usize] && model.n_classes == 1 && model.k == 1
        },
{
    let metric = Metric::Euclidean;
    let labels = copy_labels(y_train);
    match kind {
        ClassifierKind::NN => {
            let est = NN { k, metric };
            let model = match est.fit(x_train, &labels) {
                Ok(model) => model,
                Err(_) => fallback_nn_model(metric),
            };
            FittedClassifier::Voting(model)
        },
        ClassifierKind::FRNN => {
            let est = FRNN { k, metric };
            let model = match est.fit(x_train, &labels) {
                Ok(model) => model,
                Err(_) => fallback_frnn_model(metric),
            };
            FittedClassifier::FuzzyRough(model)
        },
        ClassifierKind::FRONEC => {
            let est = Fronec::new(k, metric);
            let model = match est.fit(x_train, y_train) {
                Ok(model) => model,
                Err(_) => fallback_frnn_model(metric),
            };
            FittedClassifier::FuzzyRough(model)
        },
        ClassifierKind::FROVOCO => {
            let est = Frovoco::new(k, metric);
            let model = match est.fit(x_train, y_train) {
                Ok(model) => model,
                Err(_) => fallback_frnn_model(metric),
            };
            FittedClassifier::FuzzyRough(model)
        },
    }
}

/// Fits the descriptor of the given kind with Euclidean distance. Where the
/// inliers are rejected the fallback model is the result.
pub fn fit_descriptor(kind: DescriptorKind, backend: BackendChoice, k: usize, x_inlier: &Matrix) -> (model: NNDModel)
    ensures
        model.well_formed(),
        model.metric == Metric::Euclidean,
        if x_inlier.rows() > 0 && x_inlier.cols() > 0 && k >= 1 {
            model.x_inlier.same_as(x_inlier) && model.k == k
        } else {
            is_single_zero(&model.x_inlier) && model.k == 1
        },
{
    let metric = Metric::Euclidean;
    match kind {
        DescriptorKind::NND => {
            let est = NND { k, metric };
            match est.fit(x_inlier) {
                Ok(model) => model,
                Err(_) => fallback_nnd_model(metric),
            }
        },
        DescriptorKind::LNND => {
            let est = Lnnd::new(k, metric);
            match est.fit(x_inlier) {
                Ok(model) => model,
                Err(_) => fallback_nnd_model(metric),
            }
        },
    }
}

/// Chooses a class for every row of a score matrix, as `select_class` does.
pub fn select_class_from_scores(scores: &Matrix) -> (labels: Vec<usize>)
    ensures
        labels@.len() == scores.rows(),
        forall|r: int| 0 <= r < scores.rows() ==> is_chosen_class(scores@[r], #[trigger] labels@[r] as int),
{
    select_class(scores)
}

} // verus!
