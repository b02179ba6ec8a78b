//! What a labelled training set must satisfy before a classifier is fitted.

use crate::error::FrError;
use crate::matrix::Matrix;
use vstd::prelude::*;
use vstd::string::*;

verus! {

/// One class label per reference row.
pub type Labels = Vec<usize>;

/// `n` is the number of classes of the labels `y`: one more than the largest
/// label. Labels that no row carries still count as classes.
pub open spec fn is_class_count(y: Seq<usize>, n: nat) -> bool {
    &&& forall|i: int| 0 <= i < y.len() ==> (#[trigger] y[i]) < n
    &&& exists|i: int| 0 <= i < y.len() && (#[trigger] y[i]) + 1 == n
}

/// No label is so large that the number of classes cannot be counted.
pub open spec fn countable(y: Seq<usize>) -> bool {
    forall|i: int| 0 <= i < y.len() ==> (#[trigger] y[i]) < usize::MAX
}

/// The reason given for a neighbour count of zero.
pub open spec fn zero_k_reason() -> Seq<char> {
    "k must be at least 1"@
}

/// The number of classes of a label vector, if it has a label.
pub fn class_count(y: &Vec<usize>) -> (n: Option<usize>)
    requires
        countable(y@),
    ensures
        n is Some <==> y.len() > 0,
        n is Some ==> is_class_count(y@, n->Some_0 as nat),
{
    if y.len() == 0 {
        return None;
    }
    let mut largest: usize = y[0];
    let mut i: usize = 1;
    while i < y.len()
        invariant
            1 <= i <= y.len(),
            forall|j: int| 0 <= j < i ==> (#[trigger] y@[j]) <= largest,
            exists|j: int| 0 <= j < i && (#[trigger] y@[j]) == largest,
        decreases y.len() - i,
    {
        if y[i] > largest {
            largest = y[i];
        }
        i += 1;
    }
    proof {
        let witness = choose|j: int| 0 <= j < y.len() && (#[trigger] y@[j]) == largest;
        assert(y@[witness] + 1 == largest + 1);
    }
    Some(largest + 1)
}

/// The training set can be fitted with `k` neighbours: the matrix has rows
/// and columns, `k` is at least 1, and there is one label per row.
pub open spec fn fits_training(x: &Matrix, y: Seq<usize>, k: usize) -> bool {
    x.rows() > 0 && x.cols() > 0 && k >= 1 && y.len() == x.rows()
}

/// `e` is the error that a training set is rejected with. An empty matrix is
/// looked at first, then `k`, then the number of labels.
pub open spec fn is_training_error(x: &Matrix, y: Seq<usize>, k: usize, e: FrError) -> bool {
    if x.rows() == 0 || x.cols() == 0 {
        e == FrError::EmptyInput
    } else if k == 0 {
        e.is_invalid_input(zero_k_reason())
    } else {
        y.len() != x.rows() && e == (FrError::LabelLengthMismatch {
            expected: x.rows() as usize,
            found: y.len() as usize,
        })
    }
}

/// Checks a training set and counts its classes.
pub fn check_training_set(x: &Matrix, y: &Vec<usize>, k: usize) -> (r: Result<usize, FrError>)
    requires
        countable(y@),
    ensures
        r is Ok <==> fits_training(x, y@, k),
        r matches Ok(n) ==> is_class_count(y@, n as nat),
        r matches Err(e) ==> is_training_error(x, y@, k, e),
{
    if x.nrows() == 0 || x.ncols() == 0 {
        return Err(FrError::EmptyInput);
    }
    if k == 0 {
        return Err(FrError::InvalidInput(String::from_str("k must be at least 1")));
    }
    if y.len() != x.nrows() {
        return Err(FrError::LabelLengthMismatch { expected: x.nrows(), found: y.len() });
    }
    match class_count(y) {
        Some(n) => Ok(n),
        // not reached: the matrix has rows, and there is a label for each
        None => Err(FrError::InvalidInput(String::from_str("labels cannot be empty"))),
    }
}

/// The class labels of the neighbours that a query returned: the cell at
/// `[q, p]` holds the label of the reference row whose number `indices` holds
/// there.
pub fn neighbor_labels(y_train: &Vec<usize>, indices: &Matrix) -> (labels: Matrix)
    requires
        forall|q: int, p: int|
            0 <= q < indices.rows() && 0 <= p < indices.cols() ==> (#[trigger] indices.at(q, p)) < y_train.len(),
    ensures
        labels.rows() == indices.rows(),
        labels.cols() == indices.cols(),
        forall|q: int, p: int|
            0 <= q < indices.rows() && 0 <= p < indices.cols() ==> #[trigger] labels.at(q, p) == y_train@[indices.at(
                q,
                p,
            ) as int],
{
    let rows = indices.nrows();
    let cols = indices.ncols();
    let mut labels = indices.clone();
    let mut q: usize = 0;
    while q < rows
        invariant
            rows == indices.rows(),
            cols == indices.cols(),
            labels.rows() == rows,
            labels.cols() == cols,
            q <= rows,
            forall|a: int, b: int|
                0 <= a < indices.rows() && 0 <= b < indices.cols() ==> (#[trigger] indices.at(a, b))
                    < y_train.len(),
            forall|a: int, b: int|
                0 <= a < q && 0 <= b < cols ==> #[trigger] labels.at(a, b) == y_train@[indices.at(a, b) as int],
        decreases rows - q,
    {
        let mut p: usize = 0;
        while p < cols
            invariant
                rows == indices.rows(),
                cols == indices.cols(),
                labels.rows() == rows,
                labels.cols() == cols,
                q < rows,
                p <= cols,
                forall|a: int, b: int|
                    0 <= a < indices.rows() && 0 <= b < indices.cols() ==> (#[trigger] indices.at(a, b))
                        < y_train.len(),
                forall|a: int, b: int|
                    0 <= a < q && 0 <= b < cols ==> #[trigger] labels.at(a, b) == y_train@[indices.at(a, b) as int],
                forall|b: int|
                    0 <= b < p ==> #[trigger] labels.at(q as int, b) == y_train@[indices.at(q as int, b) as int],
            decreases cols - p,
        {
            let t = indices.get(q, p);
            labels.set(q, p, y_train[t as usize] as u64);
            p += 1;
        }
        q += 1;
    }
    labels
}

} // verus!
