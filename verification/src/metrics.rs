//! The counts behind the classification metrics.
//!
//! Accuracy and the F1 score are quotients of the counts made here; the
//! quotients themselves are rounded arithmetic and the caller's.

use crate::matrix::{shape_fits, Matrix};
use vstd::prelude::*;

verus! {

/// How many pairs of a true and a predicted label there are: as many as the
/// shorter of the two lists has labels.
pub open spec fn pairs(y_true: Seq<usize>, y_pred: Seq<usize>) -> nat {
    if y_true.len() <= y_pred.len() {
        y_true.len()
    } else {
        y_pred.len()
    }
}

/// How many of the first `n` pairs have the same label twice.
pub open spec fn correct_among(y_true: Seq<usize>, y_pred: Seq<usize>, n: nat) -> nat
    decreases n,
{
    if n == 0 {
        0
    } else {
        correct_among(y_true, y_pred, (n - 1) as nat) + if y_true[n - 1] == y_pred[n - 1] {
            1nat
        } else {
            0nat
        }
    }
}

/// How many of the first `n` pairs have the true label `t` and the predicted
/// label `p`.
pub open spec fn pair_count(y_true: Seq<usize>, y_pred: Seq<usize>, t: int, p: int, n: nat) -> nat
    decreases n,
{
    if n == 0 {
        0
    } else {
        pair_count(y_true, y_pred, t, p, (n - 1) as nat) + if y_true[n - 1] == t && y_pred[n - 1] == p {
            1nat
        } else {
            0nat
        }
    }
}

/// The largest of the first `n` labels, and 0 of none.
pub open spec fn greatest_label(y: Seq<usize>, n: nat) -> nat
    decreases n,
{
    if n == 0 {
        0
    } else {
        let before = greatest_label(y, (n - 1) as nat);
        if y[n - 1] > before {
            y[n - 1] as nat
        } else {
            before
        }
    }
}

/// The number of classes that a confusion matrix of these labels has: one
/// more than the largest label of either list, and 1 for two empty lists.
pub open spec fn class_span(y_true: Seq<usize>, y_pred: Seq<usize>) -> nat {
    let a = greatest_label(y_true, y_true.len());
    let b = greatest_label(y_pred, y_pred.len());
    if a >= b {
        a + 1
    } else {
        b + 1
    }
}

/// No label is counted past what a prefix holds.
proof fn greatest_label_bounds(y: Seq<usize>, n: nat, i: int)
    requires
        n <= y.len(),
        0 <= i < n,
    ensures
        y[i] <= greatest_label(y, n),
    decreases n,
{
    if i < n - 1 {
        greatest_label_bounds(y, (n - 1) as nat, i);
    }
}

/// The largest label of a list.
fn largest_label(y: &[usize]) -> (r: usize)
    ensures
        r == greatest_label(y@, y@.len()),
{
    let mut largest: usize = 0;
    let mut i: usize = 0;
    while i < y.len()
        invariant
            i <= y.len(),
            largest == greatest_label(y@, i as nat),
        decreases y.len() - i,
    {
        if y[i] > largest {
            largest = y[i];
        }
        i += 1;
    }
    largest
}

/// How many predictions are right: the number of pairs with the same label
/// twice.
pub fn count_correct(y_true: &[usize], y_pred: &[usize]) -> (correct: usize)
    ensures
        correct == correct_among(y_true@, y_pred@, pairs(y_true@, y_pred@)),
        correct <= pairs(y_true@, y_pred@),
{
    let n = if y_true.len() <= y_pred.len() {
        y_true.len()
    } else {
        y_pred.len()
    };
    let mut correct: usize = 0;
    let mut i: usize = 0;
    while i < n
        invariant
            n == pairs(y_true@, y_pred@),
            i <= n,
            correct == correct_among(y_true@, y_pred@, i as nat),
            correct <= i,
        decreases n - i,
    {
        if y_true[i] == y_pred[i] {
            correct += 1;
        }
        i += 1;
    }
    correct
}

/// The confusion matrix of a list of true and a list of predicted labels:
/// the cell at `[t, p]` counts the pairs with true label `t` and predicted
/// label `p`. It has a row and a column for every label up to the largest of
/// either list.
pub fn confusion_matrix(y_true: &[usize], y_pred: &[usize]) -> (m: Matrix)
    requires
        shape_fits(class_span(y_true@, y_pred@), class_span(y_true@, y_pred@)),
    ensures
        m.rows() == class_span(y_true@, y_pred@),
        m.cols() == class_span(y_true@, y_pred@),
        forall|t: int, p: int|
            0 <= t < m.rows() && 0 <= p < m.cols() ==> #[trigger] m.at(t, p) == pair_count(
                y_true@,
                y_pred@,
                t,
                p,
                pairs(y_true@, y_pred@),
            ),
{
    let a = largest_label(y_true);
    let b = largest_label(y_pred);
    let c: usize = if a >= b {
        a + 1
    } else {
        b + 1
    };
    let n = if y_true.len() <= y_pred.len() {
        y_true.len()
    } else {
        y_pred.len()
    };
    let mut m = Matrix::zeros(c, c);
    let mut i: usize = 0;
    while i < n
        invariant
            n == pairs(y_true@, y_pred@),
            c == class_span(y_true@, y_pred@),
            a == greatest_label(y_true@, y_true@.len()),
            b == greatest_label(y_pred@, y_pred@.len()),
            m.rows() == c,
            m.cols() == c,
            i <= n,
            forall|t: int, p: int|
                0 <= t < c && 0 <= p < c ==> #[trigger] m.at(t, p) == pair_count(y_true@, y_pred@, t, p, i as nat),
            forall|t: int, p: int| 0 <= t < c && 0 <= p < c ==> (#[trigger] m.at(t, p)) <= i,
        decreases n - i,
    {
        let t = y_true[i];
        let p = y_pred[i];
        proof {
            greatest_label_bounds(y_true@, y_true@.len(), i as int);
            greatest_label_bounds(y_pred@, y_pred@.len(), i as int);
        }
        let seen = m.get(t, p);
        m.set(t, p, seen + 1);
        i += 1;
    }
    m
}

} // verus!
