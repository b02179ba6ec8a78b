//! From a score matrix to predicted classes, and the rule by which a row of
//! scores becomes a row of probabilities.
//!
//! The probabilities themselves are quotients and exponentials, which the
//! caller rounds; which of them a row gets is decided here.

use crate::ieee::{
    finite, is_finite, is_less, key_order_is_value_order, larger, less, maximum, numeric_key, scaled_value,
    NEG_INFINITY, ZERO,
};
use crate::matrix::Matrix;
use vstd::prelude::*;

verus! {

/// Some cell of the row holds a finite number.
pub open spec fn has_finite(row: Seq<u64>) -> bool {
    exists|j: int| 0 <= j < row.len() && finite(#[trigger] row[j])
}

/// `c` is the class chosen for a row of scores: the smallest index whose
/// score is the largest of the row's finite scores, and 0 for a row without
/// a finite score.
pub open spec fn is_chosen_class(row: Seq<u64>, c: int) -> bool {
    if has_finite(row) {
        &&& 0 <= c < row.len()
        &&& finite(row[c])
        &&& forall|j: int| 0 <= j < row.len() && finite(#[trigger] row[j]) ==> numeric_key(row[j]) <= numeric_key(row[c])
        &&& forall|j: int| 0 <= j < c && finite(#[trigger] row[j]) ==> numeric_key(row[j]) < numeric_key(row[c])
    } else {
        c == 0
    }
}

/// The class chosen for row `r` of a score matrix.
fn select_class_of_row(scores: &Matrix, r: usize) -> (c: usize)
    requires
        r < scores.rows(),
    ensures
        is_chosen_class(scores@[r as int], c as int),
{
    let cols = scores.ncols();
    let ghost row = scores@[r as int];
    let mut best_idx: usize = 0;
    let mut best_value: u64 = 0;
    let mut found = false;
    let mut j: usize = 0;
    while j < cols
        invariant
            r < scores.rows(),
            cols == scores.cols(),
            row == scores@[r as int],
            row.len() == cols,
            j <= cols,
            !found ==> best_idx == 0 && forall|i: int| 0 <= i < j ==> !finite(#[trigger] row[i]),
            found ==> {
                &&& best_idx < j
                &&& best_value == row[best_idx as int]
                &&& finite(best_value)
                &&& forall|i: int|
                    0 <= i < j && finite(#[trigger] row[i]) ==> numeric_key(row[i]) <= numeric_key(best_value)
                &&& forall|i: int|
                    0 <= i < best_idx && finite(#[trigger] row[i]) ==> numeric_key(row[i]) < numeric_key(
                        best_value,
                    )
            },
        decreases cols - j,
    {
        let value = scores.get(r, j);
        assert(value == row[j as int]);
        if is_finite(value) && (!found || is_less(best_value, value)) {
            best_value = value;
            best_idx = j;
            found = true;
        }
        j += 1;
    }
    proof {
        if found {
            assert(finite(row[best_idx as int]));
        }
    }
    best_idx
}

/// Chooses a class for every row of a score matrix: the column of the row's
/// largest finite score, the first such column where several hold it, and
/// column 0 where no score of the row is finite or the matrix has no columns.
pub fn select_class(scores: &Matrix) -> (labels: Vec<usize>)
    ensures
        labels@.len() == scores.rows(),
        forall|r: int| 0 <= r < scores.rows() ==> is_chosen_class(scores@[r], #[trigger] labels@[r] as int),
{
    let rows = scores.nrows();
    let mut labels: Vec<usize> = Vec::new();
    let mut r: usize = 0;
    while r < rows
        invariant
            rows == scores.rows(),
            r <= rows,
            labels@.len() == r,
            forall|a: int| 0 <= a < r ==> is_chosen_class(scores@[a], #[trigger] labels@[a] as int),
        decreases rows - r,
    {
        let c = select_class_of_row(scores, r);
        labels.push(c);
        r += 1;
    }
    labels
}

/// The chosen class is decided by the row alone: no row has two.
pub proof fn chosen_class_is_unique(row: Seq<u64>, a: int, b: int)
    requires
        is_chosen_class(row, a),
        is_chosen_class(row, b),
    ensures
        a == b,
{
}

/// The chosen class of a row with a finite score holds the row's maximum, and
/// no earlier column does.
pub proof fn chosen_class_is_first_maximum(row: Seq<u64>, c: int, j: int)
    requires
        is_chosen_class(row, c),
        0 <= j < row.len(),
        finite(row[j]),
    ensures
        0 <= c < row.len(),
        finite(row[c]),
        !less(row[c], row[j]),
        j < c ==> less(row[j], row[c]),
{
}

/// As numbers: no finite score of the row is larger than the score of the
/// chosen class, and every finite score before it is smaller.
pub proof fn chosen_class_holds_the_largest_number(row: Seq<u64>, c: int, j: int)
    requires
        is_chosen_class(row, c),
        0 <= j < row.len(),
        finite(row[j]),
    ensures
        0 <= c < row.len(),
        finite(row[c]),
        scaled_value(row[j]) <= scaled_value(row[c]),
        j < c ==> scaled_value(row[j]) < scaled_value(row[c]),
{
    key_order_is_value_order(row[j], row[c]);
    key_order_is_value_order(row[c], row[j]);
}

/// How a row of scores becomes a row of probabilities.
#[derive(Debug, Clone, Copy, PartialEq, Eq, Structural)]
pub enum RowRule {
    /// Every score is divided by the sum of the row.
    Proportional,
    /// The row goes through a softmax that is shifted by the row's largest
    /// finite score, which comes with the rule.
    Softmax(u64),
    /// Every class gets the same probability.
    Uniform,
}

/// Every score of the row is finite and not below zero.
pub open spec fn plain(row: Seq<u64>) -> bool {
    forall|j: int| 0 <= j < row.len() ==> finite(#[trigger] row[j]) && !less(row[j], ZERO)
}

/// The largest finite score among the first `n` of a row, and negative
/// infinity where none of them is finite.
pub open spec fn peak(row: Seq<u64>, n: nat) -> u64
    decreases n,
{
    if n == 0 {
        NEG_INFINITY
    } else {
        let so_far = peak(row, (n - 1) as nat);
        if finite(row[n - 1]) {
            larger(so_far, row[n - 1])
        } else {
            so_far
        }
    }
}

/// The rule for a row whose scores sum to `sum`. A plain row with a finite
/// sum is divided by it, or filled uniformly where the sum is not above
/// zero. Any other row goes through the softmax, or is filled uniformly
/// where it has no finite score.
pub open spec fn rule_of(row: Seq<u64>, sum: u64) -> RowRule {
    if plain(row) && finite(sum) {
        if less(ZERO, sum) {
            RowRule::Proportional
        } else {
            RowRule::Uniform
        }
    } else if finite(peak(row, row.len())) {
        RowRule::Softmax(peak(row, row.len()))
    } else {
        RowRule::Uniform
    }
}

/// The peak of a row is finite exactly if the row has a finite score, and
/// then no finite score of the row is larger.
pub proof fn peak_is_maximum(row: Seq<u64>, n: nat)
    requires
        n <= row.len(),
    ensures
        finite(peak(row, n)) || peak(row, n) == NEG_INFINITY,
        finite(peak(row, n)) <==> exists|j: int| 0 <= j < n && finite(#[trigger] row[j]),
        forall|j: int| 0 <= j < n && finite(#[trigger] row[j]) ==> !less(peak(row, n), row[j]),
    decreases n,
{
    if n > 0 {
        peak_is_maximum(row, (n - 1) as nat);
        if finite(row[n - 1]) {
            assert(finite(peak(row, n)));
        } else if finite(peak(row, n)) {
            let w = choose|j: int| 0 <= j < n - 1 && finite(#[trigger] row[j]);
            assert(finite(row[w]));
        }
    }
}

/// Decides how row `r` of a score matrix becomes probabilities. `sum` is the
/// sum of the row's scores, taken by the caller in column order; it is
/// looked at only where the row is plain.
pub fn row_rule(scores: &Matrix, r: usize, sum: u64) -> (rule: RowRule)
    requires
        r < scores.rows(),
    ensures
        rule == rule_of(scores@[r as int], sum),
{
    let cols = scores.ncols();
    let ghost row = scores@[r as int];
    let mut is_plain = true;
    let mut largest: u64 = NEG_INFINITY;
    let mut j: usize = 0;
    while j < cols
        invariant
            r < scores.rows(),
            cols == scores.cols(),
            row == scores@[r as int],
            row.len() == cols,
            j <= cols,
            is_plain == plain(row.take(j as int)),
            largest == peak(row, j as nat),
        decreases cols - j,
    {
        let value = scores.get(r, j);
        assert(value == row[j as int]);
        proof {
            let shorter = row.take(j as int);
            let longer = row.take(j + 1);
            assert forall|i: int| 0 <= i < shorter.len() implies shorter[i] == longer[i] by {}
            assert(longer[j as int] == value);
            if plain(longer) {
                assert forall|i: int| 0 <= i < shorter.len() implies finite(#[trigger] shorter[i]) && !less(
                    shorter[i],
                    ZERO,
                ) by {
                    assert(finite(longer[i]) && !less(longer[i], ZERO));
                }
            }
        }
        if !is_finite(value) || is_less(value, ZERO) {
            is_plain = false;
        }
        if is_finite(value) {
            largest = maximum(largest, value);
        }
        j += 1;
    }
    assert(row.take(cols as int) =~= row);
    if is_plain && is_finite(sum) {
        if is_less(ZERO, sum) {
            RowRule::Proportional
        } else {
            RowRule::Uniform
        }
    } else if is_finite(largest) {
        RowRule::Softmax(largest)
    } else {
        RowRule::Uniform
    }
}

} // verus!
