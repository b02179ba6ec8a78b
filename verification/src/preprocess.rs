//! What feature scaling decides without arithmetic: the bounds of each
//! column and the check that a matrix has the columns a model was fitted on.

use crate::error::FrError;
use crate::ieee::{
    at_most, finite, is_finite, larger, maximum, minimum, nan, smaller, INFINITY, NEG_INFINITY, ZERO,
};
use crate::matrix::Matrix;
use crate::text::{two_number_text, two_numbers};
use vstd::prelude::*;

verus! {

/// The reason given for a matrix with another number of columns than
/// expected.
pub open spec fn feature_count_reason(expected: nat, found: nat) -> Seq<char> {
    two_number_text("feature mismatch: expected "@, expected, ", found "@, found)
}

/// Accepts a matrix with the expected number of columns and rejects any
/// other.
pub fn validate_feature_count(x: &Matrix, expected_features: usize) -> (r: Result<(), FrError>)
    ensures
        r is Ok <==> x.cols() == expected_features,
        r matches Err(e) ==> e.is_invalid_input(feature_count_reason(expected_features as nat, x.cols())),
{
    if x.ncols() != expected_features {
        return Err(
            FrError::InvalidInput(two_numbers("feature mismatch: expected ", expected_features, ", found ", x.ncols())),
        );
    }
    Ok(())
}

/// The smallest finite value among the first `n` rows of a column, and
/// positive infinity where none is finite.
pub open spec fn column_least(x: &Matrix, col: int, n: nat) -> u64
    decreases n,
{
    if n == 0 {
        INFINITY
    } else {
        let so_far = column_least(x, col, (n - 1) as nat);
        if finite(x.at(n - 1, col)) {
            smaller(so_far, x.at(n - 1, col))
        } else {
            so_far
        }
    }
}

/// The largest finite value among the first `n` rows of a column, and
/// negative infinity where none is finite.
pub open spec fn column_greatest(x: &Matrix, col: int, n: nat) -> u64
    decreases n,
{
    if n == 0 {
        NEG_INFINITY
    } else {
        let so_far = column_greatest(x, col, (n - 1) as nat);
        if finite(x.at(n - 1, col)) {
            larger(so_far, x.at(n - 1, col))
        } else {
            so_far
        }
    }
}

/// A bound as a model keeps it: itself where it is finite, and 0 for a
/// column without a finite value.
pub open spec fn kept_bound(bound: u64) -> u64 {
    if finite(bound) {
        bound
    } else {
        ZERO
    }
}

/// The lower and the upper bound of every column: its smallest and its
/// largest finite value, and 0 for both where the column has none.
pub fn column_bounds(x: &Matrix) -> (r: (Vec<u64>, Vec<u64>))
    ensures
        r.0@.len() == x.cols(),
        r.1@.len() == x.cols(),
        forall|c: int| 0 <= c < x.cols() ==> #[trigger] r.0@[c] == kept_bound(column_least(x, c, x.rows())),
        forall|c: int| 0 <= c < x.cols() ==> #[trigger] r.1@[c] == kept_bound(column_greatest(x, c, x.rows())),
{
    let rows = x.nrows();
    let cols = x.ncols();
    let mut lows: Vec<u64> = Vec::new();
    let mut highs: Vec<u64> = Vec::new();
    let mut c: usize = 0;
    while c < cols
        invariant
            rows == x.rows(),
            cols == x.cols(),
            c <= cols,
            lows@.len() == c,
            highs@.len() == c,
            forall|b: int| 0 <= b < c ==> #[trigger] lows@[b] == kept_bound(column_least(x, b, rows as nat)),
            forall|b: int| 0 <= b < c ==> #[trigger] highs@[b] == kept_bound(column_greatest(x, b, rows as nat)),
        decreases cols - c,
    {
        let mut low: u64 = INFINITY;
        let mut high: u64 = NEG_INFINITY;
        let mut i: usize = 0;
        while i < rows
            invariant
                rows == x.rows(),
                cols == x.cols(),
                c < cols,
                i <= rows,
                low == column_least(x, c as int, i as nat),
                high == column_greatest(x, c as int, i as nat),
            decreases rows - i,
        {
            let value = x.get(i, c);
            if is_finite(value) {
                low = minimum(low, value);
                high = maximum(high, value);
            }
            i += 1;
        }
        lows.push(if is_finite(low) {
            low
        } else {
            ZERO
        });
        highs.push(if is_finite(high) {
            high
        } else {
            ZERO
        });
        c += 1;
    }
    (lows, highs)
}

/// The bounds of a column enclose each of its finite values.
pub proof fn column_bounds_enclose(x: &Matrix, col: int, n: nat, i: int)
    requires
        0 <= i < n,
        finite(x.at(i, col)),
    ensures
        finite(column_least(x, col, n)),
        finite(column_greatest(x, col, n)),
        at_most(column_least(x, col, n), x.at(i, col)),
        at_most(x.at(i, col), column_greatest(x, col, n)),
    decreases n,
{
    bounds_are_numbers(x, col, (n - 1) as nat);
    if i < n - 1 {
        column_bounds_enclose(x, col, (n - 1) as nat, i);
    }
}

/// The running bounds of a column are never a NaN, and the lower one is
/// never negative infinity nor the upper one positive infinity.
proof fn bounds_are_numbers(x: &Matrix, col: int, n: nat)
    ensures
        finite(column_least(x, col, n)) || column_least(x, col, n) == INFINITY,
        finite(column_greatest(x, col, n)) || column_greatest(x, col, n) == NEG_INFINITY,
    decreases n,
{
    if n > 0 {
        bounds_are_numbers(x, col, (n - 1) as nat);
    }
}

/// The tolerance that a model keeps: the one asked for, or 0 where that is
/// negative or a NaN.
pub fn kept_tolerance(eps: u64) -> (r: u64)
    ensures
        r == larger(eps, ZERO),
        !nan(r),
        at_most(ZERO, r),
{
    maximum(eps, ZERO)
}

} // verus!
