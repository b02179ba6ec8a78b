//! The guards that keep scores well-formed: clamping to the unit interval,
//! the conditions under which a quotient is used, and the cleaning of rows
//! before they are normalised.

use crate::ieee::{
    at_most, finite, in_unit_interval, is_finite, is_less, key_order_is_value_order, less, magnitude, scaled_value,
    EPSILON, ONE, SIGN_BIT, ZERO,
};
use crate::matrix::Matrix;
use vstd::prelude::*;

verus! {

/// A number brought into the unit interval: 0 for an infinity or a NaN, 0
/// for a negative number, 1 for a number above 1, and the number itself
/// otherwise.
pub open spec fn clamped(value: u64) -> u64 {
    if !finite(value) {
        ZERO
    } else if less(value, ZERO) {
        ZERO
    } else if less(ONE, value) {
        ONE
    } else {
        value
    }
}

/// Brings a number into the unit interval; an infinity or a NaN becomes 0.
pub fn clamp01(value: u64) -> (r: u64)
    ensures
        r == clamped(value),
        in_unit_interval(r),
{
    if !is_finite(value) {
        return ZERO;
    }
    if is_less(value, ZERO) {
        ZERO
    } else if is_less(ONE, value) {
        ONE
    } else {
        value
    }
}

/// Clamping changes nothing that is already in the unit interval, so that
/// clamping twice is clamping once.
pub proof fn clamped_is_idempotent(value: u64)
    ensures
        in_unit_interval(value) ==> clamped(value) == value,
        clamped(clamped(value)) == clamped(value),
{
}

/// As numbers: what is clamped lies between zero and one, and it is the
/// number itself where that already does.
pub proof fn clamped_lies_between_zero_and_one(value: u64)
    ensures
        finite(clamped(value)),
        0 <= scaled_value(clamped(value)) <= scaled_value(ONE),
        finite(value) && 0 <= scaled_value(value) <= scaled_value(ONE) ==> clamped(value) == value,
{
    key_order_is_value_order(ZERO, clamped(value));
    key_order_is_value_order(clamped(value), ONE);
    key_order_is_value_order(ONE, clamped(value));
    if finite(value) {
        key_order_is_value_order(value, ZERO);
        key_order_is_value_order(ONE, value);
    }
}

/// Clamping keeps the order of numbers.
pub proof fn clamped_is_monotone(a: u64, b: u64)
    requires
        finite(a),
        finite(b),
        at_most(a, b),
    ensures
        at_most(clamped(a), clamped(b)),
{
}

/// A quotient of these two is taken at all: both are finite and the
/// denominator is more than machine epsilon away from zero.
pub open spec fn divisible(numerator: u64, denominator: u64) -> bool {
    finite(numerator) && finite(denominator) && magnitude(denominator) > EPSILON
}

/// What a guarded division gives: the quotient where one is taken and is
/// finite, and the fallback otherwise.
pub open spec fn guarded_quotient(numerator: u64, denominator: u64, quotient: u64, default: u64) -> u64 {
    if divisible(numerator, denominator) && finite(quotient) {
        quotient
    } else {
        default
    }
}

/// Division that never hands on an infinity or a NaN. `quotient` is the
/// rounded quotient of `numerator` by `denominator`, which the caller has
/// taken; it is the result only where both operands are finite, the
/// denominator is more than machine epsilon away from zero, and the quotient
/// itself is finite. In every other case the result is `default`.
pub fn safe_divide(numerator: u64, denominator: u64, quotient: u64, default: u64) -> (r: u64)
    ensures
        r == guarded_quotient(numerator, denominator, quotient, default),
        finite(default) ==> finite(r),
{
    if !is_finite(numerator) || !is_finite(denominator) || denominator % SIGN_BIT <= EPSILON {
        return default;
    }
    if is_finite(quotient) {
        quotient
    } else {
        default
    }
}

/// What a cell counts for when a row is normalised: itself where it is a
/// finite number above zero, and 0 otherwise.
pub open spec fn positive_part(value: u64) -> u64 {
    if finite(value) && less(ZERO, value) {
        value
    } else {
        ZERO
    }
}

/// What a cell counts for when a row is normalised.
pub fn sanitize(value: u64) -> (r: u64)
    ensures
        r == positive_part(value),
{
    if is_finite(value) && is_less(ZERO, value) {
        value
    } else {
        ZERO
    }
}

/// A row sum by which the row can be divided: finite and above zero.
pub open spec fn usable_sum(sum: u64) -> bool {
    finite(sum) && less(ZERO, sum)
}

/// Whether a row can be divided by its sum; a row that cannot is filled
/// uniformly.
pub fn has_usable_sum(sum: u64) -> (r: bool)
    ensures
        r == usable_sum(sum),
{
    is_less(ZERO, sum) && is_finite(sum)
}

/// The matrix with every cell replaced by what it counts for when its row is
/// normalised: negative, infinite and NaN cells become 0.
pub fn sanitize_rows(matrix: &Matrix) -> (cleaned: Matrix)
    ensures
        cleaned.rows() == matrix.rows(),
        cleaned.cols() == matrix.cols(),
        forall|i: int, j: int|
            0 <= i < matrix.rows() && 0 <= j < matrix.cols() ==> #[trigger] cleaned.at(i, j) == positive_part(
                matrix.at(i, j),
            ),
{
    let rows = matrix.nrows();
    let cols = matrix.ncols();
    let mut cleaned = matrix.clone();
    let mut i: usize = 0;
    while i < rows
        invariant
            rows == matrix.rows(),
            cols == matrix.cols(),
            cleaned.rows() == rows,
            cleaned.cols() == cols,
            i <= rows,
            forall|a: int, b: int|
                0 <= a < i && 0 <= b < cols ==> #[trigger] cleaned.at(a, b) == positive_part(matrix.at(a, b)),
            forall|a: int, b: int| i <= a < rows && 0 <= b < cols ==> #[trigger] cleaned.at(a, b) == matrix.at(a, b),
        decreases rows - i,
    {
        let mut j: usize = 0;
        while j < cols
            invariant
                rows == matrix.rows(),
                cols == matrix.cols(),
                cleaned.rows() == rows,
                cleaned.cols() == cols,
                i < rows,
                j <= cols,
                forall|a: int, b: int|
                    0 <= a < i && 0 <= b < cols ==> #[trigger] cleaned.at(a, b) == positive_part(
                        matrix.at(a, b),
                    ),
                forall|b: int| 0 <= b < j ==> #[trigger] cleaned.at(i as int, b) == positive_part(matrix.at(i as int, b)),
                forall|b: int| j <= b < cols ==> #[trigger] cleaned.at(i as int, b) == matrix.at(i as int, b),
                forall|a: int, b: int|
                    i < a < rows && 0 <= b < cols ==> #[trigger] cleaned.at(a, b) == matrix.at(a, b),
            decreases cols - j,
        {
            let value = cleaned.get(i, j);
            cleaned.set(i, j, sanitize(value));
            j += 1;
        }
        i += 1;
    }
    cleaned
}

} // verus!
