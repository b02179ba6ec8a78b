//! The minimum t-norm, and the shape rule of the element-wise t-norms.
//!
//! A t-norm combines two degrees of truth. Both operands are first brought
//! into the unit interval, and so is the result. The minimum t-norm only
//! compares, so all of it is decided here; the product and Lukasiewicz
//! t-norms round, and only their shape rule is.

use crate::error::MathError;
use crate::ieee::{at_most, in_unit_interval, minimum, smaller, ONE, ZERO};
use crate::matrix::Matrix;
use crate::transformations::{clamp01, clamped};
use vstd::prelude::*;

verus! {

/// The minimum t-norm of two degrees: the smaller of the two after each is
/// brought into the unit interval.
pub open spec fn min_t_norm_of(a: u64, b: u64) -> u64 {
    clamped(smaller(clamped(a), clamped(b)))
}

/// The minimum t-norm of two degrees.
pub fn min_t_norm_scalar(a: u64, b: u64) -> (r: u64)
    ensures
        r == min_t_norm_of(a, b),
        in_unit_interval(r),
{
    clamp01(minimum(clamp01(a), clamp01(b)))
}

/// The minimum t-norm is one of its clamped operands and no larger than
/// either.
pub proof fn min_t_norm_is_lower_bound(a: u64, b: u64)
    ensures
        min_t_norm_of(a, b) == clamped(a) || min_t_norm_of(a, b) == clamped(b),
        at_most(min_t_norm_of(a, b), clamped(a)),
        at_most(min_t_norm_of(a, b), clamped(b)),
{
}

/// With 1 the minimum t-norm gives the other operand back, as far as it lies
/// in the unit interval; with 0 it gives zero.
pub proof fn min_t_norm_boundaries(a: u64)
    ensures
        min_t_norm_of(a, ONE) == clamped(a),
        at_most(min_t_norm_of(a, ZERO), ZERO),
{
}

/// As numbers, the minimum t-norm does not depend on the order of its
/// operands.
pub proof fn min_t_norm_commutes(a: u64, b: u64)
    ensures
        at_most(min_t_norm_of(a, b), min_t_norm_of(b, a)),
        at_most(min_t_norm_of(b, a), min_t_norm_of(a, b)),
{
}

/// Two matrices have one shape.
pub open spec fn same_shape(left: &Matrix, right: &Matrix) -> bool {
    left.rows() == right.rows() && left.cols() == right.cols()
}

/// The error that names the shapes of two matrices.
pub open spec fn shape_mismatch(left: &Matrix, right: &Matrix) -> MathError {
    MathError::ShapeMismatch {
        left_rows: left.rows() as usize,
        left_cols: left.cols() as usize,
        right_rows: right.rows() as usize,
        right_cols: right.cols() as usize,
    }
}

/// Accepts two matrices of one shape and rejects any other pair, naming both
/// shapes.
pub fn check_same_shape(left: &Matrix, right: &Matrix) -> (r: Result<(), MathError>)
    ensures
        same_shape(left, right) ==> r is Ok,
        !same_shape(left, right) ==> r == Err::<(), MathError>(shape_mismatch(left, right)),
{
    if left.nrows() != right.nrows() || left.ncols() != right.ncols() {
        return Err(
            MathError::ShapeMismatch {
                left_rows: left.nrows(),
                left_cols: left.ncols(),
                right_rows: right.nrows(),
                right_cols: right.ncols(),
            },
        );
    }
    Ok(())
}

/// Accepts two vectors of one length and rejects any other pair, naming both
/// lengths.
pub fn check_same_length(left: usize, right: usize) -> (r: Result<(), MathError>)
    ensures
        left == right ==> r is Ok,
        left != right ==> r == Err::<(), MathError>(MathError::VectorLengthMismatch { left, right }),
{
    if left != right {
        return Err(MathError::VectorLengthMismatch { left, right });
    }
    Ok(())
}

/// The element-wise minimum t-norm of two matrices of one shape; any other
/// pair is rejected.
pub fn min_t_norm(left: &Matrix, right: &Matrix) -> (r: Result<Matrix, MathError>)
    ensures
        r is Ok <==> same_shape(left, right),
        !same_shape(left, right) ==> r is Err && r->Err_0 == shape_mismatch(left, right),
        r matches Ok(m) ==> {
            &&& same_shape(&m, left)
            &&& forall|i: int, j: int|
                0 <= i < left.rows() && 0 <= j < left.cols() ==> #[trigger] m.at(i, j) == min_t_norm_of(
                    left.at(i, j),
                    right.at(i, j),
                )
        },
{
    match check_same_shape(left, right) {
        Err(e) => {
            return Err(e);
        },
        Ok(()) => {},
    }
    let rows = left.nrows();
    let cols = left.ncols();
    let mut result = left.clone();
    let mut i: usize = 0;
    while i < rows
        invariant
            rows == left.rows(),
            cols == left.cols(),
            same_shape(left, right),
            same_shape(&result, left),
            i <= rows,
            forall|a: int, b: int|
                0 <= a < i && 0 <= b < cols ==> #[trigger] result.at(a, b) == min_t_norm_of(
                    left.at(a, b),
                    right.at(a, b),
                ),
        decreases rows - i,
    {
        let mut j: usize = 0;
        while j < cols
            invariant
                rows == left.rows(),
                cols == left.cols(),
                same_shape(left, right),
                same_shape(&result, left),
                i < rows,
                j <= cols,
                forall|a: int, b: int|
                    0 <= a < i && 0 <= b < cols ==> #[trigger] result.at(a, b) == min_t_norm_of(
                        left.at(a, b),
                        right.at(a, b),
                    ),
                forall|b: int|
                    0 <= b < j ==> #[trigger] result.at(i as int, b) == min_t_norm_of(
                        left.at(i as int, b),
                        right.at(i as int, b),
                    ),
            decreases cols - j,
        {
            result.set(i, j, min_t_norm_scalar(left.get(i, j), right.get(i, j)));
            j += 1;
        }
        i += 1;
    }
    Ok(result)
}

} // verus!
