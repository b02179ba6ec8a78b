//! The distance metrics and the strict check on what a distance is taken of.

use crate::error::FrError;
use crate::ieee::{finite, is_finite};
use crate::text::{two_number_text, two_numbers};
use vstd::prelude::*;
use vstd::string::*;

verus! {

/// How far apart two feature vectors are.
#[derive(Debug, Clone, Copy, PartialEq, Eq, Structural)]
pub enum Metric {
    /// The square root of the summed squared differences.
    Euclidean,
    /// The summed absolute differences.
    Manhattan,
}

/// Every component is a finite number.
pub open spec fn all_finite(v: Seq<u64>) -> bool {
    forall|i: int| 0 <= i < v.len() ==> finite(#[trigger] v[i])
}

/// The reason given for a component that is infinite or a NaN.
pub open spec fn non_finite_reason() -> Seq<char> {
    "non-finite value encountered"@
}

/// The reason given for two vectors of different lengths.
pub open spec fn length_mismatch_reason(left: nat, right: nat) -> Seq<char> {
    two_number_text("distance feature mismatch: left="@, left, ", right="@, right)
}

/// Hands a finite component back and rejects any other.
pub fn validate_finite(value: u64) -> (r: Result<u64, FrError>)
    ensures
        finite(value) ==> r == Ok::<u64, FrError>(value),
        !finite(value) ==> r is Err && r->Err_0.is_invalid_input(non_finite_reason()),
{
    if is_finite(value) {
        Ok(value)
    } else {
        Err(FrError::InvalidInput(String::from_str("non-finite value encountered")))
    }
}

/// Whether every component is a finite number.
pub fn is_all_finite(v: &Vec<u64>) -> (r: bool)
    ensures
        r == all_finite(v@),
{
    let mut i: usize = 0;
    while i < v.len()
        invariant
            i <= v.len(),
            forall|j: int| 0 <= j < i ==> finite(#[trigger] v@[j]),
        decreases v.len() - i,
    {
        if !is_finite(v[i]) {
            return false;
        }
        i += 1;
    }
    true
}

/// Decides whether a distance between `left` and `right` is defined: the two
/// must be equally long, which is looked at first, and every component of
/// both must be finite.
pub fn validate_operands(left: &Vec<u64>, right: &Vec<u64>) -> (r: Result<(), FrError>)
    ensures
        r is Ok <==> left.len() == right.len() && all_finite(left@) && all_finite(right@),
        left.len() != right.len() ==> r is Err && r->Err_0.is_invalid_input(
            length_mismatch_reason(left.len() as nat, right.len() as nat),
        ),
        left.len() == right.len() && !(all_finite(left@) && all_finite(right@)) ==> r is Err
            && r->Err_0.is_invalid_input(non_finite_reason()),
{
    if left.len() != right.len() {
        return Err(
            FrError::InvalidInput(
                two_numbers("distance feature mismatch: left=", left.len(), ", right=", right.len()),
            ),
        );
    }
    if is_all_finite(left) && is_all_finite(right) {
        Ok(())
    } else {
        Err(FrError::InvalidInput(String::from_str("non-finite value encountered")))
    }
}

} // verus!
