//! The errors that fitting, querying and the matrix helpers report.

use crate::text::{two_number_text, two_numbers};
use vstd::prelude::*;
use vstd::string::*;

verus! {

/// What can go wrong when a model is fitted or queried.
#[derive(Debug, Clone, PartialEq, Eq)]
pub enum FrError {
    /// A matrix that must hold data has no rows or no columns.
    EmptyInput,
    /// The label vector is not as long as the matrix has rows.
    LabelLengthMismatch { expected: usize, found: usize },
    /// A model was used before it was fitted.
    NotFitted,
    /// Any other input that cannot be worked on, with the reason.
    InvalidInput(String),
}

/// What can go wrong in the vector and matrix helpers.
#[derive(Debug, PartialEq)]
pub enum MathError {
    /// Two vectors that must be equally long are not.
    VectorLengthMismatch { left: usize, right: usize },
    /// Two matrices that must have one shape do not.
    ShapeMismatch { left_rows: usize, left_cols: usize, right_rows: usize, right_cols: usize },
}

pub type FrResult<T> = Result<T, FrError>;

pub type MathResult<T> = Result<T, MathError>;

impl FrError {
    /// The error is `InvalidInput` with exactly this reason.
    pub open spec fn is_invalid_input(&self, reason: Seq<char>) -> bool {
        match self {
            FrError::InvalidInput(text) => text@ == reason,
            _ => false,
        }
    }

    /// The text shown for the error.
    pub open spec fn message_text(&self) -> Seq<char> {
        match self {
            FrError::EmptyInput => "input matrix is empty"@,
            FrError::LabelLengthMismatch { expected, found } => two_number_text(
                "label length mismatch: expected "@,
                *expected as nat,
                ", found "@,
                *found as nat,
            ),
            FrError::NotFitted => "model is not fitted"@,
            FrError::InvalidInput(reason) => "invalid input: "@ + reason@,
        }
    }

    /// The text shown for the error.
    pub fn message(&self) -> (text: String)
        ensures
            text@ == self.message_text(),
    {
        match self {
            FrError::EmptyInput => String::from_str("input matrix is empty"),
            FrError::LabelLengthMismatch { expected, found } => two_numbers(
                "label length mismatch: expected ",
                *expected,
                ", found ",
                *found,
            ),
            FrError::NotFitted => String::from_str("model is not fitted"),
            FrError::InvalidInput(reason) => {
                let mut text = String::from_str("invalid input: ");
                text.append(reason.as_str());
                text
            },
        }
    }
}

impl MathError {
    /// The text shown for the error.
    pub open spec fn message_text(&self) -> Seq<char> {
        match self {
            MathError::VectorLengthMismatch { left, right } => two_number_text(
                "vector length mismatch: left="@,
                *left as nat,
                ", right="@,
                *right as nat,
            ),
            MathError::ShapeMismatch { left_rows, left_cols, right_rows, right_cols } => two_number_text(
                "shape mismatch: left=("@,
                *left_rows as nat,
                ", "@,
                *left_cols as nat,
            ) + two_number_text("), right=("@, *right_rows as nat, ", "@, *right_cols as nat) + ")"@,
        }
    }

    /// The text shown for the error.
    pub fn message(&self) -> (text: String)
        ensures
            text@ == self.message_text(),
    {
        match self {
            MathError::VectorLengthMismatch { left, right } => two_numbers(
                "vector length mismatch: left=",
                *left,
                ", right=",
                *right,
            ),
            MathError::ShapeMismatch { left_rows, left_cols, right_rows, right_cols } => {
                let mut text = two_numbers("shape mismatch: left=(", *left_rows, ", ", *left_cols);
                let right = two_numbers("), right=(", *right_rows, ", ", *right_cols);
                text.append(right.as_str());
                text.append(")");
                text
            },
        }
    }
}

} // verus!
