//! Descriptor backends that are named but not built.

use crate::error::FrError;
use crate::matrix::Matrix;
use vstd::prelude::*;
use vstd::string::*;

verus! {

/// The support-vector descriptor, which has no backend.
#[derive(Debug, Clone, Copy)]
pub struct SvmDescriptor;

/// The extended-isolation-forest descriptor, which has no backend.
#[derive(Debug, Clone, Copy)]
pub struct EifDescriptor;

/// The shrink-autoencoder descriptor, which has no backend.
#[derive(Debug, Clone, Copy)]
pub struct SaeDescriptor;

impl SvmDescriptor {
    /// Always rejected: there is no backend to fit.
    pub fn fit(&self, _x_inlier: &Matrix) -> (r: Result<(), FrError>)
        ensures
            r is Err,
            r->Err_0.is_invalid_input("svm backend is feature-gated placeholder"@),
    {
        Err(FrError::InvalidInput(String::from_str("svm backend is feature-gated placeholder")))
    }
}

impl EifDescriptor {
    /// Always rejected: there is no backend to fit.
    pub fn fit(&self, _x_inlier: &Matrix) -> (r: Result<(), FrError>)
        ensures
            r is Err,
            r->Err_0.is_invalid_input("eif backend is feature-gated placeholder"@),
    {
        Err(FrError::InvalidInput(String::from_str("eif backend is feature-gated placeholder")))
    }
}

impl SaeDescriptor {
    /// Always rejected: there is no backend to fit.
    pub fn fit(&self, _x_inlier: &Matrix) -> (r: Result<(), FrError>)
        ensures
            r is Err,
            r->Err_0.is_invalid_input("sae backend is feature-gated placeholder"@),
    {
        Err(FrError::InvalidInput(String::from_str("sae backend is feature-gated placeholder")))
    }
}

} // verus!
