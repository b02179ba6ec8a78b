//! Fuzzy-rough nearest-neighbour scoring: every decision, proved.
//!
//! The crate scores query points against a fitted reference set: by a
//! distance-weighted vote of the nearest neighbours ([`nn`]), by fuzzy-rough
//! lower and upper approximation ([`frnn`]), or as novelty against a set of
//! inliers ([`nnd`]). All three stand on an exact nearest-neighbour search
//! ([`bruteforce`]) and on guards that keep every score well-formed
//! ([`transformations`], [`t_norms`], [`scoring`]).
//!
//! Real numbers travel through the crate as IEEE 754 binary64 bit patterns,
//! one `u64` each ([`ieee`]), held in matrices of such words ([`matrix`]).
//! The crate classifies, compares, orders, selects and clamps them, and
//! every function that does so carries a contract that Verus has checked.
//! It never rounds: sums, products, quotients, roots and exponentials are
//! taken by the caller and handed in as bit patterns. A function that needs
//! such a value says in its documentation which one, and its contract holds
//! for whatever is handed in.
//!
//! A query therefore runs in steps. The index accepts or rejects the query
//! ([`bruteforce::BruteForceIndex::check_query`]), the caller takes the
//! distances, the index ranks them
//! ([`bruteforce::BruteForceIndex::query`]), and the model turns the
//! neighbours into what its scores are made from.

pub mod adapters;
pub mod bruteforce;
pub mod datasets;
pub mod descriptors;
pub mod distance;
pub mod error;
pub mod frnn;
pub mod ieee;
pub mod matrix;
pub mod metrics;
pub mod nn;
pub mod nnd;
pub mod preprocess;
pub mod report;
pub mod runner;
pub mod scoring;
pub mod t_norms;
pub mod text;
pub mod training;
pub mod transformations;

use vstd::prelude::*;

verus! {

/// A fixed line that tells a caller the crate is linked and usable.
pub fn workspace_status() -> (status: &'static str)
    ensures
        status@ == "frlearn rust workspace initialized"@,
{
    "frlearn rust workspace initialized"
}

} // verus!
