//! The timings that a benchmark run reports.

use vstd::prelude::*;

verus! {

/// How long each stage of a run took, in milliseconds.
#[derive(Clone, Debug)]
pub struct TimingReport {
    pub preprocess_ms: u64,
    pub frfs_ms: u64,
    pub frps_ms: u64,
    pub train_ms: u64,
    pub predict_ms: u64,
}

impl Default for TimingReport {
    /// No time spent on any stage.
    fn default() -> (r: Self)
        ensures
            r.preprocess_ms == 0,
            r.frfs_ms == 0,
            r.frps_ms == 0,
            r.train_ms == 0,
            r.predict_ms == 0,
    {
        Self { preprocess_ms: 0, frfs_ms: 0, frps_ms: 0, train_ms: 0, predict_ms: 0 }
    }
}

} // verus!
