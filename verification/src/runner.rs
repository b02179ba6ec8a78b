//! What a benchmark run can be asked for.

use vstd::prelude::*;

verus! {

/// Which suites a run covers.
#[derive(Copy, Clone, Debug, PartialEq, Eq, Structural)]
pub enum SuiteChoice {
    All,
    Classifier,
    Novelty,
}

/// Which synthetic dataset the classifier suite runs on.
#[derive(Copy, Clone, Debug, PartialEq, Eq, Structural)]
pub enum DatasetChoice {
    Overlap,
    Xor,
    Redundant,
    PrototypeHeavy,
}

/// Which neighbour search a run uses.
#[derive(Copy, Clone, Debug, PartialEq, Eq, Structural)]
pub enum BackendChoice {
    Bruteforce,
}

impl SuiteChoice {
    /// Whether the classifier suite is part of the run.
    pub fn runs_classifiers(&self) -> (r: bool)
        ensures
            r == (*self == SuiteChoice::All || *self == SuiteChoice::Classifier),
    {
        match self {
            SuiteChoice::All => true,
            SuiteChoice::Classifier => true,
            SuiteChoice::Novelty => false,
        }
    }

    /// Whether the novelty suite is part of the run.
    pub fn runs_novelty(&self) -> (r: bool)
        ensures
            r == (*self == SuiteChoice::All || *self == SuiteChoice::Novelty),
    {
        match self {
            SuiteChoice::All => true,
            SuiteChoice::Classifier => false,
            SuiteChoice::Novelty => true,
        }
    }
}

impl DatasetChoice {
    /// The number of feature columns a dataset is generated with when `dims`
    /// are asked for: the XOR dataset needs two, the redundant one twenty.
    pub fn dims_used(&self, dims: usize) -> (r: usize)
        ensures
            r == match *self {
                DatasetChoice::Xor => if dims >= 2 {
                    dims
                } else {
                    2
                },
                DatasetChoice::Redundant => if dims >= 20 {
                    dims
                } else {
                    20
                },
                _ => dims,
            },
    {
        match self {
            DatasetChoice::Overlap => dims,
            DatasetChoice::Xor => if dims >= 2 {
                dims
            } else {
                2
            },
            DatasetChoice::Redundant => if dims >= 20 {
                dims
            } else {
                20
            },
            DatasetChoice::PrototypeHeavy => dims,
        }
    }

    /// The number of training rows a dataset is generated with when
    /// `n_train` are asked for: the prototype-heavy dataset has at least
    /// three thousand.
    pub fn train_rows_used(&self, n_train: usize) -> (r: usize)
        ensures
            r == if *self == DatasetChoice::PrototypeHeavy && n_train < 3000 {
                3000
            } else {
                n_train
            },
    {
        match self {
            DatasetChoice::PrototypeHeavy => if n_train < 3000 {
                3000
            } else {
                n_train
            },
            _ => n_train,
        }
    }
}

} // verus!
