//! Error type reported when documentation generation fails.
use vstd::prelude::*;

verus! {

/// Failure of the documentation build, with a description of the cause.
#[derive(Debug, Clone)]
pub enum AutodocsError {
    /// An ordering directive or another pre-processing step was malformed.
    PreProcessing(String),
    /// The module metadata could not be read.
    Metadata(String),
}

impl AutodocsError {
    /// The description carried by the error.
    pub fn message(&self) -> (r: &String)
        ensures
            r@ == match self {
                AutodocsError::PreProcessing(m) => m@,
                AutodocsError::Metadata(m) => m@,
            },
    {
        match self {
            AutodocsError::PreProcessing(m) => m,
            AutodocsError::Metadata(m) => m,
        }
    }
}

} // verus!
