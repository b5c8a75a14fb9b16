//! Error values reported by the library.

use vstd::prelude::*;

verus! {

/// The kind of a failure, one variant per reportable condition: a missing
/// environment facility, a failure to load an embedded resource, an
/// unreadable document, or a document that yielded no cards.
#[derive(Debug)]
pub enum FlashErrorType {
    EnvVar(String),
    ResourceError,
    FileReadError(String),
    EmptyDeck,
}

/// An error together with a human-readable trace of its origin.
#[derive(Debug)]
pub struct FlashError {
    pub error: FlashErrorType,
    pub traceback: String,
}

impl FlashError {
    /// Builds an error of the given kind with the given trace text.
    pub fn new(error: FlashErrorType, traceback: String) -> (r: FlashError)
        ensures
            r.error == error,
            r.traceback == traceback,
    {
        FlashError { error, traceback }
    }
}

} // verus!
