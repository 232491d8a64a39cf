//! Typed error signals for the substrate.
//!
//! Conditions that a caller must be able to react to are returned as values
//! of one enum rather than terminating the process: the top-level handler
//! alone decides on exit behaviour and diagnostics.

use vstd::prelude::*;

verus! {

/// Every failure the substrate can signal to its orchestrator.
#[derive(Clone, Copy, Debug, PartialEq, Eq, Structural)]
pub enum SubstrateError {
    /// Neither the POSIX-style nor the Windows-style executable directory
    /// was found under the expected virtual-environment location.
    LayoutNotFound,
    /// A filesystem path could not be represented in the platform's native
    /// string encoding.
    PathEncodingFailed,
    /// The registry request failed: network failure, a non-success HTTP
    /// status, or a response body that did not match the expected shape.
    RegistryFetchFailed,
    /// The bounded wait for externally created directories ran out of polls
    /// before every directory existed.
    DirWaitTimedOut,
}

impl SubstrateError {
    /// A diagnostic line for the top-level handler to present.
    pub fn message(&self) -> (r: String)
        ensures
            *self == SubstrateError::LayoutNotFound ==> r@ == "can't find the executable directory of the virtual environment"@,
            *self == SubstrateError::PathEncodingFailed ==> r@ == "problem converting a path to a native string"@,
            *self == SubstrateError::RegistryFetchFailed ==> r@ == "failed to obtain release data from the registry"@,
            *self == SubstrateError::DirWaitTimedOut ==> r@ == "timed out waiting for a directory to be created"@,
    {
        match self {
            SubstrateError::LayoutNotFound => String::from_str(
                "can't find the executable directory of the virtual environment",
            ),
            SubstrateError::PathEncodingFailed => String::from_str(
                "problem converting a path to a native string",
            ),
            SubstrateError::RegistryFetchFailed => String::from_str(
                "failed to obtain release data from the registry",
            ),
            SubstrateError::DirWaitTimedOut => String::from_str(
                "timed out waiting for a directory to be created",
            ),
        }
    }
}

} // verus!
