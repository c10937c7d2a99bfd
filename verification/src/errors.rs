//! The error taxonomy of a run: fatal conditions that terminate the whole
//! run, as opposed to per-file parse failures, which are reported but are
//! not fatal on their own.

use vstd::prelude::*;

verus! {

/// The required credential was absent at startup.
#[derive(Debug)]
pub struct ConfigurationError {
    pub message: String,
}

/// A hosting-API request failed, or a named organization could not be
/// resolved. Carries the message of the underlying failure.
#[derive(Debug)]
pub struct DiscoveryError {
    pub message: String,
}

/// The retrieval of one repository's working tree failed.
#[derive(Debug)]
pub struct AcquisitionError {
    pub clone_url: String,
    pub message: String,
}

/// A directory could not be read during traversal.
#[derive(Debug)]
pub struct TraversalError {
    pub message: String,
}

/// Any error that halts the entire run. A per-file parse failure is not
/// among these: it is reported, folded into its pipeline's result, and the
/// run goes on.
#[derive(Debug)]
pub enum FatalError {
    Configuration(ConfigurationError),
    Discovery(DiscoveryError),
    Acquisition(AcquisitionError),
    Traversal(TraversalError),
}

/// Resolves the credential handed in at startup: the run refuses to start
/// without one.
pub fn resolve_credential(provided: Option<String>, missing_message: String) -> (r: Result<
    String,
    ConfigurationError,
>)
    ensures
        r is Ok <==> provided is Some,
        r matches Ok(tok) ==> provided == Some(tok),
        r matches Err(e) ==> e.message == missing_message,
{
    match provided {
        Some(tok) => Ok(tok),
        None => Err(ConfigurationError { message: missing_message }),
    }
}

} // verus!
