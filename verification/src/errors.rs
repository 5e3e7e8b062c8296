use vstd::prelude::*;

verus! {

/// The error surface of the library.
///
/// Fetch failures reported by the caller's data source travel through the
/// cache and the aggregator unchanged as [`BackendError::Internal`]; the
/// cache itself never raises an error of its own.  The credential checks
/// report their refusals as [`BackendError::EmailExists`] and
/// [`BackendError::Unauthorized`].
#[derive(Debug, Clone, PartialEq, Eq)]
pub enum BackendError {
    Unauthorized(String),
    EmailExists(String),
    Internal(String),
}

} // verus!
