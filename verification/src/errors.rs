//! Error taxonomy of the update-graph service.

use vstd::prelude::*;

verus! {

/// Every failure the service distinguishes.
///
/// `FetchError` marks a per-stream upstream failure (network, status or parse);
/// it is never fatal and only drops that stream from the next cache snapshot.
/// `StreamUnavailable` and `BasearchUnavailable` are query failures surfaced to
/// the caller. `ValidationError` rejects a request missing required
/// parameters. `SerializationError` marks a graph that could not be encoded.
#[derive(Clone, Copy, Debug, PartialEq, Eq, Structural)]
pub enum GraphError {
    FetchError,
    StreamUnavailable,
    BasearchUnavailable,
    ValidationError,
    SerializationError,
}

impl GraphError {
    /// A short human-readable description of the failure.
    pub fn message(&self) -> (r: String)
        ensures
            *self == GraphError::FetchError ==> r@ == "fetch error"@,
            *self == GraphError::StreamUnavailable ==> r@ == "stream unavailable"@,
            *self == GraphError::BasearchUnavailable ==> r@ == "basearch unavailable"@,
            *self == GraphError::ValidationError ==> r@ == "missing required parameters"@,
            *self == GraphError::SerializationError ==> r@ == "serialization error"@,
    {
        match self {
            GraphError::FetchError => "fetch error".to_owned(),
            GraphError::StreamUnavailable => "stream unavailable".to_owned(),
            GraphError::BasearchUnavailable => "basearch unavailable".to_owned(),
            GraphError::ValidationError => "missing required parameters".to_owned(),
            GraphError::SerializationError => "serialization error".to_owned(),
        }
    }
}

} // verus!
