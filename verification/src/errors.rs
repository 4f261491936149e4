//! The error taxonomy of the service.

use vstd::prelude::*;

verus! {

/// Every failure the core can report.
///
/// - `InvalidUrl`: the input could not be parsed as an absolute URL with a
///   host; a client input error, never retried.
/// - `DuplicateKey`: an insert hit an already-used code; an internal
///   transient condition that the shortening service retries on.
/// - `ExhaustedRetries`: every generated candidate code collided within the
///   bounded number of attempts.
/// - `NotFound`: a resolution asked for a code that no mapping carries.
/// - `StoreUnavailable`: a transport-level fault of a storage backend; the
///   in-memory store never reports it, an external backend may.
#[derive(Clone, Copy, Debug, PartialEq, Eq, Structural)]
pub enum ErrorKind {
    InvalidUrl,
    DuplicateKey,
    ExhaustedRetries,
    NotFound,
    StoreUnavailable,
}

/// A shortening failure: the programmatic kind, for retry logic and status
/// mapping, together with a human-readable diagnostic for observability.
/// For `InvalidUrl` the diagnostic carries the underlying parse error;
/// it is flattened into a user-facing message only at the outer boundary.
#[derive(Clone, Debug, PartialEq, Eq)]
pub struct ServiceError {
    pub kind: ErrorKind,
    pub diagnostic: String,
}

} // verus!
