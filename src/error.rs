use vstd::prelude::*;

verus! {

/// A failure reported by the cluster store for one request.
#[derive(Debug, Clone, Copy, PartialEq, Eq, Structural)]
pub enum StoreError {
    /// The addressed object does not exist.
    NotFound,
    /// An optimistic-concurrency clash on the addressed object.
    Conflict,
    /// Any other status answered by the store.
    Status { code: u16 },
    /// The request did not get an answer (network failure, timeout).
    Transport,
    /// The store answered with an object that could not be read.
    Decode,
}

pub const HTTP_NOT_FOUND: u16 = 404;

pub const HTTP_CONFLICT: u16 = 409;

/// The error kind that a store status code stands for.
pub open spec fn store_error_of_status(code: u16) -> StoreError {
    if code == HTTP_NOT_FOUND {
        StoreError::NotFound
    } else if code == HTTP_CONFLICT {
        StoreError::Conflict
    } else {
        StoreError::Status { code }
    }
}

impl StoreError {
    /// Classifies a failing status code answered by the store.
    pub fn from_status(code: u16) -> (r: StoreError)
        ensures
            r == store_error_of_status(code),
    {
        if code == HTTP_NOT_FOUND {
            StoreError::NotFound
        } else if code == HTTP_CONFLICT {
            StoreError::Conflict
        } else {
            StoreError::Status { code }
        }
    }
}

/// Why a reconciliation pass did not converge.
#[derive(Debug, Clone, Copy, PartialEq, Eq, Structural)]
pub enum Error {
    /// The cluster store refused or failed a request.
    Kube(StoreError),
    /// A manifest could not be encoded for the store.
    Serialization,
    /// The custom resource carries no namespace.
    MissingNamespace,
    /// The custom resource carries no name.
    MissingName,
}

/// Errors that retrying cannot cure: the object itself is malformed.
pub open spec fn is_terminal_error(e: Error) -> bool {
    e is MissingNamespace || e is MissingName
}

impl Error {
    /// Whether retrying the pass is pointless for this error.
    pub fn is_terminal(&self) -> (r: bool)
        ensures
            r == is_terminal_error(*self),
    {
        match self {
            Error::MissingNamespace | Error::MissingName => true,
            _ => false,
        }
    }
}

} // verus!
