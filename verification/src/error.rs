//! The error taxonomy shared by the service operations and the client-side
//! path resolution.

use vstd::prelude::*;
use crate::api::ErrorResponse;

verus! {

/// Why an operation failed.
///
/// `Unauthorized` covers bad sessions and bad credentials; `Conflict` a
/// duplicate registration; `InvalidInput` malformed request fields;
/// `NotFound` a deletion of an id with no live entry; `Fatal` a missing
/// home-directory environment variable, after which the process cannot
/// sensibly continue.
#[derive(Clone, Copy, Debug, PartialEq, Eq, Structural)]
pub enum ServiceError {
    Unauthorized,
    Conflict,
    InvalidInput,
    NotFound,
    Fatal,
}

/// The human-readable reason reported for each failure.
pub open spec fn reason_of(e: ServiceError) -> Seq<char> {
    match e {
        ServiceError::Unauthorized => "unauthorized"@,
        ServiceError::Conflict => "username or email already in use"@,
        ServiceError::InvalidInput => "invalid request"@,
        ServiceError::NotFound => "not found"@,
        ServiceError::Fatal => "home directory environment variable not set"@,
    }
}

impl ServiceError {
    /// The wire form of a failure: every server-side error surfaces as an
    /// `ErrorResponse` with a human-readable reason.
    pub fn to_response(&self) -> (r: ErrorResponse)
        ensures
            r.reason@ == reason_of(*self),
    {
        let reason = match self {
            ServiceError::Unauthorized => "unauthorized".to_owned(),
            ServiceError::Conflict => "username or email already in use".to_owned(),
            ServiceError::InvalidInput => "invalid request".to_owned(),
            ServiceError::NotFound => "not found".to_owned(),
            ServiceError::Fatal => "home directory environment variable not set".to_owned(),
        };
        ErrorResponse { reason }
    }
}

} // verus!
