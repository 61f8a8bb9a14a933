//! The library's domain errors. HTTP status codes and wire shapes are the
//! consumer's business; this type only says which kind of failure happened.
//!
//! Against account enumeration, `login` answers an unknown user and a wrong
//! password with the same `Unauthorized` variant.
use vstd::prelude::*;

verus! {

#[derive(Debug)]
pub enum IdmError {
    /// The resource does not exist, or was soft-deleted.
    NotFound,
    /// Not authenticated, or the credentials are invalid. Never tells an unknown
    /// user apart from a wrong password.
    Unauthorized,
    /// The resource conflicts with another one (username or email taken). The
    /// message is meant for the user.
    Conflict(String),
    /// The request body could not be read as the expected JSON.
    BadRequest(String),
    /// The request body was read but breaks a field rule (length, email form).
    Validation(String),
    /// Any other failure (storage, hashing, signing). The detail is for logs only.
    Internal(String),
}

/// `r` is an `Internal` failure: the machinery behind the request (storage,
/// hashing, signing) failed, rather than the request itself.
pub open spec fn is_internal<T>(r: Result<T, IdmError>) -> bool {
    r matches Err(IdmError::Internal(_))
}

} // verus!
