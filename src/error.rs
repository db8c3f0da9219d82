//! Failures that are not the caller's doing; the boundary answers them with
//! a generic internal error.

use vstd::prelude::*;

verus! {

/// What went wrong.
#[derive(Clone, Copy, Debug, PartialEq, Eq, Structural)]
pub enum Failure {
    /// A login named a user that does not exist.
    UnknownUser,
    /// A stored salt or password hash is not valid hexadecimal.
    MalformedCredential,
    /// The system's random source failed.
    RandomSource,
    /// A password too long for the key derivation.
    PasswordTooLong,
    /// A store has used up its identifiers.
    StoreFull,
    /// A user with this name exists already.
    DuplicateUsername,
    /// A session token is empty or held by another user.
    TokenTaken,
}

/// An unexpected failure while serving a request.
#[derive(Clone, Copy, Debug, PartialEq, Eq, Structural)]
pub struct AppError {
    pub inner: Failure,
}

impl AppError {
    pub fn new(inner: Failure) -> (r: AppError)
        ensures
            r.inner == inner,
    {
        AppError { inner }
    }

    /// The HTTP status and message the boundary answers with: an internal
    /// error, with no detail of what failed.
    pub fn into_response(&self) -> (r: (u16, String))
        ensures
            r.0 == 500,
            r.1@ == "Something went wrong"@,
    {
        (500, String::from_str("Something went wrong"))
    }
}

} // verus!
