//! Session tokens, and resolving the token of a request to its user.

use vstd::prelude::*;
use crate::error::{AppError, Failure};
use crate::password::random_bytes;
use crate::user::{UserHandler, UserRaw, UserTable};

verus! {

/// Why a session token was not accepted.
#[derive(Clone, Copy, Debug, PartialEq, Eq, Structural)]
pub enum AuthError {
    /// No token, an empty one, or one that no user holds.
    InvalidToken,
}

/// The session token a request carries; an empty one counts as none.
#[derive(Debug)]
pub struct SessionQuery {
    pub session_token: Option<String>,
}

impl Default for SessionQuery {
    fn default() -> (r: SessionQuery)
        ensures
            r.session_token is None,
    {
        SessionQuery { session_token: None }
    }
}

/// Relies on uuid::Builder::from_random_bytes, which sets the version and
/// variant bits of 16 random bytes, and on Uuid's Display impl, which writes
/// the 36-character hyphenated form.
#[verifier::external_body]
fn uuid_text(random: &[u8]) -> (r: String)
    requires
        random@.len() == 16,
    ensures
        r@.len() == 36,
{
    let bytes: [u8; 16] = random.try_into().unwrap();
    uuid::Builder::from_random_bytes(bytes).into_uuid().to_string()
}

/// A fresh random (version 4) UUID as session token; fails only when the
/// random source does.
pub fn create_session_token() -> (r: Result<String, AppError>)
    ensures
        match r {
            Ok(t) => t@.len() == 36,
            Err(e) => e.inner == Failure::RandomSource,
        },
{
    match random_bytes(16) {
        Ok(b) => Ok(uuid_text(b.as_slice())),
        Err(_) => Err(AppError::new(Failure::RandomSource)),
    }
}

/// The rejection every gated operation answers an unusable token with.
pub fn session_token_invalid_error() -> (r: AuthError)
    ensures
        r == AuthError::InvalidToken,
{
    AuthError::InvalidToken
}

/// The user a request acts as: the holder of its token, if the token is
/// present and not empty.
pub open spec fn session_user(users: UserTable, session_token: Option<String>) -> Option<UserRaw> {
    match session_token {
        Some(t) => if t@.len() > 0 {
            users.by_token(t@)
        } else {
            None
        },
        None => None,
    }
}

/// Resolves the acting user of a request, or turns the request down.
pub fn require_session(users: &UserHandler, session_token: &Option<String>) -> (r: Result<UserRaw, AuthError>)
    requires
        users@.wf(),
    ensures
        r == (match session_user(users@, *session_token) {
            Some(u) => Ok(u),
            None => Err(AuthError::InvalidToken),
        }),
{
    let token = match session_token {
        Some(t) => t,
        None => {
            return Err(session_token_invalid_error());
        },
    };
    if token.as_str().is_empty() {
        return Err(session_token_invalid_error());
    }
    match users.ensure_session_token(token.as_str()) {
        Some(u) => Ok(u),
        None => Err(session_token_invalid_error()),
    }
}

} // verus!
