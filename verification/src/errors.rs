//! Error taxonomy of the library, one kind per failure class: business
//! validation, missing resources, authentication and authorization gates,
//! auth-service-internal kinds, and infrastructure failures.
use vstd::prelude::*;

verus! {

/// Failure kinds of token issuance and verification.
#[derive(Clone, Copy, Debug, PartialEq, Eq, Structural)]
pub enum TokenError {
    /// The token cannot be parsed into its signed parts and claims.
    Malformed,
    /// The signature does not match the signed content under the secret.
    InvalidSignature,
    /// The signature is valid but the embedded expiry is not in the future.
    Expired,
    /// The signing backend failed; a configuration-level fault.
    Signing,
}

/// Failure kinds reported by a user repository.
#[derive(Clone, Debug, PartialEq, Eq)]
pub enum RepoError {
    /// A uniqueness violation on the email column.
    Duplicate,
    /// Any other persistence failure, with its message.
    Other(String),
}

/// Failure kinds of registration and login.
#[derive(Clone, Debug, PartialEq, Eq)]
pub enum AuthError {
    /// Registration with an email that is already stored.
    DuplicateEmail,
    /// Login with an email that no stored user has.
    UserNotFound,
    /// Login with a password that does not match the stored hash.
    BadCredentials,
    /// The password hashing backend failed; fatal to the request.
    HashingError,
    /// Token issuance failed; fatal to the request.
    TokenIssuance,
    /// A persistence failure surfaced by a repository, with its message.
    Repository(String),
}

/// Rejections of the request gates that run before a protected handler.
#[derive(Clone, Copy, Debug, PartialEq, Eq, Structural)]
pub enum GateError {
    /// No token, or a token that fails verification; the sub-kind is
    /// deliberately not surfaced.
    Unauthenticated,
    /// A valid identity whose role does not meet the route's requirement.
    Forbidden,
}

/// Failure kinds of the todo service.
#[derive(Clone, Debug, PartialEq, Eq)]
pub enum TodoError {
    /// The supplied title is below the minimum length.
    Validation,
    /// No todo with the requested id exists.
    NotFound,
    /// A persistence failure surfaced by a repository, with its message.
    Repository(String),
}

impl GateError {
    /// The HTTP status that this gate rejection maps to at the boundary.
    pub fn http_status(&self) -> (s: u16)
        ensures
            s == (match *self {
                GateError::Unauthenticated => 401u16,
                GateError::Forbidden => 403u16,
            }),
    {
        match *self {
            GateError::Unauthenticated => 401,
            GateError::Forbidden => 403,
        }
    }
}

impl TodoError {
    /// The HTTP status that this failure maps to at the boundary.
    pub fn http_status(&self) -> (s: u16)
        ensures
            s == (match *self {
                TodoError::Validation => 400u16,
                TodoError::NotFound => 404u16,
                TodoError::Repository(_) => 500u16,
            }),
    {
        match *self {
            TodoError::Validation => 400,
            TodoError::NotFound => 404,
            TodoError::Repository(_) => 500,
        }
    }
}

} // verus!
