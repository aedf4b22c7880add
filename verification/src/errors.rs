//! Error taxonomy of the authentication core, the closed set of roles, and
//! the identity a verified token yields.

use vstd::prelude::*;

verus! {

/// The role carried inside a session token. Roles form a closed set,
/// validated wherever a token or a storage row is read.
#[derive(Clone, Copy, PartialEq, Eq, Structural, Debug)]
pub enum Role {
    User,
    Admin,
}

/// Why a session token was rejected. Callers facing a client collapse all
/// three to a single "unauthenticated" answer so that the client cannot
/// tell the cases apart.
#[derive(Clone, Copy, PartialEq, Eq, Structural, Debug)]
pub enum TokenError {
    /// The token is not shaped like a token this module issues.
    Malformed,
    /// The token is well shaped but its signature does not match the secret.
    SignatureInvalid,
    /// Signature and shape are fine, but the expiry time has passed.
    Expired,
}

/// The request-level error taxonomy of the core.
#[derive(Clone, Copy, PartialEq, Eq, Structural, Debug)]
pub enum AuthError {
    /// Wrong password, unknown account, or a malformed stored record; the
    /// cases are deliberately indistinguishable.
    InvalidCredential,
    /// Missing, malformed, forged or expired session token.
    Unauthenticated,
    /// Authenticated, but not allowed to touch this resource.
    Forbidden,
    /// The resource does not exist.
    NotFound,
    /// A storage or configuration failure outside this core.
    Internal,
}

/// The authenticated subject derived from a verified token; valid for one
/// request only and never persisted.
#[derive(Clone, Copy, PartialEq, Eq, Structural, Debug)]
pub struct Identity {
    pub id: u64,
    pub role: Role,
}

impl Role {
    /// The wire form of the role, as it appears inside a token.
    pub fn as_text(&self) -> (r: &'static str)
        ensures
            self is User ==> r@ == "user"@,
            self is Admin ==> r@ == "admin"@,
    {
        match self {
            Role::User => "user",
            Role::Admin => "admin",
        }
    }
}

impl AuthError {
    /// The client-facing message for this error; internal detail is never
    /// surfaced.
    pub fn message(&self) -> (r: &'static str)
        ensures
            self is InvalidCredential ==> r@ == "Invalid email or password"@,
            self is Unauthenticated ==> r@ == "Unauthorized"@,
            self is Forbidden ==> r@ == "Forbidden"@,
            self is NotFound ==> r@ == "Not found"@,
            self is Internal ==> r@ == "Database Error"@,
    {
        match self {
            AuthError::InvalidCredential => "Invalid email or password",
            AuthError::Unauthenticated => "Unauthorized",
            AuthError::Forbidden => "Forbidden",
            AuthError::NotFound => "Not found",
            AuthError::Internal => "Database Error",
        }
    }
}

} // verus!
