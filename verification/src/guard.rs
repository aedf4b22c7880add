//! Request authentication: the ambient clock, session issuance, and the
//! guard that turns an optional bearer token from a request into an
//! authenticated identity. Every token failure is collapsed to the single
//! `Unauthenticated` answer, so a client cannot tell a malformed token
//! from an expired or forged one.

use vstd::prelude::*;

use crate::b64::b64_of;
use crate::claims::Claims;
use crate::errors::{AuthError, Identity, Role};
use crate::jwt::{claims_at, framed, framed_outcome, generate_jwt, hmac_sha256, signing_input,
    token_bytes, verify_jwt};

verus! {

/// Relies on `chrono::Utc::now` and `DateTime::timestamp`: whole seconds
/// since the Unix epoch at the moment of the call. Nothing is promised of
/// the clock's value.
#[verifier::external_body]
fn current_unix_seconds() -> (r: i64) {
    chrono::Utc::now().timestamp()
}

/// The identity a verified token yields.
pub open spec fn identity_of(c: Claims) -> Identity {
    Identity { id: c.sub, role: c.role }
}

/// How the guard answers for a well-shaped token: the identity on
/// success, and the one indistinguishable `Unauthenticated` on any token
/// failure.
pub open spec fn guard_outcome(c: Claims, sig: Seq<u8>, secret: Seq<u8>, now: u64) -> Result<
    Identity,
    AuthError,
> {
    match framed_outcome(c, sig, secret, now) {
        Ok(cc) => Ok(identity_of(cc)),
        Err(_) => Err(AuthError::Unauthenticated),
    }
}

/// Issue a session token for `subject_id` at the current time. Fails only
/// if the process clock reads before the epoch, which no correctly
/// configured host does.
pub fn issue_session(subject_id: u64, role: Role, secret: &Vec<u8>) -> (r: Result<
    String,
    AuthError,
>)
    ensures
        r matches Ok(t) ==> exists|n: u64|
            vstd::utf8::encode_utf8(t@) == token_bytes(
                #[trigger] claims_at(subject_id, role, n),
                secret@,
            ),
        r matches Err(e) ==> e == AuthError::Internal,
{
    let now = current_unix_seconds();
    if now < 0 {
        return Err(AuthError::Internal);
    }
    let now_u = now as u64;
    let t = generate_jwt(subject_id, role, secret, now_u);
    Ok(t)
}

/// Authenticate one request from its optional bearer token, against
/// `secret`, at time `now`. A missing token and every verification
/// failure answer `Unauthenticated`; a valid unexpired token yields the
/// identity inside it.
pub fn verify_request_at(raw_token: Option<&str>, secret: &Vec<u8>, now: u64) -> (r: Result<
    Identity,
    AuthError,
>)
    ensures
        raw_token is None ==> r == Err::<Identity, AuthError>(AuthError::Unauthenticated),
        raw_token matches Some(t) ==> ({
            let tb = vstd::utf8::encode_utf8(t@);
            &&& forall|c: Claims, sig: Seq<u8>|
                framed(tb, c, sig) ==> r == guard_outcome(c, sig, secret@, now)
            &&& (!exists|c: Claims, sig: Seq<u8>| framed(tb, c, sig)) ==> r == Err::<
                Identity,
                AuthError,
            >(AuthError::Unauthenticated)
        }),
{
    let t = match raw_token {
        None => {
            return Err(AuthError::Unauthenticated);
        },
        Some(t) => t,
    };
    match verify_jwt(t, secret, now) {
        Ok(c) => Ok(Identity { id: c.sub, role: c.role }),
        Err(_) => Err(AuthError::Unauthenticated),
    }
}

/// Authenticate one request at the current time. Which tokens count as
/// expired depends on the clock; everything else is as exact as
/// `verify_request_at`: a missing or malformed token and a wrong
/// signature are rejected whatever the clock reads, and a success can
/// only carry the identity of a token correctly signed under `secret`.
pub fn verify_request(raw_token: Option<&str>, secret: &Vec<u8>) -> (r: Result<
    Identity,
    AuthError,
>)
    ensures
        raw_token is None ==> r == Err::<Identity, AuthError>(AuthError::Unauthenticated),
        raw_token matches Some(t) ==> ({
            let tb = vstd::utf8::encode_utf8(t@);
            &&& (!exists|c: Claims, sig: Seq<u8>| framed(tb, c, sig)) ==> r == Err::<
                Identity,
                AuthError,
            >(AuthError::Unauthenticated)
            &&& forall|c: Claims, sig: Seq<u8>|
                framed(tb, c, sig) && sig != b64_of(hmac_sha256(signing_input(c), secret@))
                    ==> r == Err::<Identity, AuthError>(AuthError::Unauthenticated)
            &&& forall|c: Claims, sig: Seq<u8>|
                framed(tb, c, sig) && sig == b64_of(hmac_sha256(signing_input(c), secret@)) ==> (r
                    == Ok::<Identity, AuthError>(identity_of(c)) || r == Err::<
                    Identity,
                    AuthError,
                >(AuthError::Unauthenticated))
        }),
        r matches Ok(id) ==> (raw_token matches Some(t) && exists|c: Claims, sig: Seq<u8>|
            #[trigger] framed(vstd::utf8::encode_utf8(t@), c, sig) && sig == b64_of(
                hmac_sha256(signing_input(c), secret@),
            ) && id == identity_of(c)),
{
    let now = current_unix_seconds();
    let now_u: u64 = if now < 0 {
        0
    } else {
        now as u64
    };
    verify_request_at(raw_token, secret, now_u)
}

} // verus!
