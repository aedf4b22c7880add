//! Credential hashing: one-way password hashing with a fresh random salt,
//! and constant-time verification of a password against a stored record.
//! The memory-hard digest is computed by the `argon2` crate; this module
//! states what its calls promise and proves the handling around them.

use vstd::prelude::*;

use crate::errors::AuthError;

verus! {

/// Does verifying password `pw` against the stored record `rec` succeed?
/// Verification re-derives the digest from the salt and parameters encoded
/// in the record, so the answer is a function of the two strings alone.
pub uninterp spec fn phc_matches(pw: Seq<char>, rec: Seq<char>) -> bool;

/// Relies on `argon2`: `SaltString::generate` draws a fresh random salt
/// from the operating system, and `Argon2::default().hash_password`
/// returns a PHC-encoded record that `verify_password` accepts for the
/// same password. An entropy-source failure aborts the process, by
/// design: the hasher must not continue without fresh randomness.
#[verifier::external_body]
pub fn hash_password(password: &str) -> (r: String)
    ensures
        phc_matches(password@, r@),
{
    let salt = argon2::password_hash::SaltString::generate(
        &mut argon2::password_hash::rand_core::OsRng,
    );
    let hash = argon2::PasswordHasher::hash_password(
        &argon2::Argon2::default(),
        password.as_bytes(),
        &salt,
    ).expect("password hashing does not fail with a fresh salt");
    hash.to_string()
}

/// Relies on `argon2`: `PasswordHash::new` parses the PHC record and
/// `Argon2::default().verify_password` re-derives the digest and compares
/// it in constant time. A malformed record and a wrong password both
/// answer `false`; the two are indistinguishable here by design.
#[verifier::external_body]
fn phc_verify(password: &str, record: &str) -> (r: bool)
    ensures
        r == phc_matches(password@, record@),
{
    let parsed = match argon2::PasswordHash::new(record) {
        Ok(p) => p,
        Err(_) => {
            return false;
        },
    };
    argon2::PasswordVerifier::verify_password(
        &argon2::Argon2::default(),
        password.as_bytes(),
        &parsed,
    ).is_ok()
}

/// What password verification answers: success exactly when the record
/// matches, and the single indistinguishable error otherwise.
pub open spec fn verify_password_outcome(pw: Seq<char>, rec: Seq<char>) -> Result<(), AuthError> {
    if phc_matches(pw, rec) {
        Ok(())
    } else {
        Err(AuthError::InvalidCredential)
    }
}

/// Verify `password` against the stored credential `record`. A wrong
/// password and a malformed record yield the same error, so a caller
/// cannot leak which of the two occurred.
pub fn verify_password(password: &str, record: &str) -> (r: Result<(), AuthError>)
    ensures
        r == verify_password_outcome(password@, record@),
{
    if phc_verify(password, record) {
        Ok(())
    } else {
        Err(AuthError::InvalidCredential)
    }
}

/// A record that matches a password verifies: in particular, since
/// `hash_password` returns a record matching the password it was given,
/// verifying a password against its own fresh hash succeeds.
pub proof fn lemma_verify_own_hash(pw: Seq<char>, rec: Seq<char>)
    requires
        phc_matches(pw, rec),
    ensures
        verify_password_outcome(pw, rec) == Ok::<(), AuthError>(()),
{
}

} // verus!
