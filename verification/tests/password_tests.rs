use blog_api::errors::AuthError;
use blog_api::password::{hash_password, verify_password};

#[test]
fn verify_accepts_own_hash() {
    let record = hash_password("correct horse battery staple");
    assert!(verify_password("correct horse battery staple", &record).is_ok());
}

#[test]
fn verify_rejects_wrong_password() {
    let record = hash_password("right");
    assert_eq!(
        verify_password("wrong", &record),
        Err(AuthError::InvalidCredential)
    );
}

#[test]
fn verify_rejects_malformed_record() {
    assert_eq!(
        verify_password("anything", "not-a-credential-record"),
        Err(AuthError::InvalidCredential)
    );
    assert_eq!(verify_password("anything", ""), Err(AuthError::InvalidCredential));
}

#[test]
fn wrong_password_and_malformed_record_are_indistinguishable() {
    let record = hash_password("right");
    let wrong = verify_password("wrong", &record);
    let malformed = verify_password("wrong", "garbage");
    assert_eq!(wrong, malformed);
}

#[test]
fn hash_twice_gives_distinct_records() {
    let a = hash_password("same password");
    let b = hash_password("same password");
    assert_ne!(a, b);
}

#[test]
fn hash_is_a_phc_argon2id_record() {
    let record = hash_password("p");
    assert!(record.starts_with("$argon2id$"));
}

#[test]
fn hashes_of_empty_password_verify() {
    let record = hash_password("");
    assert!(verify_password("", &record).is_ok());
    assert_eq!(verify_password("x", &record), Err(AuthError::InvalidCredential));
}
