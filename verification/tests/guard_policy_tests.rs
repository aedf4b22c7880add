use blog_api::errors::{AuthError, Identity, Role};
use blog_api::guard::{issue_session, verify_request, verify_request_at};
use blog_api::jwt::{generate_jwt, SESSION_SECONDS};
use blog_api::policy::{authorize_mutation, can_modify_comment, require_owner};

const NOW: u64 = 1_700_000_000;

fn secret() -> Vec<u8> {
    b"a process wide signing secret".to_vec()
}

#[test]
fn missing_token_is_unauthenticated() {
    assert_eq!(
        verify_request_at(None, &secret(), NOW),
        Err(AuthError::Unauthenticated)
    );
    assert_eq!(verify_request(None, &secret()), Err(AuthError::Unauthenticated));
}

#[test]
fn malformed_token_is_unauthenticated() {
    assert_eq!(
        verify_request_at(Some("not a token"), &secret(), NOW),
        Err(AuthError::Unauthenticated)
    );
    assert_eq!(
        verify_request(Some("a.b.c"), &secret()),
        Err(AuthError::Unauthenticated)
    );
}

#[test]
fn expired_token_is_unauthenticated() {
    let s = secret();
    let token = generate_jwt(7, Role::User, &s, NOW);
    assert_eq!(
        verify_request_at(Some(&token), &s, NOW + SESSION_SECONDS),
        Err(AuthError::Unauthenticated)
    );
}

#[test]
fn forged_token_is_unauthenticated() {
    let token = generate_jwt(7, Role::User, &b"other secret".to_vec(), NOW);
    assert_eq!(
        verify_request_at(Some(&token), &secret(), NOW),
        Err(AuthError::Unauthenticated)
    );
}

#[test]
fn valid_token_yields_identity() {
    let s = secret();
    let token = generate_jwt(9, Role::Admin, &s, NOW);
    assert_eq!(
        verify_request_at(Some(&token), &s, NOW),
        Ok(Identity { id: 9, role: Role::Admin })
    );
}

#[test]
fn session_issued_now_authenticates_now() {
    let s = secret();
    let token = issue_session(5, Role::User, &s).expect("clock reads after the epoch");
    assert_eq!(
        verify_request(Some(&token), &s),
        Ok(Identity { id: 5, role: Role::User })
    );
}

#[test]
fn owner_may_mutate_own_resource() {
    assert!(authorize_mutation(5, &Identity { id: 5, role: Role::User }));
    assert!(authorize_mutation(5, &Identity { id: 5, role: Role::Admin }));
}

#[test]
fn non_owner_is_denied() {
    assert!(!authorize_mutation(5, &Identity { id: 7, role: Role::User }));
    assert!(!authorize_mutation(5, &Identity { id: 7, role: Role::Admin }));
}

#[test]
fn non_owner_mutation_is_forbidden() {
    assert_eq!(require_owner(5, &Identity { id: 5, role: Role::User }), Ok(()));
    assert_eq!(
        require_owner(5, &Identity { id: 7, role: Role::Admin }),
        Err(AuthError::Forbidden)
    );
}

#[test]
fn comment_author_only_may_modify() {
    assert!(can_modify_comment(3, &Identity { id: 3, role: Role::User }));
    assert!(!can_modify_comment(3, &Identity { id: 4, role: Role::User }));
    assert!(!can_modify_comment(3, &Identity { id: 4, role: Role::Admin }));
}

#[test]
fn error_messages_leak_nothing() {
    assert_eq!(AuthError::InvalidCredential.message(), "Invalid email or password");
    assert_eq!(AuthError::Unauthenticated.message(), "Unauthorized");
    assert_eq!(AuthError::Forbidden.message(), "Forbidden");
    assert_eq!(AuthError::NotFound.message(), "Not found");
    assert_eq!(AuthError::Internal.message(), "Database Error");
}

#[test]
fn role_wire_text() {
    assert_eq!(Role::User.as_text(), "user");
    assert_eq!(Role::Admin.as_text(), "admin");
}
