use blog_api::errors::{AuthError, Role};
use blog_api::handlers::{merged_post, paginate, rows_affected_outcome, sign_in_outcome,
    sign_up_outcome};
use blog_api::jwt::verify_jwt;
use blog_api::models::{Pagination, Post, UpdatedPost, User};
use blog_api::password::hash_password;

const NOW: u64 = 1_700_000_000;

fn secret() -> Vec<u8> {
    b"a process wide signing secret".to_vec()
}

fn stored_user(id: u64, email: &str, password: &str) -> User {
    User {
        id,
        username: "a".to_string(),
        email: email.to_string(),
        password: Some(hash_password(password)),
        created_at: NOW - 100,
        role: Role::User,
    }
}

#[test]
fn sign_in_unknown_email_is_invalid_credential() {
    assert_eq!(
        sign_in_outcome(None, "p", &secret(), NOW).map(|_| ()),
        Err(AuthError::InvalidCredential)
    );
}

#[test]
fn sign_in_wrong_password_is_invalid_credential() {
    let u = stored_user(1, "a@x.com", "p");
    assert_eq!(
        sign_in_outcome(Some(&u), "q", &secret(), NOW).map(|_| ()),
        Err(AuthError::InvalidCredential)
    );
}

#[test]
fn sign_in_row_without_record_is_internal() {
    let mut u = stored_user(1, "a@x.com", "p");
    u.password = None;
    assert_eq!(
        sign_in_outcome(Some(&u), "p", &secret(), NOW).map(|_| ()),
        Err(AuthError::Internal)
    );
}

#[test]
fn sign_in_clears_credential_record() {
    let u = stored_user(1, "a@x.com", "p");
    let (answered, _token) = sign_in_outcome(Some(&u), "p", &secret(), NOW).unwrap();
    assert!(answered.password.is_none());
    assert_eq!(answered.id, 1);
    assert_eq!(answered.email, "a@x.com");
}

#[test]
fn end_to_end_sign_up_then_sign_in() {
    // Sign-up with {username: "a", email: "a@x.com", password: "p"}: the
    // issued token decodes to the new account's id and role, and a later
    // sign-in with the same email and password yields a token for the
    // same subject.
    let s = secret();
    let record = hash_password("p");
    let new_id: u64 = 31;
    let (account, token) = sign_up_outcome(
        new_id,
        &"a".to_string(),
        &"a@x.com".to_string(),
        Role::User,
        &s,
        NOW,
    );
    assert_eq!(account.id, new_id);
    assert_eq!(account.username, "a");
    assert_eq!(account.email, "a@x.com");
    assert!(account.password.is_none());
    let claims = verify_jwt(&token, &s, NOW).unwrap();
    assert_eq!(claims.sub, new_id);
    assert_eq!(claims.role, Role::User);

    // the storage collaborator would now hold the record; sign in again
    let stored = User { password: Some(record), ..account };
    let (_again, token2) = sign_in_outcome(Some(&stored), "p", &s, NOW + 50).unwrap();
    let claims2 = verify_jwt(&token2, &s, NOW + 50).unwrap();
    assert_eq!(claims2.sub, new_id);
    assert_eq!(claims2.role, Role::User);
}

#[test]
fn paginate_defaults() {
    assert_eq!(paginate(None, 0), (1, 10, 0, 0));
    assert_eq!(paginate(None, 25), (1, 10, 0, 3));
    assert_eq!(paginate(Some(&Pagination { page: None, size: None }), 30), (1, 10, 0, 3));
}

#[test]
fn paginate_explicit_page_and_size() {
    let p = Pagination { page: Some(3), size: Some(7) };
    assert_eq!(paginate(Some(&p), 20), (3, 7, 14, 3));
}

#[test]
fn paginate_floors_size_at_one() {
    let p = Pagination { page: Some(2), size: Some(0) };
    assert_eq!(paginate(Some(&p), 5), (2, 1, 1, 5));
}

#[test]
fn paginate_exact_multiple() {
    let p = Pagination { page: Some(1), size: Some(5) };
    assert_eq!(paginate(Some(&p), 20), (1, 5, 0, 4));
}

#[test]
fn merged_post_keeps_absent_fields() {
    let existing = Post {
        id: 9,
        author_id: 4,
        title: "old title".to_string(),
        body: "old body".to_string(),
        created_at: 123,
    };
    let merged = merged_post(&existing, &UpdatedPost { title: None, body: None });
    assert_eq!(merged.title, "old title");
    assert_eq!(merged.body, "old body");
    assert_eq!(merged.id, 9);
    assert_eq!(merged.author_id, 4);
    assert_eq!(merged.created_at, 123);
}

#[test]
fn merged_post_takes_present_fields() {
    let existing = Post {
        id: 9,
        author_id: 4,
        title: "old title".to_string(),
        body: "old body".to_string(),
        created_at: 123,
    };
    let merged = merged_post(
        &existing,
        &UpdatedPost { title: Some("new title".to_string()), body: None },
    );
    assert_eq!(merged.title, "new title");
    assert_eq!(merged.body, "old body");
}

#[test]
fn zero_rows_affected_is_not_found() {
    assert_eq!(rows_affected_outcome(0), Err(AuthError::NotFound));
    assert_eq!(rows_affected_outcome(1), Ok(()));
    assert_eq!(rows_affected_outcome(2), Ok(()));
}
