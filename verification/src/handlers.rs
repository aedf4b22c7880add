//! The decisions inside the resource handlers: what sign-in and sign-up
//! answer once storage has spoken, how a page request is normalized, how
//! a partial post update merges with the stored row, and how an affected
//! row count maps to an outcome. The storage calls themselves happen
//! outside; these functions take their results as plain values.

use vstd::prelude::*;

use crate::errors::{AuthError, Role};
use crate::jwt::{claims_at, generate_jwt, token_bytes, SESSION_SECONDS};
use crate::models::{Pagination, Post, UpdatedPost, User};
use crate::password::{phc_matches, verify_password};

verus! {

/// Decide a sign-in once the account lookup has answered. An unknown
/// email and a wrong password yield the same `InvalidCredential`; a row
/// without a credential record is a storage fault. On success the
/// account is returned with the credential record cleared, beside a
/// fresh session token issued at `now`.
pub fn sign_in_outcome(user: Option<&User>, password: &str, secret: &Vec<u8>, now: u64) -> (r:
    Result<(User, String), AuthError>)
    requires
        now <= u64::MAX - SESSION_SECONDS,
    ensures
        user is None ==> r == Err::<(User, String), AuthError>(AuthError::InvalidCredential),
        user matches Some(u) ==> match u.password {
            None => r == Err::<(User, String), AuthError>(AuthError::Internal),
            Some(h) => {
                if phc_matches(password@, h@) {
                    &&& r matches Ok(p)
                    &&& p.0.id == u.id
                    &&& p.0.username == u.username
                    &&& p.0.email == u.email
                    &&& p.0.password is None
                    &&& p.0.created_at == u.created_at
                    &&& p.0.role == u.role
                    &&& vstd::utf8::encode_utf8(p.1@) == token_bytes(
                        claims_at(u.id, u.role, now),
                        secret@,
                    )
                } else {
                    r == Err::<(User, String), AuthError>(AuthError::InvalidCredential)
                }
            },
        },
{
    let u = match user {
        None => {
            return Err(AuthError::InvalidCredential);
        },
        Some(u) => u,
    };
    let record = match &u.password {
        None => {
            return Err(AuthError::Internal);
        },
        Some(h) => h,
    };
    if verify_password(password, record.as_str()).is_err() {
        return Err(AuthError::InvalidCredential);
    }
    let token = generate_jwt(u.id, u.role, secret, now);
    let sanitized = User {
        id: u.id,
        username: u.username.clone(),
        email: u.email.clone(),
        password: None,
        created_at: u.created_at,
        role: u.role,
    };
    Ok((sanitized, token))
}

/// Build the answer to a successful sign-up: the freshly stored account,
/// with its assigned id and role and without the credential record, and
/// a session token issued at `now`.
pub fn sign_up_outcome(
    new_id: u64,
    username: &String,
    email: &String,
    role: Role,
    secret: &Vec<u8>,
    now: u64,
) -> (r: (User, String))
    requires
        now <= u64::MAX - SESSION_SECONDS,
    ensures
        r.0.id == new_id,
        r.0.username == username,
        r.0.email == email,
        r.0.password is None,
        r.0.created_at == now,
        r.0.role == role,
        vstd::utf8::encode_utf8(r.1@) == token_bytes(claims_at(new_id, role, now), secret@),
{
    let token = generate_jwt(new_id, role, secret, now);
    let user = User {
        id: new_id,
        username: username.clone(),
        email: email.clone(),
        password: None,
        created_at: now,
        role,
    };
    (user, token)
}

/// The page a listing request selects: the requested page and size with
/// their defaults (page 1, ten items), the size floored at one, the row
/// offset, and the number of pages `total_items` rows make at that size.
pub fn paginate(pagination: Option<&Pagination>, total_items: u64) -> (r: (u64, u64, u64, u64))
    ensures
        ({
            let page = match pagination {
                None => 1u64,
                Some(p) => match p.page {
                    None => 1u64,
                    Some(n) => n as u64,
                },
            };
            let size_raw = match pagination {
                None => 10u64,
                Some(p) => match p.size {
                    None => 10u64,
                    Some(n) => n as u64,
                },
            };
            let size = if size_raw < 1 {
                1u64
            } else {
                size_raw
            };
            &&& r.0 == page
            &&& r.1 == size
            &&& r.2 == (if page >= 1 {
                (page - 1) * size
            } else {
                0
            })
            &&& r.3 == (total_items + size - 1) / (size as int)
        }),
{
    let page: u64 = match pagination {
        None => 1,
        Some(p) => match p.page {
            None => 1,
            Some(n) => n as u64,
        },
    };
    let size_raw: u64 = match pagination {
        None => 10,
        Some(p) => match p.size {
            None => 10,
            Some(n) => n as u64,
        },
    };
    let size: u64 = if size_raw < 1 {
        1
    } else {
        size_raw
    };
    let mut offset: u64 = 0;
    if page >= 1 {
        proof {
            assert((page - 1) * size <= 0xFFFF_FFFFu64 * 0xFFFF_FFFFu64) by (nonlinear_arith)
                requires
                    1 <= page <= 0xFFFF_FFFFu64,
                    size <= 0xFFFF_FFFFu64,
            ;
        }
        offset = (page - 1) * size;
    }
    let q: u64 = total_items / size;
    let rem: u64 = total_items % size;
    proof {
        vstd::arithmetic::div_mod::lemma_fundamental_div_mod(total_items as int, size as int);
        let s = size as int;
        if rem == 0 {
            assert(total_items + s - 1 == (q as int) * s + (s - 1)) by (nonlinear_arith)
                requires
                    total_items as int == s * (q as int) + (rem as int),
                    rem == 0,
            ;
            vstd::arithmetic::div_mod::lemma_fundamental_div_mod_converse_div(
                total_items + s - 1,
                s,
                q as int,
                s - 1,
            );
        } else {
            assert(total_items + s - 1 == ((q as int) + 1) * s + (rem as int - 1))
                by (nonlinear_arith)
                requires
                    total_items as int == s * (q as int) + (rem as int),
            ;
            vstd::arithmetic::div_mod::lemma_fundamental_div_mod_converse_div(
                total_items + s - 1,
                s,
                q as int + 1,
                rem as int - 1,
            );
            assert(q + 1 <= u64::MAX) by (nonlinear_arith)
                requires
                    total_items as int == s * (q as int) + (rem as int),
                    (rem as int) > 0,
                    (rem as int) < s,
                    total_items <= u64::MAX,
            ;
        }
    }
    let total_pages: u64 = if rem > 0 {
        q + 1
    } else {
        q
    };
    (page, size, offset, total_pages)
}

/// Merge a partial update into the stored post: a present field replaces
/// the stored one, an absent field keeps it; identity, author and
/// creation time never change.
pub fn merged_post(existing: &Post, update: &UpdatedPost) -> (r: Post)
    ensures
        r.id == existing.id,
        r.author_id == existing.author_id,
        r.created_at == existing.created_at,
        r.title == (match update.title {
            Some(t) => t,
            None => existing.title,
        }),
        r.body == (match update.body {
            Some(b) => b,
            None => existing.body,
        }),
{
    let title = match &update.title {
        Some(t) => t.clone(),
        None => existing.title.clone(),
    };
    let body = match &update.body {
        Some(b) => b.clone(),
        None => existing.body.clone(),
    };
    Post {
        id: existing.id,
        author_id: existing.author_id,
        title,
        body,
        created_at: existing.created_at,
    }
}

/// An ownership-scoped mutation that touched no row means the resource
/// does not exist for this identity: answer `NotFound` and nothing else.
pub fn rows_affected_outcome(rows_affected: u64) -> (r: Result<(), AuthError>)
    ensures
        r == (if rows_affected == 0 {
            Err::<(), AuthError>(AuthError::NotFound)
        } else {
            Ok::<(), AuthError>(())
        }),
{
    if rows_affected == 0 {
        Err(AuthError::NotFound)
    } else {
        Ok(())
    }
}

} // verus!
