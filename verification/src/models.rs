//! The data carried between the handlers, the storage collaborator and
//! the clients: accounts, posts, comments, and the envelope of a paged
//! listing. Timestamps are whole seconds since the Unix epoch and
//! identifiers are non-negative integers.

use vstd::prelude::*;

use crate::errors::Role;

verus! {

/// A stored account, as handed back to clients. `password` carries the
/// PHC-encoded credential record when read from storage and is cleared
/// before the value leaves the server.
#[derive(Clone, Debug)]
pub struct User {
    pub id: u64,
    pub username: String,
    pub email: String,
    /// The credential record, never a plaintext password.
    pub password: Option<String>,
    pub created_at: u64,
    pub role: Role,
}

/// A sign-up request body.
#[derive(Clone, Debug)]
pub struct NewUser {
    pub username: String,
    pub email: String,
    pub password: String,
}

/// A sign-in request body.
#[derive(Clone, Debug)]
pub struct UserCredential {
    pub email: String,
    pub password: String,
}

/// A stored post.
#[derive(Clone, Debug)]
pub struct Post {
    pub id: u64,
    pub author_id: u64,
    pub title: String,
    pub body: String,
    pub created_at: u64,
}

/// A post-creation request body.
#[derive(Clone, Debug)]
pub struct NewPost {
    pub title: String,
    pub body: String,
}

/// A post update: absent fields keep their stored value.
#[derive(Clone, Debug)]
pub struct UpdatedPost {
    pub title: Option<String>,
    pub body: Option<String>,
}

/// A stored comment on a post.
#[derive(Clone, Debug)]
pub struct Comment {
    pub id: u64,
    pub post_id: u64,
    pub author_id: u64,
    pub body: String,
    pub created_at: u64,
}

/// A comment-creation or comment-update request body.
#[derive(Clone, Debug)]
pub struct CommentBody {
    pub id: u64,
    pub body: String,
}

/// The page selection of a listing request; absent fields take the
/// defaults (page 1, ten items).
#[derive(Clone, Copy, Debug)]
pub struct Pagination {
    pub page: Option<u32>,
    pub size: Option<u32>,
}

/// One page of a listing, with the counts a client needs to page on.
#[derive(Clone, Debug)]
pub struct PagedResponse<T> {
    pub data: Vec<T>,
    pub total_pages: u64,
    pub total_items: u64,
    pub current_page: u64,
    pub page_size: u64,
}

/// The one-field error body every failing endpoint answers with.
#[derive(Clone, Debug)]
pub struct ResponseError {
    pub error: String,
}

} // verus!
