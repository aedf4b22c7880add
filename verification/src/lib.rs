//! Authentication core for a blog back-end: password hashing, signed session
//! tokens, request authentication, and the ownership policy that gates
//! mutating operations on posts and comments.

pub mod b64;
pub mod claims;
pub mod digits;
pub mod errors;
pub mod guard;
pub mod handlers;
pub mod jwt;
pub mod models;
pub mod password;
pub mod policy;
pub mod routes;
