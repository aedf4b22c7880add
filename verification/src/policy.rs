//! Ownership policy: the pure decision that gates every mutating operation
//! on an ownership-bearing resource.

use vstd::prelude::*;

use crate::errors::{AuthError, Identity};

verus! {

/// A mutation on a post is allowed exactly when the authenticated identity
/// owns the resource. There is deliberately no admin override: an
/// administrator who does not own the resource is denied, and every
/// non-owner is denied whatever their role.
pub open spec fn owner_may_modify(resource_owner_id: u64, identity: Identity) -> bool {
    identity.id == resource_owner_id
}

/// Decide whether `identity` may update or delete a resource owned by
/// `resource_owner_id`.
pub fn authorize_mutation(resource_owner_id: u64, identity: &Identity) -> (allowed: bool)
    ensures
        allowed == owner_may_modify(resource_owner_id, *identity),
{
    identity.id == resource_owner_id
}

/// The check a mutating endpoint runs before touching a resource it has
/// fetched: deny with `Forbidden` exactly when the policy denies.
pub fn require_owner(resource_owner_id: u64, identity: &Identity) -> (r: Result<(), AuthError>)
    ensures
        r == (if owner_may_modify(resource_owner_id, *identity) {
            Ok::<(), AuthError>(())
        } else {
            Err::<(), AuthError>(AuthError::Forbidden)
        }),
{
    if authorize_mutation(resource_owner_id, identity) {
        Ok(())
    } else {
        Err(AuthError::Forbidden)
    }
}

/// A comment may be updated or deleted only by its author; no admin
/// override exists for comments.
pub fn can_modify_comment(comment_author_id: u64, identity: &Identity) -> (allowed: bool)
    ensures
        allowed == (identity.id == comment_author_id),
{
    identity.id == comment_author_id
}

} // verus!
