//! Access control lists as S3 describes them: an owner and the permissions
//! granted to others.
use vstd::prelude::*;

verus! {

/// The owner of a resource and what is granted on it.
pub struct AccessControlPolicy {
    pub owner: CanonicalUser,
    pub grants: Vec<Grant>,
}

/// A user known by its canonical id.
pub struct CanonicalUser {
    pub id: String,
    pub display_name: String,
}

/// One permission granted to one grantee.
pub struct Grant {
    pub grantee: Grantee,
    pub permission: String,
}

/// Who a grant is for: a user by id, or a group by URI.
pub struct Grantee {
    pub grantee_type: String,
    pub uri: Option<String>,
    pub id: Option<String>,
}

} // verus!
