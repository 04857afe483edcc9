//! Permission checks.  Every request that passed authentication is allowed:
//! policies are recorded with access keys but not yet enforced.
use vstd::prelude::*;
use crate::error::Error;

verus! {

/// A policy attached to an access key.
pub struct Policy {
    pub effect: String,
    pub actions: Vec<String>,
    pub resources: Vec<String>,
}

/// A user of the store.
pub struct User {
    pub id: String,
    pub username: String,
    pub email: Option<String>,
}

/// An identity policy document.
pub struct IAMPolicy {
    pub version: String,
    pub statements: Vec<Statement>,
}

/// One statement of a policy document.
pub struct Statement {
    pub sid: Option<String>,
    pub effect: String,
    pub actions: Vec<String>,
    pub resources: Vec<String>,
    pub conditions: Option<serde_json::Value>,
}

/// A policy document attached to a bucket.
pub struct BucketPolicy {
    pub version: String,
    pub statements: Vec<Statement>,
}

impl Default for IAMPolicy {
    /// The current policy language version, with no statement.
    fn default() -> (r: Self)
        ensures
            r.version@ == "2012-10-17"@,
            r.statements@.len() == 0,
    {
        IAMPolicy { version: "2012-10-17".to_string(), statements: Vec::new() }
    }
}

/// Decides what an authenticated user may do.
pub struct IamEngine;

impl IamEngine {
    /// Whether `user` may perform `action` on `resource` under `policies`:
    /// always allowed.
    pub fn check_permission(user: &str, action: &str, resource: &str, policies: &[Policy]) -> (r: Result<bool, Error>)
        ensures
            r matches Ok(true),
    {
        Ok(true)
    }

    /// Whether a policy document allows `action` on `resource`: always.
    pub fn evaluate_policy(policy: &serde_json::Value, action: &str, resource: &str) -> (r: bool)
        ensures
            r,
    {
        true
    }
}

} // verus!
