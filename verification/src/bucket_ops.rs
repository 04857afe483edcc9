//! The checks a bucket creation passes before the bucket is recorded: its
//! name, that it is new, and the pool it may ask to be stored in.
use vstd::prelude::*;
use crate::error::Error;
use crate::pool::StoragePool;
use crate::pool_set::position_of;
use crate::s3_xml::{is_valid_bucket_name, valid_bucket_name};
use crate::text::push_str;

verus! {

/// Refuses a bucket name that is not valid, with `InvalidRequest`.
pub fn check_bucket_name(name: &str) -> (r: Result<(), Error>)
    ensures
        valid_bucket_name(name@) ==> r is Ok,
        !valid_bucket_name(name@) ==> (r matches Err(Error::InvalidRequest(m)) && m@ == "Invalid bucket name"@),
{
    if is_valid_bucket_name(name) {
        Ok(())
    } else {
        Err(Error::InvalidRequest("Invalid bucket name".to_string()))
    }
}

/// What a bucket is created with: its region and its preferred pool.
pub struct NewBucket {
    pub region: String,
    pub preferred_pool: Option<String>,
}

fn pool_exists(pools: &[StoragePool], id: &str) -> (r: bool)
    ensures
        r == (position_of(pools@, id@) is Some),
{
    crate::pool_set::get_pool(pools, id).is_ok()
}

/// The bucket a creation request makes, once its name was found valid:
/// `BucketAlreadyExists` when a bucket of that name exists; otherwise the
/// region it asks for (`us-east-1` when none), and the pool it asks for,
/// which must be one of `pools` (else `InvalidRequest`).
pub fn plan_new_bucket(
    name: &str,
    already_exists: bool,
    region: Option<&str>,
    preferred_pool: Option<&str>,
    pools: &[StoragePool],
) -> (r: Result<NewBucket, Error>)
    ensures
        already_exists ==> (r matches Err(Error::BucketAlreadyExists(b)) && b@ == name@),
        !already_exists && (preferred_pool matches Some(p) && position_of(pools@, p@) is None) ==> (r matches Err(
            Error::InvalidRequest(m),
        ) && m@ == "Pool '"@ + preferred_pool->0@ + "' not found"@),
        !already_exists && (preferred_pool is None || position_of(pools@, preferred_pool->0@) is Some) ==> (r matches Ok(
            nb,
        ) && nb.region@ == (match region {
            Some(g) => g@,
            None => "us-east-1"@,
        }) && match preferred_pool {
            Some(p) => nb.preferred_pool matches Some(q) && q@ == p@,
            None => nb.preferred_pool is None,
        }),
{
    if already_exists {
        return Err(Error::BucketAlreadyExists(name.to_string()));
    }
    if let Some(p) = preferred_pool {
        if !pool_exists(pools, p) {
            let mut m = String::new();
            push_str(&mut m, "Pool '");
            push_str(&mut m, p);
            push_str(&mut m, "' not found");
            return Err(Error::InvalidRequest(m));
        }
    }
    let region = match region {
        Some(g) => g.to_string(),
        None => "us-east-1".to_string(),
    };
    let preferred_pool = match preferred_pool {
        Some(p) => Some(p.to_string()),
        None => None,
    };
    Ok(NewBucket { region, preferred_pool })
}

} // verus!
