//! Deduplication: an object's data is stored once per pool under its content
//! hash, and the catalogue counts the objects that refer to it.  These are
//! the decisions taken on what the catalogue answers.
use vstd::prelude::*;

verus! {

/// Decides what the reference counts mean for the stored data.
pub struct DedupManager;

impl DedupManager {
    /// After adding a reference: the data was already stored (and need not
    /// be written again) exactly when an existing count was raised.
    pub fn is_dedup_hit(updated_rows: usize) -> (r: bool)
        ensures
            r == (updated_rows > 0),
    {
        updated_rows > 0
    }

    /// After removing a reference: the data is to be deleted, with its
    /// count, exactly when no reference is left.
    pub fn should_delete_data(remaining: i64) -> (r: bool)
        ensures
            r == (remaining <= 0),
    {
        remaining <= 0
    }
}

} // verus!
