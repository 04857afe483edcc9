//! Checking that stored objects still hold what their names promise: an
//! object is stored under the hex SHA-256 of its data, so reading it back
//! and hashing it again must give its name.
use vstd::prelude::*;
use crate::outside::{sha256, sha256_digest};
use crate::text::{chars_eq, chars_of, hex_encode, hex_lower, string_of};

verus! {

/// An object whose data no longer hashes to its name.
pub struct IntegrityMismatch {
    pub pool_id: String,
    pub object_hash: String,
    pub expected: String,
    pub actual: String,
}

/// The outcome of one check of all pools.
pub struct IntegrityResult {
    pub checked: u64,
    pub mismatches: u64,
    pub errors: u64,
    pub timestamp: String,
    pub details: Vec<IntegrityMismatch>,
}

/// Runs the checks of stored objects.
pub struct IntegrityChecker;

/// The counts of a check while it runs.
pub struct IntegrityTally {
    pub checked: u64,
    pub mismatches: u64,
    pub errors: u64,
    pub details: Vec<IntegrityMismatch>,
}

/// The name an object with this data is stored under.
pub open spec fn content_name(data: Seq<u8>) -> Seq<char> {
    hex_lower(sha256_digest(data))
}

impl IntegrityTally {
    /// The counts agree: every mismatch and every unreadable object was
    /// checked, and each mismatch is described once.
    pub open spec fn wf(&self) -> bool {
        &&& self.mismatches + self.errors <= self.checked
        &&& self.details@.len() == self.mismatches
    }
}

impl IntegrityChecker {
    /// Nothing checked yet.
    pub fn start() -> (r: IntegrityTally)
        ensures
            r.wf(),
            r.checked == 0 && r.mismatches == 0 && r.errors == 0,
    {
        IntegrityTally { checked: 0, mismatches: 0, errors: 0, details: Vec::new() }
    }

    /// Accounts for one stored object of pool `pool_id` named `object_hash`,
    /// with its data, or `None` when it could not be read.  An unreadable
    /// object is an error; one whose data does not hash to its name is a
    /// mismatch, described with the name expected and the hash found.
    pub fn examine(tally: &mut IntegrityTally, pool_id: &str, object_hash: &str, data: Option<&[u8]>)
        requires
            old(tally).wf(),
            old(tally).checked < u64::MAX,
        ensures
            final(tally).wf(),
            final(tally).checked == old(tally).checked + 1,
            data is None ==> final(tally).errors == old(tally).errors + 1
                && final(tally).mismatches == old(tally).mismatches
                && final(tally).details@ == old(tally).details@,
            (data is Some && content_name(data->0@) == object_hash@) ==> final(tally).errors == old(tally).errors
                && final(tally).mismatches == old(tally).mismatches
                && final(tally).details@ == old(tally).details@,
            (data is Some && content_name(data->0@) != object_hash@) ==> final(tally).errors == old(tally).errors
                && final(tally).mismatches == old(tally).mismatches + 1
                && final(tally).details@.drop_last() == old(tally).details@
                && ({
                    let m = final(tally).details@.last();
                    &&& m.pool_id@ == pool_id@
                    &&& m.object_hash@ == object_hash@
                    &&& m.expected@ == object_hash@
                    &&& m.actual@ == content_name(data->0@)
                }),
    {
        tally.checked = tally.checked + 1;
        match data {
            None => {
                tally.errors = tally.errors + 1;
            },
            Some(d) => {
                let digest = sha256(d);
                let actual = hex_encode(&digest);
                if !chars_eq(actual.as_slice(), chars_of(object_hash).as_slice()) {
                    tally.mismatches = tally.mismatches + 1;
                    tally.details.push(IntegrityMismatch {
                        pool_id: pool_id.to_string(),
                        object_hash: object_hash.to_string(),
                        expected: object_hash.to_string(),
                        actual: string_of(actual.as_slice()),
                    });
                }
            },
        }
    }

    /// The result of a finished check, stamped with `timestamp`.
    pub fn finish(tally: IntegrityTally, timestamp: String) -> (r: IntegrityResult)
        ensures
            r.checked == tally.checked,
            r.mismatches == tally.mismatches,
            r.errors == tally.errors,
            r.timestamp == timestamp,
            r.details@ == tally.details@,
    {
        IntegrityResult {
            checked: tally.checked,
            mismatches: tally.mismatches,
            errors: tally.errors,
            timestamp,
            details: tally.details,
        }
    }
}

} // verus!
