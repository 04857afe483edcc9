//! Lifecycle rules: objects of one tier whose key starts with a prefix move
//! to another tier once they are old enough.  A cycle asks the catalogue,
//! rule by rule, for the objects of the source tier's storage class created
//! before the rule's cutoff, and migrates each.
use vstd::prelude::*;
use crate::tier::{class_name, StorageTier};

verus! {

/// Seconds in a day.
pub const SECONDS_PER_DAY: i64 = 86400;

/// When objects move from one tier to another.
pub struct LifecycleRule {
    /// Only objects whose key starts with this prefix.
    pub prefix: String,
    /// The tier the objects are in.
    pub source_tier: StorageTier,
    /// The tier they move to.
    pub destination_tier: StorageTier,
    /// Days after creation before they move.
    pub transition_days: u64,
}

/// Applies lifecycle rules.
pub struct LifecycleEngine {
    rules: Vec<LifecycleRule>,
}

/// What one rule asks the catalogue for, and where the objects found go.
pub struct CandidateQuery {
    pub prefix: String,
    pub storage_class: &'static str,
    pub created_before: i64,
    pub destination_tier: StorageTier,
}

/// The counts of a cycle.
pub struct LifecycleCycleResult {
    pub migrated: u64,
    pub failed: u64,
}

/// The creation time before which objects are old enough for a rule
/// applied at `now` (both in Unix seconds).
pub open spec fn cutoff_of(now: i64, days: u64) -> int {
    now - (days as i64) as int * 86400
}

/// The cutoff of a rule can be computed at `now` without overflow.
pub open spec fn cutoff_fits(now: i64, days: u64) -> bool {
    i64::MIN <= (days as i64) as int * 86400 <= i64::MAX && i64::MIN <= cutoff_of(now, days) <= i64::MAX
}

/// The rules the store runs with: hot objects become warm after 30 days,
/// warm ones cold after 90, whatever their key.
pub fn default_rules() -> (r: Vec<LifecycleRule>)
    ensures
        r@.len() == 2,
        r@[0].prefix@.len() == 0 && r@[0].source_tier == StorageTier::Hot
            && r@[0].destination_tier == StorageTier::Warm && r@[0].transition_days == 30,
        r@[1].prefix@.len() == 0 && r@[1].source_tier == StorageTier::Warm
            && r@[1].destination_tier == StorageTier::Cold && r@[1].transition_days == 90,
{
    let mut v: Vec<LifecycleRule> = Vec::new();
    v.push(LifecycleRule {
        prefix: String::new(),
        source_tier: StorageTier::Hot,
        destination_tier: StorageTier::Warm,
        transition_days: 30,
    });
    v.push(LifecycleRule {
        prefix: String::new(),
        source_tier: StorageTier::Warm,
        destination_tier: StorageTier::Cold,
        transition_days: 90,
    });
    v
}

impl LifecycleEngine {
    /// The rules, in order.
    pub closed spec fn rules(&self) -> Seq<LifecycleRule> {
        self.rules@
    }

    /// The rules, in order.
    pub fn rule_list(&self) -> (r: &[LifecycleRule])
        ensures
            r@ == self.rules(),
    {
        self.rules.as_slice()
    }

    /// An engine that applies `rules`.
    pub fn new(rules: Vec<LifecycleRule>) -> (r: Self)
        ensures
            r.rules() == rules@,
    {
        LifecycleEngine { rules }
    }

    /// What a cycle run at `now` asks for, one query per rule and in the
    /// rules' order: the rule's prefix, the storage class of its source
    /// tier, its cutoff and its destination tier.
    pub fn plan_cycle(&self, now: i64) -> (r: Vec<CandidateQuery>)
        requires
            forall|i: int| 0 <= i < self.rules().len() ==> cutoff_fits(now, #[trigger] self.rules()[i].transition_days),
        ensures
            r@.len() == self.rules().len(),
            forall|i: int| 0 <= i < r@.len() ==> {
                let q = #[trigger] r@[i];
                let rule = self.rules()[i];
                &&& q.prefix == rule.prefix
                &&& q.storage_class@ == class_name(rule.source_tier)
                &&& q.created_before == cutoff_of(now, rule.transition_days)
                &&& q.destination_tier == rule.destination_tier
            },
    {
        let mut out: Vec<CandidateQuery> = Vec::new();
        let mut i: usize = 0;
        while i < self.rules.len()
            invariant
                i <= self.rules@.len(),
                out@.len() == i,
                forall|j: int| 0 <= j < self.rules@.len() ==> cutoff_fits(now, #[trigger] self.rules@[j].transition_days),
                forall|j: int| 0 <= j < i ==> {
                    let q = #[trigger] out@[j];
                    let rule = self.rules@[j];
                    &&& q.prefix == rule.prefix
                    &&& q.storage_class@ == class_name(rule.source_tier)
                    &&& q.created_before == cutoff_of(now, rule.transition_days)
                    &&& q.destination_tier == rule.destination_tier
                },
            decreases self.rules.len() - i,
        {
            let rule = &self.rules[i];
            assert(cutoff_fits(now, self.rules@[i as int].transition_days));
            let days: i64 = #[verifier::truncate] (rule.transition_days as i64);
            let cutoff = now - days * SECONDS_PER_DAY;
            out.push(CandidateQuery {
                prefix: rule.prefix.clone(),
                storage_class: rule.source_tier.to_s3_storage_class(),
                created_before: cutoff,
                destination_tier: rule.destination_tier,
            });
            i = i + 1;
        }
        out
    }
}

impl LifecycleCycleResult {
    /// Nothing migrated or failed yet.
    pub fn new() -> (r: Self)
        ensures
            r.migrated == 0 && r.failed == 0,
    {
        LifecycleCycleResult { migrated: 0, failed: 0 }
    }

    /// Counts one migration, done or failed.
    pub fn record(&mut self, done: bool)
        requires
            old(self).migrated < u64::MAX,
            old(self).failed < u64::MAX,
        ensures
            done ==> final(self).migrated == old(self).migrated + 1 && final(self).failed == old(self).failed,
            !done ==> final(self).failed == old(self).failed + 1 && final(self).migrated == old(self).migrated,
    {
        if done {
            self.migrated = self.migrated + 1;
        } else {
            self.failed = self.failed + 1;
        }
    }
}

/// A rule that waits longer asks for older objects: its cutoff is earlier
/// (for waits that are days counts an `i64` holds).
pub proof fn law_longer_wait_means_earlier_cutoff(now: i64, days1: u64, days2: u64)
    requires
        days1 <= days2 <= i64::MAX,
        cutoff_fits(now, days1),
        cutoff_fits(now, days2),
    ensures
        cutoff_of(now, days2) <= cutoff_of(now, days1),
{
    assert((days1 as i64) as int == days1 as int) by (bit_vector)
        requires
            days1 <= 0x7fff_ffff_ffff_ffffu64,
    ;
    assert((days2 as i64) as int == days2 as int) by (bit_vector)
        requires
            days2 <= 0x7fff_ffff_ffff_ffffu64,
    ;
}

} // verus!
