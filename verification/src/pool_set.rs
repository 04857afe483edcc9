//! The set of pools the store manages: finding one by its id, adding and
//! removing pools, and the usage of all of them together.
use vstd::prelude::*;
use crate::error::Error;
use crate::pool::StoragePool;
use crate::tier::StorageTier;
use crate::text::str_eq;

verus! {

/// The position of the first pool with this id.
pub open spec fn position_of(pools: Seq<StoragePool>, id: Seq<char>) -> Option<int>
    decreases pools.len(),
{
    if pools.len() == 0 {
        None
    } else {
        match position_of(pools.drop_last(), id) {
            Some(i) => Some(i),
            None => if pools.last().id@ == id {
                Some(pools.len() - 1)
            } else {
                None
            },
        }
    }
}

/// The used bytes of the pools, added up.
pub open spec fn used_total(pools: Seq<StoragePool>) -> int
    decreases pools.len(),
{
    if pools.len() == 0 {
        0
    } else {
        used_total(pools.drop_last()) + pools.last().used
    }
}

/// The capacities of the pools, added up.
pub open spec fn capacity_total(pools: Seq<StoragePool>) -> int
    decreases pools.len(),
{
    if pools.len() == 0 {
        0
    } else {
        capacity_total(pools.drop_last()) + pools.last().capacity
    }
}

proof fn lemma_position_of(pools: Seq<StoragePool>, id: Seq<char>)
    ensures
        match position_of(pools, id) {
            Some(i) => 0 <= i < pools.len() && pools[i].id@ == id
                && forall|j: int| 0 <= j < i ==> (#[trigger] pools[j]).id@ != id,
            None => forall|j: int| 0 <= j < pools.len() ==> (#[trigger] pools[j]).id@ != id,
        },
    decreases pools.len(),
{
    if pools.len() > 0 {
        let d = pools.drop_last();
        lemma_position_of(d, id);
        match position_of(d, id) {
            Some(i) => {
                assert forall|j: int| 0 <= j < i implies (#[trigger] pools[j]).id@ != id by {
                    assert(d[j] == pools[j]);
                }
            },
            None => {
                if pools.last().id@ != id {
                    assert forall|j: int| 0 <= j < pools.len() implies (#[trigger] pools[j]).id@ != id by {
                        if j < d.len() {
                            assert(d[j] == pools[j]);
                        }
                    }
                } else {
                    assert forall|j: int| 0 <= j < pools.len() - 1 implies (#[trigger] pools[j]).id@ != id by {
                        assert(d[j] == pools[j]);
                    }
                }
            },
        }
    }
}

proof fn lemma_totals_prefix(pools: Seq<StoragePool>, i: int)
    requires
        0 <= i <= pools.len(),
    ensures
        0 <= used_total(pools.take(i)) <= used_total(pools),
        0 <= capacity_total(pools.take(i)) <= capacity_total(pools),
    decreases pools.len(),
{
    if i == pools.len() {
        assert(pools.take(i) =~= pools);
        if pools.len() > 0 {
            lemma_totals_prefix(pools.drop_last(), i - 1);
            assert(pools.drop_last().take(i - 1) =~= pools.drop_last());
        }
    } else {
        lemma_totals_prefix(pools.drop_last(), i);
        assert(pools.drop_last().take(i) =~= pools.take(i));
    }
}

fn find_index(pools: &[StoragePool], id: &str) -> (r: Option<usize>)
    ensures
        match position_of(pools@, id@) {
            Some(i) => r == Some(i as usize),
            None => r is None,
        },
{
    let mut i: usize = 0;
    while i < pools.len()
        invariant
            i <= pools@.len(),
            position_of(pools@.take(i as int), id@) is None,
        decreases pools.len() - i,
    {
        assert(pools@.take(i as int + 1).drop_last() =~= pools@.take(i as int));
        if str_eq(pools[i].id.as_str(), id) {
            proof {
                assert(pools@.take(i as int + 1).last() == pools@[i as int]);
                lemma_prefix_position(pools@, id@, i as int + 1);
            }
            return Some(i);
        }
        i = i + 1;
    }
    assert(pools@.take(pools@.len() as int) =~= pools@);
    None
}

proof fn lemma_prefix_position(pools: Seq<StoragePool>, id: Seq<char>, n: int)
    requires
        0 <= n <= pools.len(),
        position_of(pools.take(n), id) is Some,
    ensures
        position_of(pools, id) == position_of(pools.take(n), id),
    decreases pools.len(),
{
    if n < pools.len() {
        assert(pools.drop_last().take(n) =~= pools.take(n));
        lemma_prefix_position(pools.drop_last(), id, n);
    } else {
        assert(pools.take(n) =~= pools);
    }
}

/// A copy of the first pool with this id; `StorageNotFound` with the id when
/// there is none.
pub fn get_pool(pools: &[StoragePool], pool_id: &str) -> (r: Result<StoragePool, Error>)
    ensures
        match position_of(pools@, pool_id@) {
            Some(i) => r matches Ok(p) && p == pools@[i],
            None => r matches Err(Error::StorageNotFound(id)) && id@ == pool_id@,
        },
{
    proof {
        lemma_position_of(pools@, pool_id@);
    }
    match find_index(pools, pool_id) {
        Some(i) => Ok(pools[i].duplicate()),
        None => Err(Error::StorageNotFound(pool_id.to_string())),
    }
}

/// Adds a pool after the others.
pub fn add_pool(pools: &mut Vec<StoragePool>, pool: StoragePool)
    ensures
        final(pools)@ == old(pools)@.push(pool),
{
    pools.push(pool);
}

/// Removes the first pool with this id; `StorageNotFound` with the id, and
/// nothing removed, when there is none.
pub fn remove_pool(pools: &mut Vec<StoragePool>, pool_id: &str) -> (r: Result<(), Error>)
    ensures
        match position_of(old(pools)@, pool_id@) {
            Some(i) => r is Ok && final(pools)@ == old(pools)@.remove(i),
            None => (r matches Err(Error::StorageNotFound(id)) && id@ == pool_id@) && final(pools)@ == old(pools)@,
        },
{
    proof {
        lemma_position_of(pools@, pool_id@);
    }
    match find_index(pools.as_slice(), pool_id) {
        Some(i) => {
            pools.remove(i);
            Ok(())
        },
        None => Err(Error::StorageNotFound(pool_id.to_string())),
    }
}

/// The pools of tier `tier`, in order.
pub open spec fn tier_pools(pools: Seq<StoragePool>, tier: StorageTier) -> Seq<StoragePool>
    decreases pools.len(),
{
    if pools.len() == 0 {
        Seq::<StoragePool>::empty()
    } else if pools.last().config.tier == tier {
        tier_pools(pools.drop_last(), tier).push(pools.last())
    } else {
        tier_pools(pools.drop_last(), tier)
    }
}

/// The pools an object of tier `tier` may be placed in: those of the tier,
/// or all pools when none has it.
pub open spec fn placement_candidates(pools: Seq<StoragePool>, tier: StorageTier) -> Seq<StoragePool> {
    if tier_pools(pools, tier).len() == 0 {
        pools
    } else {
        tier_pools(pools, tier)
    }
}

/// The pools an object of tier `tier` may be placed in: copies of those of
/// the tier, in order, or of all pools when none has it.
pub fn candidate_pools(pools: &[StoragePool], tier: StorageTier) -> (r: Vec<StoragePool>)
    ensures
        r@ == placement_candidates(pools@, tier),
{
    let n = pools.len();
    let mut of_tier: Vec<StoragePool> = Vec::new();
    for i in 0..n
        invariant
            n == pools@.len(),
            of_tier@ == tier_pools(pools@.take(i as int), tier),
    {
        assert(pools@.take(i + 1).drop_last() =~= pools@.take(i as int));
        assert(pools@.take(i + 1).last() == pools@[i as int]);
        if pools[i].config.tier == tier {
            of_tier.push(pools[i].duplicate());
        }
    }
    assert(pools@.take(n as int) =~= pools@);
    if of_tier.len() == 0 {
        let mut all: Vec<StoragePool> = Vec::new();
        for i in 0..n
            invariant
                n == pools@.len(),
                all@ == pools@.take(i as int),
        {
            all.push(pools[i].duplicate());
            assert(all@ =~= pools@.take(i + 1));
        }
        all
    } else {
        of_tier
    }
}

/// The bytes used and the capacity of all the pools together.
pub fn get_total_usage(pools: &[StoragePool]) -> (r: (u64, u64))
    requires
        used_total(pools@) <= u64::MAX,
        capacity_total(pools@) <= u64::MAX,
    ensures
        r.0 == used_total(pools@),
        r.1 == capacity_total(pools@),
{
    let mut used: u64 = 0;
    let mut cap: u64 = 0;
    let mut i: usize = 0;
    while i < pools.len()
        invariant
            i <= pools@.len(),
            used_total(pools@) <= u64::MAX,
            capacity_total(pools@) <= u64::MAX,
            used == used_total(pools@.take(i as int)),
            cap == capacity_total(pools@.take(i as int)),
        decreases pools.len() - i,
    {
        assert(pools@.take(i as int + 1).drop_last() =~= pools@.take(i as int));
        proof {
            lemma_totals_prefix(pools@, i as int + 1);
        }
        used = used + pools[i].used;
        cap = cap + pools[i].capacity;
        i = i + 1;
    }
    assert(pools@.take(pools@.len() as int) =~= pools@);
    (used, cap)
}

/// A pool added under an id no other pool has is the one found under it,
/// and removing it gives back the pools there were before.
pub proof fn law_added_pool_is_found_and_removable(pools: Seq<StoragePool>, pool: StoragePool)
    requires
        position_of(pools, pool.id@) is None,
    ensures
        position_of(pools.push(pool), pool.id@) == Some(pools.len() as int),
        pools.push(pool).remove(pools.len() as int) == pools,
{
    assert(pools.push(pool).drop_last() =~= pools);
    assert(pools.push(pool).remove(pools.len() as int) =~= pools);
}

} // verus!
