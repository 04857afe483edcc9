//! Choosing the pool that receives a new object, and the pools that hold its
//! replicas.
//!
//! A pool is available for an object when it is healthy and has at least the
//! object's size left free.  The weighted round robin gives each available
//! pool a share of the turns proportional to its free space: the turn number,
//! taken modulo the total free space, falls into the interval that belongs to
//! one pool.
use vstd::prelude::*;
use crate::error::Error;
use crate::pool::{PoolStatus, StoragePool};

verus! {

/// The strategies by which a pool is chosen.
#[derive(Debug, Clone, Copy, PartialEq, Eq, Structural)]
pub enum SchedulingStrategy {
    WeightedRoundRobin,
    LeastLoaded,
    ConsistentHash,
    Adaptive,
}

/// The space left in a pool.
pub open spec fn free_space(p: StoragePool) -> int {
    p.capacity - p.used
}

/// The pool can take an object of `size` bytes.
pub open spec fn fits(p: StoragePool, size: u64) -> bool {
    p.status == PoolStatus::Healthy && free_space(p) >= size
}

/// The positions, in order, of the pools that can take an object of `size` bytes.
pub open spec fn available(pools: Seq<StoragePool>, size: u64) -> Seq<int>
    decreases pools.len(),
{
    if pools.len() == 0 {
        Seq::empty()
    } else {
        let rest = available(pools.drop_last(), size);
        if fits(pools.last(), size) {
            rest.push(pools.len() - 1)
        } else {
            rest
        }
    }
}

/// The positions, in order, of the healthy pools.
pub open spec fn healthy(pools: Seq<StoragePool>) -> Seq<int>
    decreases pools.len(),
{
    if pools.len() == 0 {
        Seq::empty()
    } else {
        let rest = healthy(pools.drop_last());
        if pools.last().status == PoolStatus::Healthy {
            rest.push(pools.len() - 1)
        } else {
            rest
        }
    }
}

/// The free space of the pools at the given positions, added up.
pub open spec fn free_total(pools: Seq<StoragePool>, idx: Seq<int>) -> int
    decreases idx.len(),
{
    if idx.len() == 0 {
        0
    } else {
        free_total(pools, idx.drop_last()) + free_space(pools[idx.last()])
    }
}

/// The first place `k` at or after `from` in `idx` whose running total of free
/// space exceeds `target`; the first place where there is none.
pub open spec fn first_exceeding(pools: Seq<StoragePool>, idx: Seq<int>, target: int, from: int) -> int
    decreases idx.len() - from,
{
    if from < 0 || from >= idx.len() {
        0
    } else if target < free_total(pools, idx.take(from + 1)) {
        from
    } else {
        first_exceeding(pools, idx, target, from + 1)
    }
}

/// Healthy pools do not use more than their capacity.
pub open spec fn usage_within_capacity(pools: Seq<StoragePool>) -> bool {
    forall|i: int| 0 <= i < pools.len() && #[trigger] pools[i].status == PoolStatus::Healthy
        ==> pools[i].used <= pools[i].capacity
}

/// The position, among the available pools, that the weighted round robin
/// picks for turn number `ticket`.
pub open spec fn weighted_pick(pools: Seq<StoragePool>, size: u64, ticket: u64) -> int {
    let av = available(pools, size);
    first_exceeding(pools, av, ticket as int % free_total(pools, av), 0)
}

proof fn lemma_available_props(pools: Seq<StoragePool>, size: u64)
    ensures
        available(pools, size).len() <= pools.len(),
        forall|k: int| 0 <= k < available(pools, size).len() ==> {
            let i = #[trigger] available(pools, size)[k];
            0 <= i < pools.len() && fits(pools[i], size)
        },
    decreases pools.len(),
{
    if pools.len() > 0 {
        lemma_available_props(pools.drop_last(), size);
    }
}

proof fn lemma_healthy_props(pools: Seq<StoragePool>)
    ensures
        healthy(pools).len() <= pools.len(),
        forall|k: int| 0 <= k < healthy(pools).len() ==> {
            let i = #[trigger] healthy(pools)[k];
            0 <= i < pools.len() && pools[i].status == PoolStatus::Healthy
        },
        forall|k1: int, k2: int| 0 <= k1 < k2 < healthy(pools).len() ==> healthy(pools)[k1] < healthy(pools)[k2],
    decreases pools.len(),
{
    if pools.len() > 0 {
        lemma_healthy_props(pools.drop_last());
    }
}

/// Over pools that all have free space, a prefix never adds up to more than
/// the whole.
proof fn lemma_free_total_prefix(pools: Seq<StoragePool>, idx: Seq<int>, j: int)
    requires
        0 <= j <= idx.len(),
        forall|k: int| 0 <= k < idx.len() ==> free_space(pools[#[trigger] idx[k]]) >= 0,
    ensures
        0 <= free_total(pools, idx.take(j)) <= free_total(pools, idx),
    decreases idx.len(),
{
    if j == idx.len() {
        assert(idx.take(j) =~= idx);
        if idx.len() > 0 {
            lemma_free_total_prefix(pools, idx.drop_last(), j - 1);
            assert(idx.drop_last().take(j - 1) =~= idx.drop_last());
        }
    } else {
        let d = idx.drop_last();
        assert forall|k: int| 0 <= k < d.len() implies free_space(pools[#[trigger] d[k]]) >= 0 by {
            assert(d[k] == idx[k]);
        }
        lemma_free_total_prefix(pools, d, j);
        assert(d.take(j) =~= idx.take(j));
        assert(free_space(pools[idx[idx.len() - 1]]) >= 0);
    }
}

proof fn lemma_free_total_step(pools: Seq<StoragePool>, idx: Seq<int>, k: int)
    requires
        0 <= k < idx.len(),
    ensures
        free_total(pools, idx.take(k + 1)) == free_total(pools, idx.take(k)) + free_space(pools[idx[k]]),
{
    assert(idx.take(k + 1).drop_last() =~= idx.take(k));
}

/// Picks a pool for an object of `size` bytes by weighted round robin, for
/// turn number `ticket`.
///
/// Fails with `NoAvailablePool` when no pool is available.  Otherwise the
/// turn is taken modulo the total free space of the available pools, and the
/// pool whose running total first exceeds it is chosen.
pub fn weighted_round_robin_select<'a>(pools: &'a [StoragePool], size: u64, ticket: u64) -> (r: Result<&'a StoragePool, Error>)
    requires
        usage_within_capacity(pools@),
        free_total(pools@, available(pools@, size)) <= u64::MAX,
        available(pools@, size).len() > 0 ==> free_total(pools@, available(pools@, size)) > 0,
    ensures
        available(pools@, size).len() == 0 ==> r matches Err(Error::NoAvailablePool),
        available(pools@, size).len() > 0 ==> (r matches Ok(p) && *p == pools@[available(pools@, size)[weighted_pick(pools@, size, ticket)]]),
{
    let ghost av = available(pools@, size);
    proof {
        lemma_available_props(pools@, size);
    }
    let mut idxs: Vec<usize> = Vec::new();
    let mut i: usize = 0;
    while i < pools.len()
        invariant
            i <= pools.len(),
            usage_within_capacity(pools@),
            idxs@.len() == available(pools@.take(i as int), size).len(),
            forall|k: int| 0 <= k < idxs@.len() ==> idxs@[k] as int == #[trigger] available(pools@.take(i as int), size)[k],
        decreases pools.len() - i,
    {
        let ghost before = pools@.take(i as int);
        assert(pools@.take(i as int + 1).drop_last() =~= before);
        let p = &pools[i];
        if p.status == PoolStatus::Healthy && p.capacity - p.used >= size {
            idxs.push(i);
        }
        i = i + 1;
    }
    assert(pools@.take(pools.len() as int) =~= pools@);
    if idxs.len() == 0 {
        return Err(Error::NoAvailablePool);
    }
    proof {
        assert forall|k: int| 0 <= k < av.len() implies free_space(pools@[#[trigger] av[k]]) >= 0 by {
            assert(fits(pools@[av[k]], size));
        }
    }
    let mut total: u64 = 0;
    let mut k: usize = 0;
    while k < idxs.len()
        invariant
            k <= idxs@.len(),
            idxs@.len() == av.len(),
            forall|j: int| 0 <= j < idxs@.len() ==> idxs@[j] as int == #[trigger] av[j],
            forall|j: int| 0 <= j < av.len() ==> 0 <= #[trigger] av[j] < pools@.len() && fits(pools@[av[j]], size),
            forall|j: int| 0 <= j < av.len() ==> free_space(pools@[#[trigger] av[j]]) >= 0,
            free_total(pools@, av) <= u64::MAX,
            total as int == free_total(pools@, av.take(k as int)),
        decreases idxs@.len() - k,
    {
        proof {
            lemma_free_total_step(pools@, av, k as int);
            lemma_free_total_prefix(pools@, av, k as int + 1);
        }
        let p = &pools[idxs[k]];
        total = total + (p.capacity - p.used);
        k = k + 1;
    }
    assert(av.take(av.len() as int) =~= av);
    let target = ticket % total;
    let mut cumulative: u64 = 0;
    let mut k: usize = 0;
    while k < idxs.len()
        invariant
            k <= idxs@.len(),
            idxs@.len() == av.len(),
            idxs@.len() > 0,
            forall|j: int| 0 <= j < idxs@.len() ==> idxs@[j] as int == #[trigger] av[j],
            forall|j: int| 0 <= j < av.len() ==> 0 <= #[trigger] av[j] < pools@.len() && fits(pools@[av[j]], size),
            forall|j: int| 0 <= j < av.len() ==> free_space(pools@[#[trigger] av[j]]) >= 0,
            total as int == free_total(pools@, av),
            total > 0,
            target == ticket % total,
            av == available(pools@, size),
            cumulative as int == free_total(pools@, av.take(k as int)),
            first_exceeding(pools@, av, target as int, 0) == first_exceeding(pools@, av, target as int, k as int),
        decreases idxs@.len() - k,
    {
        proof {
            lemma_free_total_step(pools@, av, k as int);
            lemma_free_total_prefix(pools@, av, k as int + 1);
        }
        let p = &pools[idxs[k]];
        cumulative = cumulative + (p.capacity - p.used);
        if target < cumulative {
            return Ok(p);
        }
        k = k + 1;
    }
    Ok(&pools[idxs[0]])
}

/// The weighted round robin always picks an available pool, and, turn by
/// turn, the pool whose interval of the free space holds the turn: the
/// running total of free space before it is at most the turn, and the one
/// that includes it exceeds the turn.
pub proof fn law_weighted_pick_matches_free_space(pools: Seq<StoragePool>, size: u64, ticket: u64)
    requires
        usage_within_capacity(pools),
        available(pools, size).len() > 0,
        free_total(pools, available(pools, size)) > 0,
    ensures
        ({
            let av = available(pools, size);
            let k = weighted_pick(pools, size, ticket);
            let t = ticket as int % free_total(pools, av);
            &&& 0 <= k < av.len()
            &&& fits(pools[av[k]], size)
            &&& free_total(pools, av.take(k)) <= t < free_total(pools, av.take(k + 1))
        }),
{
    let av = available(pools, size);
    lemma_available_props(pools, size);
    assert forall|j: int| 0 <= j < av.len() implies free_space(pools[#[trigger] av[j]]) >= 0 by {
        assert(fits(pools[av[j]], size));
    }
    let t = ticket as int % free_total(pools, av);
    assert(av.take(0) =~= Seq::<int>::empty());
    lemma_first_exceeding_interval(pools, av, t, 0);
}

proof fn lemma_first_exceeding_interval(pools: Seq<StoragePool>, idx: Seq<int>, t: int, from: int)
    requires
        0 <= from <= idx.len(),
        forall|j: int| 0 <= j < idx.len() ==> free_space(pools[#[trigger] idx[j]]) >= 0,
        free_total(pools, idx.take(from)) <= t < free_total(pools, idx),
    ensures
        ({
            let k = first_exceeding(pools, idx, t, from);
            &&& from <= k < idx.len()
            &&& free_total(pools, idx.take(k)) <= t < free_total(pools, idx.take(k + 1))
        }),
    decreases idx.len() - from,
{
    if from == idx.len() {
        assert(idx.take(from) =~= idx);
    } else if t < free_total(pools, idx.take(from + 1)) {
    } else {
        lemma_first_exceeding_interval(pools, idx, t, from + 1);
    }
}

/// Picks a healthy pool by a hash: the healthy pool at the position of the
/// hash modulo their number.  Fails with `NoAvailablePool` when no pool is
/// healthy.  The object's size plays no part.
pub fn consistent_hash_select<'a>(pools: &'a [StoragePool], hash: usize) -> (r: Result<&'a StoragePool, Error>)
    ensures
        healthy(pools@).len() == 0 ==> r matches Err(Error::NoAvailablePool),
        healthy(pools@).len() > 0 ==> (r matches Ok(p)
            && *p == pools@[healthy(pools@)[hash as int % healthy(pools@).len() as int]]),
{
    proof {
        lemma_healthy_props(pools@);
    }
    let mut idxs: Vec<usize> = Vec::new();
    let mut i: usize = 0;
    while i < pools.len()
        invariant
            i <= pools.len(),
            idxs@.len() == healthy(pools@.take(i as int)).len(),
            forall|k: int| 0 <= k < idxs@.len() ==> idxs@[k] as int == #[trigger] healthy(pools@.take(i as int))[k],
        decreases pools.len() - i,
    {
        assert(pools@.take(i as int + 1).drop_last() =~= pools@.take(i as int));
        if pools[i].status == PoolStatus::Healthy {
            idxs.push(i);
        }
        i = i + 1;
    }
    assert(pools@.take(pools.len() as int) =~= pools@);
    if idxs.len() == 0 {
        return Err(Error::NoAvailablePool);
    }
    let index = hash % idxs.len();
    Ok(&pools[idxs[index]])
}

/// The pools an object's replicas are placed in.
pub trait PlacementStrategy {
    /// Picks `replication_factor` pools among `pools`.
    fn select_pools(&self, pools: &[StoragePool], replication_factor: usize) -> Result<Vec<StoragePool>, Error>;
}

/// Places replicas on the first healthy pools, in order.
pub struct SimpleReplication;

/// The healthy pools, in order.
pub open spec fn healthy_pools(pools: Seq<StoragePool>) -> Seq<StoragePool>
    decreases pools.len(),
{
    if pools.len() == 0 {
        Seq::empty()
    } else {
        let rest = healthy_pools(pools.drop_last());
        if pools.last().status == PoolStatus::Healthy {
            rest.push(pools.last())
        } else {
            rest
        }
    }
}

impl PlacementStrategy for SimpleReplication {
    /// Fails with a configuration error when there are fewer pools than
    /// replicas, and with `StorageUnavailable` when fewer of them are healthy;
    /// otherwise gives copies of the first `replication_factor` healthy pools.
    fn select_pools(&self, pools: &[StoragePool], replication_factor: usize) -> (r: Result<Vec<StoragePool>, Error>)
        ensures
            pools@.len() < replication_factor ==> (r matches Err(Error::ConfigurationError(m))
                && m@ == "Not enough pools for replication"@),
            pools@.len() >= replication_factor && healthy_pools(pools@).len() < replication_factor
                ==> (r matches Err(Error::StorageUnavailable(m)) && m@ == "Not enough healthy pools"@),
            pools@.len() >= replication_factor && healthy_pools(pools@).len() >= replication_factor
                ==> (r matches Ok(v) && v@ == healthy_pools(pools@).take(replication_factor as int)),
    {
        if pools.len() < replication_factor {
            return Err(Error::ConfigurationError("Not enough pools for replication".to_string()));
        }
        let mut selected: Vec<StoragePool> = Vec::new();
        let mut i: usize = 0;
        while i < pools.len()
            invariant
                i <= pools.len(),
                selected@ == (if healthy_pools(pools@.take(i as int)).len() <= replication_factor {
                    healthy_pools(pools@.take(i as int))
                } else {
                    healthy_pools(pools@.take(i as int)).take(replication_factor as int)
                }),
            decreases pools.len() - i,
        {
            let ghost h = healthy_pools(pools@.take(i as int));
            assert(pools@.take(i as int + 1).drop_last() =~= pools@.take(i as int));
            assert(pools@.take(i as int + 1).last() == pools@[i as int]);
            if pools[i].status == PoolStatus::Healthy && selected.len() < replication_factor {
                selected.push(pools[i].duplicate());
            }
            proof {
                let h2 = healthy_pools(pools@.take(i as int + 1));
                if pools@[i as int].status == PoolStatus::Healthy {
                    assert(h2 == h.push(pools@[i as int]));
                    if h.len() >= replication_factor {
                        assert(h2.take(replication_factor as int) =~= h.take(replication_factor as int));
                    }
                } else {
                    assert(h2 == h);
                }
            }
            i = i + 1;
        }
        assert(pools@.take(pools.len() as int) =~= pools@);
        if selected.len() < replication_factor {
            return Err(Error::StorageUnavailable("Not enough healthy pools".to_string()));
        }
        Ok(selected)
    }
}

/// The consistent-hash choice is always a healthy pool.
pub proof fn law_consistent_pick_is_healthy(pools: Seq<StoragePool>, hash: usize)
    requires
        healthy(pools).len() > 0,
    ensures
        ({
            let h = healthy(pools);
            let i = h[hash as int % h.len() as int];
            0 <= i < pools.len() && pools[i].status == PoolStatus::Healthy
        }),
{
    lemma_healthy_props(pools);
    let h = healthy(pools);
    let k = hash as int % h.len() as int;
    assert(0 <= k < h.len());
}

proof fn lemma_healthy_pools_are_healthy(pools: Seq<StoragePool>)
    ensures
        healthy_pools(pools).len() <= pools.len(),
        forall|k: int| 0 <= k < healthy_pools(pools).len() ==> (#[trigger] healthy_pools(pools)[k]).status == PoolStatus::Healthy,
    decreases pools.len(),
{
    if pools.len() > 0 {
        lemma_healthy_pools_are_healthy(pools.drop_last());
    }
}

/// When replicas are placed, exactly as many as were asked for are placed,
/// all on healthy pools.
pub proof fn law_replicas_are_healthy(pools: Seq<StoragePool>, replication_factor: usize)
    requires
        replication_factor <= healthy_pools(pools).len(),
    ensures
        ({
            let chosen = healthy_pools(pools).take(replication_factor as int);
            &&& chosen.len() == replication_factor
            &&& forall|k: int| 0 <= k < chosen.len() ==> (#[trigger] chosen[k]).status == PoolStatus::Healthy
        }),
{
    lemma_healthy_pools_are_healthy(pools);
    let h = healthy_pools(pools);
    let chosen = h.take(replication_factor as int);
    assert forall|k: int| 0 <= k < chosen.len() implies (#[trigger] chosen[k]).status == PoolStatus::Healthy by {
        assert(chosen[k] == h[k]);
    }
}

} // verus!
