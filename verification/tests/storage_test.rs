use objstor::dashboard::demo_log_entry;
use objstor::config::{default_pools, to_pool_configs, StoragePoolConfig};
use objstor::dedup::DedupManager;
use objstor::error::Error;
use objstor::integrity::IntegrityChecker;
use objstor::lifecycle::{default_rules, LifecycleCycleResult, LifecycleEngine, LifecycleRule};
use objstor::pool::{default_capacity, default_max_objects, join_path, PoolConfig, PoolStatus, StorageLayout, StoragePool};
use objstor::pool_set::{add_pool, get_pool, get_total_usage, remove_pool};
use objstor::scheduler::{consistent_hash_select, weighted_round_robin_select, PlacementStrategy, SimpleReplication};
use objstor::tier::StorageTier;

fn s(x: &str) -> String {
    x.to_string()
}

fn pool(id: &str, capacity: u64, used: u64, status: PoolStatus) -> StoragePool {
    let config = PoolConfig {
        id: s(id),
        path: format!("/data/pools/{}", id),
        capacity,
        max_objects: 10,
        quota_enabled: false,
        tier: StorageTier::Hot,
    };
    StoragePool::with_usage(config, Some((used, 0, status)))
}

#[test]
fn pool_defaults() {
    assert_eq!(default_capacity(), 107_374_182_400);
    assert_eq!(default_max_objects(), 1_000_000);
    assert_eq!(PoolStatus::from_name("Degraded"), PoolStatus::Degraded);
    assert_eq!(PoolStatus::from_name("whatever"), PoolStatus::Healthy);
    assert_eq!(PoolStatus::Full.name(), "Full");
}

#[test]
fn allocation_checks_space_count_and_health() {
    let p = pool("p1", 100, 40, PoolStatus::Healthy);
    let loc = p.allocate(60).unwrap();
    assert_eq!(loc.pool_id, "p1");
    assert_eq!(loc.size, 60);
    assert!(matches!(p.allocate(61), Err(Error::StorageFull(id)) if id == "p1"));
    let mut full = pool("p2", 100, 0, PoolStatus::Healthy);
    full.objects_count = 10;
    assert!(matches!(full.allocate(1), Err(Error::StorageFull(_))));
    let down = pool("p3", 100, 0, PoolStatus::Offline);
    assert!(matches!(down.allocate(1), Err(Error::StorageUnavailable(id)) if id == "p3"));
    assert_eq!(p.get_usage(), (40, 100));
}

#[test]
fn write_then_delete_restores_usage() {
    let mut p = pool("p1", 100, 40, PoolStatus::Healthy);
    p.record_write(25);
    assert_eq!((p.used, p.objects_count), (65, 1));
    p.record_delete(25);
    assert_eq!((p.used, p.objects_count), (40, 0));
    p.record_delete(1000);
    assert_eq!((p.used, p.objects_count), (0, 0));
}

#[test]
fn weighted_round_robin_follows_free_space() {
    // Free space: a = 10, b (degraded) skipped, c = 30.
    let pools = vec![
        pool("a", 100, 90, PoolStatus::Healthy),
        pool("b", 100, 0, PoolStatus::Degraded),
        pool("c", 100, 70, PoolStatus::Healthy),
    ];
    let pick = |t: u64| weighted_round_robin_select(&pools, 1, t).unwrap().id.clone();
    assert_eq!(pick(0), "a");
    assert_eq!(pick(9), "a");
    assert_eq!(pick(10), "c");
    assert_eq!(pick(39), "c");
    assert_eq!(pick(40), "a");
    // Only c has room for 20 bytes.
    assert_eq!(weighted_round_robin_select(&pools, 20, 0).unwrap().id, "c");
    assert!(matches!(weighted_round_robin_select(&pools, 31, 0), Err(Error::NoAvailablePool)));
}

#[test]
fn consistent_hash_picks_among_healthy_pools() {
    let pools = vec![
        pool("a", 100, 0, PoolStatus::Healthy),
        pool("b", 100, 0, PoolStatus::Offline),
        pool("c", 100, 0, PoolStatus::Healthy),
    ];
    assert_eq!(consistent_hash_select(&pools, 0).unwrap().id, "a");
    assert_eq!(consistent_hash_select(&pools, 1).unwrap().id, "c");
    assert_eq!(consistent_hash_select(&pools, 2).unwrap().id, "a");
    let none = vec![pool("b", 100, 0, PoolStatus::Full)];
    assert!(matches!(consistent_hash_select(&none, 5), Err(Error::NoAvailablePool)));
}

#[test]
fn replication_takes_the_first_healthy_pools() {
    let pools = vec![
        pool("a", 100, 0, PoolStatus::Offline),
        pool("b", 100, 0, PoolStatus::Healthy),
        pool("c", 100, 0, PoolStatus::Healthy),
        pool("d", 100, 0, PoolStatus::Healthy),
    ];
    let picked = SimpleReplication.select_pools(&pools, 2).unwrap();
    let ids: Vec<String> = picked.iter().map(|p| p.id.clone()).collect();
    assert_eq!(ids, vec![s("b"), s("c")]);
    match SimpleReplication.select_pools(&pools, 5) {
        Err(Error::ConfigurationError(m)) => assert_eq!(m, "Not enough pools for replication"),
        _ => panic!("expected a configuration error"),
    }
    match SimpleReplication.select_pools(&pools, 4) {
        Err(Error::StorageUnavailable(m)) => assert_eq!(m, "Not enough healthy pools"),
        _ => panic!("expected unavailable storage"),
    }
}

#[test]
fn pool_set_operations() {
    let mut pools = vec![pool("a", 100, 10, PoolStatus::Healthy), pool("b", 50, 5, PoolStatus::Healthy)];
    assert_eq!(get_pool(&pools, "b").unwrap().capacity, 50);
    assert!(matches!(get_pool(&pools, "z"), Err(Error::StorageNotFound(id)) if id == "z"));
    assert_eq!(get_total_usage(&pools), (15, 150));
    add_pool(&mut pools, pool("c", 10, 1, PoolStatus::Healthy));
    assert_eq!(get_pool(&pools, "c").unwrap().used, 1);
    assert!(remove_pool(&mut pools, "a").is_ok());
    assert_eq!(pools.len(), 2);
    assert!(matches!(remove_pool(&mut pools, "a"), Err(Error::StorageNotFound(_))));
}

#[test]
fn data_directory_layout() {
    let l = StorageLayout::new(s("/data"));
    assert_eq!(l.pools_dir(), "/data/pools");
    assert_eq!(l.pool_dir("p1"), "/data/pools/p1");
    assert_eq!(l.objects_dir("p1"), "/data/pools/p1/objects");
    assert_eq!(l.object_dir("p1", "abcdef"), "/data/pools/p1/objects/ab/abcdef");
    assert_eq!(l.config_dir(), "/data/config");
    assert_eq!(join_path("/x/", "y"), "/x/y");
    assert_eq!(join_path("/x", "/abs"), "/abs");
    assert_eq!(join_path("", "y"), "y");
}

#[test]
fn tiers_and_storage_classes() {
    assert_eq!(StorageTier::from_s3_storage_class("standard_ia"), StorageTier::Hot);
    assert_eq!(StorageTier::from_s3_storage_class("glacier_ir"), StorageTier::Warm);
    assert_eq!(StorageTier::from_s3_storage_class("GLACIER"), StorageTier::Cold);
    assert_eq!(StorageTier::from_s3_storage_class("DEEP_ARCHIVE"), StorageTier::Cold);
    assert_eq!(StorageTier::from_s3_storage_class("unknown"), StorageTier::Hot);
    assert_eq!(StorageTier::Warm.to_s3_storage_class(), "GLACIER_IR");
    assert_eq!(StorageTier::from_str_lower("COLD"), StorageTier::Cold);
    assert_eq!(StorageTier::from_str_lower("lukewarm"), StorageTier::Hot);
    assert_eq!(StorageTier::Hot.to_string(), "HOT");
    assert_eq!(StorageTier::parse("warm"), Ok(StorageTier::Warm));
    assert!(StorageTier::parse("tepid").is_err());
    for t in [StorageTier::Hot, StorageTier::Warm, StorageTier::Cold] {
        assert_eq!(StorageTier::parse(&t.to_string()), Ok(t));
    }
}

#[test]
fn pool_configs_from_the_configuration_file() {
    let entries = vec![StoragePoolConfig {
        id: s("p"),
        path: s("/p"),
        capacity: 5,
        max_objects: 6,
        quota_enabled: true,
        tier: s("Cold"),
    }];
    let cs = to_pool_configs(&entries);
    assert_eq!(cs.len(), 1);
    assert_eq!(cs[0].id, "p");
    assert_eq!(cs[0].capacity, 5);
    assert_eq!(cs[0].tier, StorageTier::Cold);
    let d = to_pool_configs(&default_pools());
    assert_eq!(d[0].tier, StorageTier::Hot);
    assert_eq!(d[1].tier, StorageTier::Warm);
    assert_eq!(d[1].path, "./data/pools/pool-002");
}

#[test]
fn lifecycle_plan_uses_cutoffs_and_storage_classes() {
    let engine = LifecycleEngine::new(default_rules());
    let now = 10_000_000;
    let plan = engine.plan_cycle(now);
    assert_eq!(plan.len(), 2);
    assert_eq!(plan[0].storage_class, "STANDARD");
    assert_eq!(plan[0].created_before, now - 30 * 86400);
    assert_eq!(plan[0].destination_tier, StorageTier::Warm);
    assert_eq!(plan[1].storage_class, "GLACIER_IR");
    assert_eq!(plan[1].created_before, now - 90 * 86400);
    let e2 = LifecycleEngine::new(vec![LifecycleRule {
        prefix: s("logs/"),
        source_tier: StorageTier::Cold,
        destination_tier: StorageTier::Hot,
        transition_days: 0,
    }]);
    let p2 = e2.plan_cycle(5);
    assert_eq!((p2[0].prefix.as_str(), p2[0].storage_class, p2[0].created_before), ("logs/", "GLACIER", 5));
    let mut r = LifecycleCycleResult::new();
    r.record(true);
    r.record(false);
    r.record(true);
    assert_eq!((r.migrated, r.failed), (2, 1));
}

#[test]
fn integrity_tally() {
    let mut t = IntegrityChecker::start();
    let good = "ba7816bf8f01cfea414140de5dae2223b00361a396177a9cb410ff61f20015ad";
    IntegrityChecker::examine(&mut t, "p", good, Some(b"abc"));
    IntegrityChecker::examine(&mut t, "p", good, Some(b"abd"));
    IntegrityChecker::examine(&mut t, "p", "00", None);
    let r = IntegrityChecker::finish(t, s("2024-01-01T00:00:00Z"));
    assert_eq!((r.checked, r.mismatches, r.errors), (3, 1, 1));
    assert_eq!(r.details.len(), 1);
    assert_eq!(r.details[0].expected, good);
    assert_ne!(r.details[0].actual, good);
    assert_eq!(r.timestamp, "2024-01-01T00:00:00Z");
}

#[test]
fn deduplication_decisions() {
    assert!(DedupManager::is_dedup_hit(1));
    assert!(!DedupManager::is_dedup_hit(0));
    assert!(DedupManager::should_delete_data(0));
    assert!(DedupManager::should_delete_data(-1));
    assert!(!DedupManager::should_delete_data(2));
}

#[test]
fn dashboard_log_lines() {
    assert_eq!(demo_log_entry(10), ("info", s("System health check completed")));
    assert_eq!(demo_log_entry(11), ("info", s("Processing request #11")));
    assert_eq!(demo_log_entry(12), ("info", s("Storage usage: 12%")));
    assert_eq!(demo_log_entry(13), ("warn", s("High memory usage: 93%")));
    assert_eq!(demo_log_entry(14), ("info", s("Active connections: 24")));
    assert_eq!(demo_log_entry(16), ("info", s("Object uploaded: file-16.txt")));
    assert_eq!(demo_log_entry(19), ("info", s("Background task #19 completed")));
}

#[test]
fn storage_class_round_trip() {
    assert_eq!(StorageTier::from_s3_storage_class(StorageTier::Hot.to_s3_storage_class()), StorageTier::Hot);
    assert_eq!(StorageTier::from_s3_storage_class(StorageTier::Cold.to_s3_storage_class()), StorageTier::Cold);
    assert_eq!(StorageTier::from_s3_storage_class(StorageTier::Warm.to_s3_storage_class()), StorageTier::Warm);
}

#[test]
fn longer_waits_have_earlier_cutoffs() {
    let plan = LifecycleEngine::new(default_rules()).plan_cycle(1_700_000_000);
    assert!(plan[1].created_before < plan[0].created_before);
}

#[test]
fn pool_object_directory() {
    let p = pool("p1", 100, 0, PoolStatus::Healthy);
    assert_eq!(p.object_dir("abcdef"), "/data/pools/p1/objects/ab/abcdef");
}
