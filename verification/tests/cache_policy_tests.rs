use harbor_cache::cache_policy::{
    cache_read_outcome, eviction_candidates_sql, eviction_plan, expired_entries, expiry_cutoff, merged_stats, record_hit, record_miss,
    size_overage, space_to_free, CacheConfig, CacheRead, EvictionPolicy, EVICTION_BATCH, MAINTENANCE_BATCH,
};
use harbor_cache::db::CacheStats;
use harbor_cache::errors::CoreError;
use harbor_cache::storage::StorageError;

#[test]
fn policies() {
    assert_eq!(EvictionPolicy::default(), EvictionPolicy::Lru);
    for p in [EvictionPolicy::Lru, EvictionPolicy::Lfu, EvictionPolicy::Fifo] {
        assert_eq!(EvictionPolicy::from_str(p.as_str()).ok(), Some(p));
    }
    assert_eq!(EvictionPolicy::from_str("LFU").ok(), Some(EvictionPolicy::Lfu));
    assert_eq!(EvictionPolicy::from_str("Fifo").ok(), Some(EvictionPolicy::Fifo));
    match EvictionPolicy::from_str("random") {
        Err(e) => assert_eq!(e.message(), "Invalid eviction policy: random"),
        Ok(_) => panic!("accepted"),
    }
    let c = CacheConfig::default();
    assert_eq!((c.max_size, c.retention_days, c.eviction_policy), (10737418240, 30, EvictionPolicy::Lru));
    assert_eq!((EVICTION_BATCH, MAINTENANCE_BATCH), (100, 10000));
}

#[test]
fn room_to_make() {
    assert_eq!(space_to_free(50, 30, 100), 0);
    assert_eq!(space_to_free(90, 30, 100), 20);
    assert_eq!(space_to_free(100, 0, 100), 0);
    assert_eq!(size_overage(150, 100), 50);
    assert_eq!(size_overage(10, 100), 0);
    // Freeing what is asked for leaves room for the new object.
    let (current, required, max) = (900u64, 300u64, 1000u64);
    let n = space_to_free(current, required, max);
    assert!(current - n + required <= max);
}

#[test]
fn eviction_takes_the_shortest_prefix() {
    assert_eq!(eviction_plan(&vec![10, 20, 30, 40], 25), (2, 30));
    assert_eq!(eviction_plan(&vec![10, 20, 30, 40], 0), (0, 0));
    assert_eq!(eviction_plan(&vec![10, 20], 100), (2, 30));
    assert_eq!(eviction_plan(&vec![], 5), (0, 0));
    assert_eq!(eviction_plan(&vec![5, 5], 10), (2, 10));
}

#[test]
fn expiry() {
    assert_eq!(expiry_cutoff(1_000_000, 1), 1_000_000 - 86400);
    assert_eq!(expiry_cutoff(0, 30), -30 * 86400);
    assert_eq!(expired_entries(&vec![5, 100, 3, 50], 50), vec![0, 2]);
    assert!(expired_entries(&vec![], 50).is_empty());
}

#[test]
fn stats() {
    let counted = CacheStats { total_size: 1, entry_count: 2, manifest_count: 3, blob_count: 4, hit_count: 5, miss_count: 6 };
    let stored = CacheStats { total_size: 10, entry_count: 20, manifest_count: 30, blob_count: 40, hit_count: 0, miss_count: 0 };
    let m = merged_stats(&counted, Some(stored));
    assert_eq!((m.total_size, m.entry_count, m.manifest_count, m.blob_count), (10, 20, 30, 40));
    assert_eq!((m.hit_count, m.miss_count), (5, 6));
    let m = merged_stats(&counted, None);
    assert_eq!((m.total_size, m.blob_count, m.hit_count), (1, 4, 5));
    let mut s = CacheStats::default();
    record_hit(&mut s);
    record_hit(&mut s);
    record_miss(&mut s);
    assert_eq!((s.hit_count, s.miss_count), (2, 1));
}

#[test]
fn reads() {
    assert!(matches!(cache_read_outcome(Ok(())), CacheRead::Hit));
    assert!(matches!(cache_read_outcome(Err(StorageError::NotFound("x".into()))), CacheRead::Stale));
    assert!(matches!(
        cache_read_outcome(Err(StorageError::Io("disk".into()))),
        CacheRead::Failed(CoreError::Storage(StorageError::Io(_)))
    ));
}

#[test]
fn eviction_order_follows_policy() {
    assert_eq!(EvictionPolicy::Lru.order_column(), "last_accessed_at");
    assert_eq!(EvictionPolicy::Lfu.order_column(), "access_count");
    assert_eq!(EvictionPolicy::Fifo.order_column(), "created_at");
    assert_eq!(
        eviction_candidates_sql(EvictionPolicy::Lru),
        "SELECT id, entry_type, repository, reference, digest, content_type, size, created_at, last_accessed_at, access_count, storage_path FROM cache_entries ORDER BY last_accessed_at ASC LIMIT ?"
    );
    assert!(eviction_candidates_sql(EvictionPolicy::Lfu).ends_with("ORDER BY access_count ASC LIMIT ?"));
    assert!(eviction_candidates_sql(EvictionPolicy::Fifo).ends_with("ORDER BY created_at ASC LIMIT ?"));
    assert_eq!(EVICTION_BATCH, 100);
}
