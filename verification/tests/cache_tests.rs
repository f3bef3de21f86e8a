use rustdesk_server_pro::cache::{CacheEntry, CacheManager};

#[test]
fn test_cache_set_get() {
    let mut cache = CacheManager::<i32, String>::new(10);
    cache.set(1, "one".to_string());
    assert_eq!(cache.get(&1), Some("one".to_string()));
}

#[test]
fn test_cache_expiration() {
    let mut cache = CacheManager::<i32, String>::new(10);
    cache.set_with_ttl(1, "one".to_string(), Some(1));
    assert_eq!(cache.get(&1), Some("one".to_string()));
    // Wait for expiration.
    let start = std::time::Instant::now();
    while start.elapsed() < std::time::Duration::from_secs(2) {
        std::hint::spin_loop();
    }
    assert_eq!(cache.get(&1), None);
}

#[test]
fn cache_expiration_on_given_instants() {
    let mut cache = CacheManager::<i32, String>::new(10);
    let written: u128 = 5_000_000_000;
    cache.set_with_ttl_at(1, "one".to_string(), Some(1), written);
    assert_eq!(cache.get_at(&1, written), Some("one".to_string()));
    // Two seconds later the one-second entry is stale.
    assert_eq!(cache.get_at(&1, written + 2_000_000_000), None);
}

#[test]
fn test_cache_remove() {
    let mut cache = CacheManager::<i32, String>::new(10);
    cache.set(1, "one".to_string());
    cache.remove(&1);
    assert_eq!(cache.get(&1), None);
}

#[test]
fn test_cache_clear() {
    let mut cache = CacheManager::<i32, String>::new(10);
    cache.set(1, "one".to_string());
    cache.set(2, "two".to_string());
    cache.clear();
    assert!(cache.is_empty());
}

#[test]
fn cache_entry_expires_strictly_after_its_deadline() {
    let e = CacheEntry::new(7u8, Some(3), 10);
    assert_eq!(e.expires_at, Some(10 + 3_000_000_000));
    assert!(!e.is_expired(10 + 3_000_000_000));
    assert!(e.is_expired(10 + 3_000_000_001));
    let forever = CacheEntry::new(7u8, None, 10);
    assert!(!forever.is_expired(u128::MAX));
}

#[test]
fn cache_ttl_entry_is_fresh_until_deadline() {
    let mut cache = CacheManager::<u64, String>::new(4);
    cache.set_with_ttl_at(9, "nine".to_string(), Some(2), 0);
    assert_eq!(cache.get_at(&9, 2_000_000_000), Some("nine".to_string()));
    assert_eq!(cache.get_at(&9, 2_000_000_001), None);
}

#[test]
fn cache_full_drops_stale_entries_first() {
    let mut cache = CacheManager::<u64, String>::new(2);
    cache.set_with_ttl_at(1, "a".to_string(), Some(1), 0);
    cache.set_with_ttl_at(2, "b".to_string(), None, 0);
    // At 5 s entry 1 is stale; the cache is full, so it goes, and 2 stays.
    cache.set_with_ttl_at(3, "c".to_string(), None, 5_000_000_000);
    assert_eq!(cache.len(), 2);
    assert_eq!(cache.get_at(&2, 5_000_000_000), Some("b".to_string()));
    assert_eq!(cache.get_at(&3, 5_000_000_000), Some("c".to_string()));
    assert_eq!(cache.get_at(&1, 5_000_000_000), None);
}

#[test]
fn cache_full_of_fresh_entries_keeps_half() {
    let mut cache = CacheManager::<u64, String>::new(4);
    for k in 0..4u64 {
        cache.set_with_ttl_at(k, format!("v{}", k), None, 0);
    }
    assert_eq!(cache.len(), 4);
    cache.set_with_ttl_at(10, "ten".to_string(), None, 0);
    // Two of the old entries remain, plus the new one.
    assert_eq!(cache.len(), 3);
    assert_eq!(cache.get_at(&10, 0), Some("ten".to_string()));
    let survivors = (0..4u64).filter(|k| cache.get_at(k, 0).is_some()).count();
    assert_eq!(survivors, 2);
}

#[test]
fn cache_bound_is_kept_over_many_writes() {
    let mut cache = CacheManager::<u64, u64>::new(5);
    for k in 0..100u64 {
        cache.set_with_ttl_at(k, k * 2, None, 0);
        assert!(cache.len() <= 5);
        assert_eq!(cache.get_at(&k, 0), Some(k * 2));
    }
}

#[test]
fn cache_cleanup_removes_only_stale() {
    let mut cache = CacheManager::<u64, u64>::new(10);
    cache.set_with_ttl_at(1, 1, Some(1), 0);
    cache.set_with_ttl_at(2, 2, Some(10), 0);
    cache.set_with_ttl_at(3, 3, None, 0);
    cache.cleanup_at(5_000_000_000);
    assert_eq!(cache.len(), 2);
    assert_eq!(cache.remove(&1), None);
    assert_eq!(cache.remove(&2), Some(2));
    cache.cleanup();
    assert_eq!(cache.len(), 1);
}

#[test]
fn cache_of_bound_zero_keeps_only_the_last_write() {
    let mut cache = CacheManager::<u64, u64>::new(0);
    cache.set_with_ttl_at(1, 10, None, 0);
    assert_eq!(cache.len(), 1);
    cache.set_with_ttl_at(2, 20, None, 0);
    assert_eq!(cache.len(), 1);
    assert_eq!(cache.get_at(&2, 0), Some(20));
    assert_eq!(cache.get_at(&1, 0), None);
}

#[test]
fn cache_below_bound_changes_only_the_written_key() {
    let mut cache = CacheManager::<u64, u64>::new(3);
    cache.set(1, 10);
    cache.set_with_ttl(2, 20, Some(100));
    cache.set(1, 11);
    assert_eq!(cache.len(), 2);
    assert_eq!(cache.get(&1), Some(11));
    assert_eq!(cache.get(&2), Some(20));
}
