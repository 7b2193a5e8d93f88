use index_rs::cache::DataCache;

#[test]
fn cache_returns_value_within_ttl() {
    let mut cache: DataCache<u32> = DataCache::new(10);
    cache.set(b"cpu".to_vec(), 42, 100);
    assert_eq!(cache.get(b"cpu", 100), Some(&42));
    assert_eq!(cache.get(b"cpu", 105), Some(&42));
    assert_eq!(cache.get(b"cpu", 109), Some(&42));
}

#[test]
fn cache_expires_value_at_ttl() {
    let mut cache: DataCache<u32> = DataCache::new(10);
    cache.set(b"cpu".to_vec(), 42, 100);
    assert_eq!(cache.get(b"cpu", 110), None);
    assert_eq!(cache.get(b"cpu", 200), None);
}

#[test]
fn cache_treats_future_timestamps_as_stale() {
    let mut cache: DataCache<u32> = DataCache::new(10);
    cache.set(b"cpu".to_vec(), 42, 100);
    assert_eq!(cache.get(b"cpu", 99), None);
}

#[test]
fn cache_misses_unknown_key() {
    let mut cache: DataCache<u32> = DataCache::new(10);
    cache.set(b"cpu".to_vec(), 42, 100);
    assert_eq!(cache.get(b"nvidia", 100), None);
}

#[test]
fn cache_overwrite_replaces_value() {
    let mut cache: DataCache<u32> = DataCache::new(10);
    cache.set(b"cpu".to_vec(), 1, 100);
    cache.set(b"cpu".to_vec(), 2, 103);
    assert_eq!(cache.get(b"cpu", 104), Some(&2));
    assert_eq!(cache.entries.len(), 1);
}

#[test]
fn cache_set_sweeps_entries_older_than_twice_ttl() {
    let mut cache: DataCache<u32> = DataCache::new(5);
    cache.set(b"a".to_vec(), 1, 0);
    // age 9 is still below twice the TTL, so the first entry survives
    cache.set(b"b".to_vec(), 2, 9);
    assert_eq!(cache.entries.len(), 2);
    // at age 11 the first entry is swept out on the next write
    cache.set(b"c".to_vec(), 3, 11);
    assert_eq!(cache.entries.len(), 2);
    let keys: Vec<&[u8]> = cache.entries.iter().map(|e| e.key.as_slice()).collect();
    assert!(keys.contains(&b"b".as_slice()));
    assert!(keys.contains(&b"c".as_slice()));
    assert!(!keys.contains(&b"a".as_slice()));
}

#[test]
fn cache_with_zero_ttl_stores_nothing() {
    let mut cache: DataCache<u32> = DataCache::new(0);
    cache.set(b"cpu".to_vec(), 42, 100);
    assert_eq!(cache.get(b"cpu", 100), None);
    assert_eq!(cache.entries.len(), 0);
}
