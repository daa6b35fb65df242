use playback_core::cache::{should_purge_again, SearchCache};

#[test]
fn expired_entry_is_not_returned() {
    let mut cache: SearchCache<Vec<u32>> = SearchCache::new();
    let key = "ytsearch:song".to_string();
    cache.put(key.clone(), vec![1, 2], 100, 1_000);
    assert_eq!(cache.get(&key, 1_050), Some(&vec![1, 2]));
    assert_eq!(cache.get(&key, 1_100), Some(&vec![1, 2]));
    assert_eq!(cache.get(&key, 1_200), None);
}

#[test]
fn expired_entry_on_the_real_clock() {
    let mut cache: SearchCache<String> = SearchCache::new();
    let key = "dzsearch:abc".to_string();
    let start = chrono::Utc::now().timestamp_millis() as u64;
    cache.put(key.clone(), "value".to_string(), 100, start);
    assert_eq!(cache.get(&key, start), Some(&"value".to_string()));
    assert_eq!(cache.get(&key, start + 200), None);
}

#[test]
fn missing_key_is_empty() {
    let cache: SearchCache<u8> = SearchCache::new();
    assert_eq!(cache.get(&"nothing".to_string(), 0), None);
}

#[test]
fn put_overwrites() {
    let mut cache: SearchCache<u8> = SearchCache::new();
    let key = "k".to_string();
    cache.put(key.clone(), 1, 10, 0);
    cache.put("other".to_string(), 7, 10, 0);
    cache.put(key.clone(), 2, 1_000, 5);
    assert_eq!(cache.len(), 2);
    assert_eq!(cache.get(&key, 500), Some(&2));
    assert_eq!(cache.get(&"other".to_string(), 500), None);
}

#[test]
fn purge_removes_only_expired() {
    let mut cache: SearchCache<u8> = SearchCache::new();
    cache.put("a".to_string(), 1, 10, 0);
    cache.put("b".to_string(), 2, 1_000, 0);
    cache.put("c".to_string(), 3, 10, 0);
    let (examined, removed) = cache.purge_sample(100, 0, 64);
    assert_eq!(examined, 3);
    assert_eq!(removed, 2);
    assert_eq!(cache.len(), 1);
    assert_eq!(cache.get(&"b".to_string(), 100), Some(&2));
}

#[test]
fn purge_respects_sample_bound() {
    let mut cache: SearchCache<u8> = SearchCache::new();
    for i in 0..10u8 {
        cache.put(format!("k{i}"), i, 0, 0);
    }
    let (examined, removed) = cache.purge_sample(5, 2, 4);
    assert_eq!(examined, 4);
    assert_eq!(removed, 4);
    assert_eq!(cache.len(), 6);
}

#[test]
fn purge_again_threshold() {
    assert!(!should_purge_again(64, 0));
    assert!(!should_purge_again(100, 1));
    assert!(should_purge_again(100, 2));
    assert!(should_purge_again(64, 1));
}

#[test]
fn purge_from_beyond_the_end_does_nothing() {
    let mut cache: SearchCache<u8> = SearchCache::new();
    cache.put("a".to_string(), 1, 0, 0);
    assert_eq!(cache.purge_sample(100, 1, 64), (0, 0));
    assert_eq!(cache.purge_sample(100, 7, 64), (0, 0));
    assert_eq!(cache.len(), 1);
}

#[test]
fn purge_keeps_live_entries_in_window() {
    let mut cache: SearchCache<u8> = SearchCache::new();
    cache.put("a".to_string(), 1, 0, 0);
    cache.put("b".to_string(), 2, 500, 0);
    cache.put("c".to_string(), 3, 0, 0);
    cache.put("d".to_string(), 4, 0, 0);
    // The window holds b and c: c goes, b stays, a and d are not looked at.
    assert_eq!(cache.purge_sample(100, 1, 2), (2, 1));
    assert_eq!(cache.len(), 3);
    assert_eq!(cache.get(&"b".to_string(), 100), Some(&2));
}
