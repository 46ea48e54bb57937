use oculus::cache::{TtlCache, CACHE_TTL_SECS};

#[test]
fn cached_values_come_back_within_the_lifetime() {
    let mut cache: TtlCache<Vec<f32>> = TtlCache::new(CACHE_TTL_SECS);
    let key = "some project text".to_string();
    cache.insert(&key, vec![0.5, 0.5], 100);
    assert_eq!(cache.get(&key, 100), Some(&vec![0.5, 0.5]));
    assert_eq!(cache.get(&key, 100 + CACHE_TTL_SECS - 1), Some(&vec![0.5, 0.5]));
    assert_eq!(cache.get(&key, 100 + CACHE_TTL_SECS), None);
    assert_eq!(cache.get(&"other text".to_string(), 100), None);
}

#[test]
fn rewriting_a_key_replaces_its_value_and_clock() {
    let mut cache: TtlCache<u32> = TtlCache::new(10);
    let key = "text".to_string();
    cache.insert(&key, 1, 100);
    cache.insert(&key, 2, 105);
    assert_eq!(cache.get(&key, 114), Some(&2));
    assert_eq!(cache.entries.len(), 1);
}

#[test]
fn a_zero_lifetime_disables_caching() {
    let mut cache: TtlCache<u32> = TtlCache::new(0);
    let key = "text".to_string();
    cache.insert(&key, 1, 100);
    assert_eq!(cache.get(&key, 100), None);
}

#[test]
fn a_full_cache_sheds_stale_entries_on_write() {
    let mut cache: TtlCache<u32> = TtlCache::new(10);
    for i in 0..1001u32 {
        cache.insert(&format!("key {i}"), i, 0);
    }
    assert_eq!(cache.entries.len(), 1001);
    // everything above is stale by now; the next write evicts it all
    cache.insert(&"fresh".to_string(), 7, 1000);
    assert_eq!(cache.entries.len(), 1);
    assert_eq!(cache.get(&"fresh".to_string(), 1001), Some(&7));
}

#[test]
fn rewriting_one_key_leaves_the_others_alone() {
    let mut cache: TtlCache<u32> = TtlCache::new(100);
    let a = "text a".to_string();
    let b = "text b".to_string();
    cache.insert(&a, 1, 10);
    cache.insert(&b, 2, 20);
    cache.insert(&a, 3, 30);
    assert_eq!(cache.get(&a, 30), Some(&3));
    assert_eq!(cache.get(&b, 30), Some(&2));
    assert_eq!(cache.entries.len(), 2);
}

#[test]
fn eviction_keeps_every_fresh_entry() {
    let mut cache: TtlCache<u32> = TtlCache::new(500);
    for i in 0..1000u32 {
        cache.insert(&format!("stale {i}"), i, 0);
    }
    cache.insert(&"survivor".to_string(), 41, 600);
    assert_eq!(cache.entries.len(), 1001);
    // the next write crosses the threshold: the thousand stale entries
    // go, the fresh one stays
    cache.insert(&"fresh".to_string(), 7, 1000);
    assert_eq!(cache.entries.len(), 2);
    assert_eq!(cache.get(&"survivor".to_string(), 1000), Some(&41));
    assert_eq!(cache.get(&"fresh".to_string(), 1000), Some(&7));
    assert_eq!(cache.get(&"stale 0".to_string(), 1000), None);
}
