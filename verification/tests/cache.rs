use prime::cache::CommandCache;

#[test]
fn test_command_cache() {
    let mut cache = CommandCache::new();
    cache.set("test".to_string(), (0, "output".to_string()));
    assert_eq!(cache.get("test"), Some((0, "output".to_string())));
    assert_eq!(cache.get("other"), None);
    cache.set("test".to_string(), (1, "again".to_string()));
    assert_eq!(cache.get("test"), Some((1, "again".to_string())));
    cache.set("test1".to_string(), (0, "output1".to_string()));
    cache.clear_expired();
    assert_eq!(cache.get("test1"), Some((0, "output1".to_string())));
}

#[test]
fn reads_and_clears_by_age() {
    let mut cache = CommandCache::new();
    cache.set("a".to_string(), (0, "out a".to_string()));
    cache.set("b".to_string(), (0, "out b".to_string()));
    assert_eq!(cache.lookup_at("a", 299_999), Some((0, "out a".to_string())));
    assert_eq!(cache.lookup_at("a", 300_000), None);
    assert_eq!(cache.lookup_at("c", 0), None);
    cache.clear_expired_at(&vec![10, 400_000]);
    assert_eq!(cache.lookup_at("a", 0), Some((0, "out a".to_string())));
    assert_eq!(cache.lookup_at("b", 0), None);
    cache.clear_expired_at(&vec![300_000]);
    assert_eq!(cache.lookup_at("a", 0), None);
}
