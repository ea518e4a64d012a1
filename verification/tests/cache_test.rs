use ren_browser::pages::caching::PageCache;

#[test]
fn get_returns_what_was_set() {
    let mut cache = PageCache::new(300);
    cache.set("addr:/page/index.mu".to_string(), "content".to_string());
    assert_eq!(cache.get("addr:/page/index.mu"), Some("content".to_string()));
}

#[test]
fn get_missing_is_none() {
    let cache = PageCache::new(300);
    assert_eq!(cache.get("nowhere"), None);
}

#[test]
fn set_replaces_earlier_entry() {
    let mut cache = PageCache::new(300);
    cache.set("a".to_string(), "one".to_string());
    cache.set("a".to_string(), "two".to_string());
    assert_eq!(cache.get("a"), Some("two".to_string()));
}

#[test]
fn expiry_by_explicit_clock() {
    let mut cache = PageCache::new(300);
    cache.set_at("a".to_string(), "c".to_string(), 1_000);
    // Fresh enough: strictly under 300 000 ms of age.
    assert_eq!(cache.get_at("a", 1_000), Some("c".to_string()));
    assert_eq!(cache.get_at("a", 300_999), Some("c".to_string()));
    // Exactly the age limit, and beyond: a miss.
    assert_eq!(cache.get_at("a", 301_000), None);
    assert_eq!(cache.get_at("a", 400_000), None);
    // A clock that reads before the entry's stamp: a miss.
    assert_eq!(cache.get_at("a", 999), None);
}

#[test]
fn remove_drops_one_entry() {
    let mut cache = PageCache::new(300);
    cache.set("a".to_string(), "one".to_string());
    cache.set("b".to_string(), "two".to_string());
    cache.remove("a");
    assert_eq!(cache.get("a"), None);
    assert_eq!(cache.get("b"), Some("two".to_string()));
    // Removing an absent address changes nothing.
    cache.remove("zzz");
    assert_eq!(cache.get("b"), Some("two".to_string()));
}

#[test]
fn clear_drops_everything() {
    let mut cache = PageCache::new(300);
    cache.set("a".to_string(), "one".to_string());
    cache.set("b".to_string(), "two".to_string());
    cache.clear();
    assert_eq!(cache.get("a"), None);
    assert_eq!(cache.get("b"), None);
}
