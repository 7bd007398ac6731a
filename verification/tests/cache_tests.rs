use revi_core::cache::{cache_key, DiffCache};
use revi_core::model::{DiffStats, FileDiff};

fn diff(path: &str, adds: u32) -> FileDiff {
    FileDiff {
        path: path.to_string(),
        hunks: Vec::new(),
        content_hash: "h".to_string(),
        stats: DiffStats { additions: adds, deletions: 0 },
    }
}

#[test]
fn cache_key_joins_components() {
    assert_eq!(cache_key("/r", "b1", "h1", "src/a.rs", true), "/r:b1:h1:src/a.rs:true");
    assert_eq!(cache_key("/r", "b1", "h1", "src/a.rs", false), "/r:b1:h1:src/a.rs:false");
}

#[test]
fn second_identical_request_hits_the_cache() {
    let mut c = DiffCache::new(100);
    let d = diff("a.rs", 1);
    c.store_request("/r", "b", "h", "a.rs", false, d.clone());
    let hit = c.lookup_request("/r", "b", "h", "a.rs", false);
    assert_eq!(hit, Some(d));
}

#[test]
fn differing_requests_miss() {
    let mut c = DiffCache::new(100);
    c.store_request("/r", "b", "h", "a.rs", false, diff("a.rs", 1));
    assert_eq!(c.lookup_request("/r", "b", "h2", "a.rs", false), None);
    assert_eq!(c.lookup_request("/r", "b", "h", "a.rs", true), None);
}

#[test]
fn working_tree_requests_never_populate_the_cache() {
    let mut c = DiffCache::new(100);
    c.store_request("/r", "b", "WORKING_TREE", "a.rs", false, diff("a.rs", 1));
    assert_eq!(c.lookup_request("/r", "b", "WORKING_TREE", "a.rs", false), None);
    // even a direct key lookup finds nothing: the record was never stored
    let key = cache_key("/r", "b", "WORKING_TREE", "a.rs", false);
    assert_eq!(c.lookup(&key), None);
}

#[test]
fn invalidate_removes_only_matching_repository() {
    let mut c = DiffCache::new(100);
    c.store_request("/repo1", "b", "h", "a.rs", false, diff("a.rs", 1));
    c.store_request("/repo2", "b", "h", "b.rs", false, diff("b.rs", 2));
    c.invalidate_repo(&"/repo1".to_string());
    assert_eq!(c.lookup_request("/repo1", "b", "h", "a.rs", false), None);
    assert_eq!(c.lookup_request("/repo2", "b", "h", "b.rs", false), Some(diff("b.rs", 2)));
}

#[test]
fn clear_removes_everything() {
    let mut c = DiffCache::new(100);
    c.store_request("/r", "b", "h", "a.rs", false, diff("a.rs", 1));
    c.clear();
    assert_eq!(c.lookup_request("/r", "b", "h", "a.rs", false), None);
}

#[test]
fn eviction_takes_least_recently_used() {
    let mut c = DiffCache::new(2);
    let k1 = cache_key("/r", "b", "h", "one.rs", false);
    let k2 = cache_key("/r", "b", "h", "two.rs", false);
    let k3 = cache_key("/r", "b", "h", "three.rs", false);
    c.insert(k1.clone(), diff("one.rs", 1));
    c.insert(k2.clone(), diff("two.rs", 2));
    // capacity + 1: the least recently used entry (k1) goes, nothing else
    c.insert(k3.clone(), diff("three.rs", 3));
    assert_eq!(c.lookup(&k1), None);
    assert_eq!(c.lookup(&k2), Some(diff("two.rs", 2)));
    assert_eq!(c.lookup(&k3), Some(diff("three.rs", 3)));
}

#[test]
fn lookup_refreshes_recency() {
    let mut c = DiffCache::new(2);
    let k1 = cache_key("/r", "b", "h", "one.rs", false);
    let k2 = cache_key("/r", "b", "h", "two.rs", false);
    let k3 = cache_key("/r", "b", "h", "three.rs", false);
    c.insert(k1.clone(), diff("one.rs", 1));
    c.insert(k2.clone(), diff("two.rs", 2));
    // touching k1 makes k2 the least recently used entry
    assert_eq!(c.lookup(&k1), Some(diff("one.rs", 1)));
    c.insert(k3.clone(), diff("three.rs", 3));
    assert_eq!(c.lookup(&k2), None);
    assert_eq!(c.lookup(&k1), Some(diff("one.rs", 1)));
    assert_eq!(c.lookup(&k3), Some(diff("three.rs", 3)));
}

#[test]
fn overwriting_a_key_keeps_the_cache_size() {
    let mut c = DiffCache::new(2);
    let k1 = cache_key("/r", "b", "h", "one.rs", false);
    let k2 = cache_key("/r", "b", "h", "two.rs", false);
    c.insert(k1.clone(), diff("one.rs", 1));
    c.insert(k2.clone(), diff("two.rs", 2));
    c.insert(k1.clone(), diff("one.rs", 9));
    assert_eq!(c.lookup(&k1), Some(diff("one.rs", 9)));
    assert_eq!(c.lookup(&k2), Some(diff("two.rs", 2)));
}
