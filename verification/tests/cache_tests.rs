use guhwall::texture_cache::TextureCache;

fn v(s: &str) -> Vec<u8> {
    s.as_bytes().to_vec()
}

#[test]
fn miss_then_hit_after_insert() {
    let mut cache: TextureCache<u32> = TextureCache::new();
    assert!(cache.get(b"/pics/a.png").is_none());
    cache.insert(v("/pics/a.png"), 11);
    assert_eq!(cache.get(b"/pics/a.png"), Some(&11));
    assert!(cache.get(b"/pics/b.png").is_none());
}

#[test]
fn cached_path_short_circuits_second_request() {
    // Once the first request completed into the cache, a repeated request
    // is a hit and dispatches no second worker job.
    let mut cache: TextureCache<&str> = TextureCache::new();
    let dispatch_first = cache.get(b"/pics/a.png").is_none();
    assert!(dispatch_first);
    let updated = cache.complete(v("/pics/a.png"), "texture", true);
    assert!(updated);
    let dispatch_second = cache.get(b"/pics/a.png").is_none();
    assert!(!dispatch_second);
}

#[test]
fn racing_completions_leave_one_consistent_entry() {
    // Two un-deduplicated requests for one path race their completions:
    // the cache ends with the later handle, other paths untouched.
    let mut cache: TextureCache<u32> = TextureCache::new();
    cache.insert(v("/pics/other.png"), 1);
    cache.complete(v("/pics/a.png"), 2, true);
    cache.complete(v("/pics/a.png"), 3, true);
    assert_eq!(cache.get(b"/pics/a.png"), Some(&3));
    assert_eq!(cache.get(b"/pics/other.png"), Some(&1));
}

#[test]
fn completion_for_a_dead_cell_changes_nothing() {
    let mut cache: TextureCache<u32> = TextureCache::new();
    let updated = cache.complete(v("/pics/a.png"), 5, false);
    assert!(!updated);
    assert!(cache.get(b"/pics/a.png").is_none());
}
