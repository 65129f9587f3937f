use nole::export_cache::ExportCache;

#[test]
fn first_sighting_of_an_index_is_never_cached() {
    let mut cache = ExportCache::new();
    assert_eq!(cache.is_cached(0, 11), false);
    assert_eq!(cache.is_cached(1, 22), false);
    assert_eq!(cache.is_cached(2, 33), false);
    assert_eq!(cache.len(), 3);
}

#[test]
fn repeated_unchanged_frame_is_cached() {
    let mut cache = ExportCache::new();
    assert_eq!(cache.is_cached(0, 11), false);
    assert_eq!(cache.is_cached(0, 11), true);
    assert_eq!(cache.is_cached(0, 11), true);
    assert_eq!(cache.len(), 1);
}

#[test]
fn changed_frame_at_seen_index_misses_and_updates() {
    let mut cache = ExportCache::new();
    assert_eq!(cache.is_cached(0, 11), false);
    assert_eq!(cache.is_cached(0, 99), false);
    // the stored hash was overwritten: the new hash now hits
    assert_eq!(cache.is_cached(0, 99), true);
    // and the old one misses again
    assert_eq!(cache.is_cached(0, 11), false);
}

#[test]
fn clear_treats_every_page_as_changed_again() {
    let mut cache = ExportCache::new();
    assert_eq!(cache.is_cached(0, 11), false);
    assert_eq!(cache.is_cached(0, 11), true);
    cache.clear();
    assert_eq!(cache.len(), 0);
    assert_eq!(cache.is_cached(0, 11), false);
}
