use renderide_prep::command_cache::{
    cache_hit_rate_per_mille, command_cache_draw_count, CacheThrashWindow, WorldMeshCommandCacheBook,
    WorldMeshCommandCacheKey, WORLD_MESH_COMMAND_CACHE_CAPACITY, WORLD_MESH_COMMAND_CACHE_MIN_DRAWS,
    WORLD_MESH_COMMAND_CACHE_THRASH_WINDOW_LOOKUPS,
};

fn key(fingerprint: u64) -> WorldMeshCommandCacheKey {
    WorldMeshCommandCacheKey { fingerprint, draw_count: WORLD_MESH_COMMAND_CACHE_MIN_DRAWS, chunk_count: 1 }
}

/// Probes the cache for `k` and records the arrangement on a miss, as the arrange path does.
fn lookup_or_insert(book: &mut WorldMeshCommandCacheBook, k: WorldMeshCommandCacheKey) -> bool {
    if !WorldMeshCommandCacheBook::admits_draw_count(k.draw_count) {
        book.record_skipped_small();
        return false;
    }
    if !book.should_probe_cache() {
        return false;
    }
    let hit = book.entry(k);
    if !hit {
        book.insert(k);
    }
    hit
}

#[test]
fn command_cache_reuses_equivalent_arrangements() {
    let mut book = WorldMeshCommandCacheBook::new();

    assert!(!lookup_or_insert(&mut book, key(1)));
    assert!(lookup_or_insert(&mut book, key(1)));

    let stats = book.stats();
    assert_eq!(stats.hits, 1);
    assert_eq!(stats.misses, 1);
    assert_eq!(stats.entries, 1);
    assert_eq!(stats.hit_rate_per_mille, 500);
}

#[test]
fn command_cache_invalidates_on_structural_change() {
    let mut book = WorldMeshCommandCacheBook::new();

    lookup_or_insert(&mut book, key(1));
    lookup_or_insert(&mut book, key(10_000));

    let stats = book.stats();
    assert_eq!(stats.hits, 0);
    assert_eq!(stats.misses, 2);
    assert_eq!(stats.entries, 2);
}

#[test]
fn command_cache_bypasses_small_draw_lists() {
    let mut book = WorldMeshCommandCacheBook::new();
    let small = WorldMeshCommandCacheKey { fingerprint: 1, draw_count: 1, chunk_count: 1 };

    lookup_or_insert(&mut book, small);

    let stats = book.stats();
    assert_eq!(stats.hits, 0);
    assert_eq!(stats.misses, 0);
    assert_eq!(stats.entries, 0);
    assert_eq!(stats.skipped_small, 1);
}

#[test]
fn command_cache_temporarily_bypasses_after_repeated_misses() {
    let mut book = WorldMeshCommandCacheBook::new();

    for seed in 0..WORLD_MESH_COMMAND_CACHE_THRASH_WINDOW_LOOKUPS {
        lookup_or_insert(&mut book, key(seed as u64 * 10_000));
    }
    lookup_or_insert(&mut book, key(900_000));

    let stats = book.stats();
    assert_eq!(stats.misses, WORLD_MESH_COMMAND_CACHE_THRASH_WINDOW_LOOKUPS as u64);
    assert_eq!(stats.skipped_thrash, 1);
}

#[test]
fn command_cache_evicts_from_the_front_of_the_recency_queue_beyond_capacity() {
    let mut book = WorldMeshCommandCacheBook::new();
    for fingerprint in 0..WORLD_MESH_COMMAND_CACHE_CAPACITY as u64 {
        assert!(book.insert(key(fingerprint)).is_empty());
    }
    assert!(book.entry(key(0)));

    let evicted = book.insert(key(5_000));

    assert_eq!(evicted, vec![(0, WORLD_MESH_COMMAND_CACHE_MIN_DRAWS, 1)]);
    let stats = book.stats();
    assert_eq!(stats.entries, WORLD_MESH_COMMAND_CACHE_CAPACITY);
    assert_eq!(stats.evictions, 1);
    assert_eq!(stats.insertions, WORLD_MESH_COMMAND_CACHE_CAPACITY as u64 + 1);
    assert!(book.entry(key(1)));
    assert!(book.entry(key(5_000)));
    assert!(!book.entry(key(0)));
}

#[test]
fn reinserting_resident_key_only_refreshes_recency() {
    let mut book = WorldMeshCommandCacheBook::new();
    book.insert(key(3));
    assert!(book.insert(key(3)).is_empty());
    assert_eq!(book.stats().insertions, 1);
    assert_eq!(book.recency.len(), 2);
}

#[test]
fn hit_rate_is_per_mille_and_zero_without_lookups() {
    assert_eq!(cache_hit_rate_per_mille(0, 0), 0);
    assert_eq!(cache_hit_rate_per_mille(1, 1), 500);
    assert_eq!(cache_hit_rate_per_mille(1, 2), 333);
    assert_eq!(cache_hit_rate_per_mille(3, 0), 1000);
    assert_eq!(cache_hit_rate_per_mille(u64::MAX, u64::MAX), 1);
}

#[test]
fn thrash_window_resets_after_a_full_window() {
    let mut window = CacheThrashWindow::default();
    for _ in 0..WORLD_MESH_COMMAND_CACHE_THRASH_WINDOW_LOOKUPS - 1 {
        window.record_miss();
        assert!(!window.should_enter_bypass());
    }
    window.record_hit();
    assert!(window.should_enter_bypass());
    assert_eq!(window.lookups, 0);
    assert_eq!(window.hits, 0);

    for _ in 0..WORLD_MESH_COMMAND_CACHE_THRASH_WINDOW_LOOKUPS / 2 {
        window.record_hit();
        window.record_miss();
    }
    assert!(!window.should_enter_bypass());
}

#[test]
fn draw_count_sums_chunk_lengths() {
    let chunks: Vec<Vec<u8>> = vec![vec![1, 2], vec![], vec![3]];
    assert_eq!(command_cache_draw_count(&chunks), 3);
}
