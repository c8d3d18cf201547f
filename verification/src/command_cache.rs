//! Bookkeeping of the retained command-list cache for arranged world-mesh draw collections:
//! admission, hit and miss accounting, thrash bypass, and bounded recency eviction.
//!
//! The arranged draw lists themselves are stored by the caller under the same keys; this book
//! decides which keys are resident and tells the caller which ones it evicted.
use std::collections::VecDeque;
use vstd::prelude::*;

use crate::collections::{CacheKeySet, cache_key_set_contents};
use crate::parallel::RENDER_COMMAND_CHUNK_DRAWS;

verus! {

/// Maximum number of retained arranged command lists.
pub const WORLD_MESH_COMMAND_CACHE_CAPACITY: usize = 256;

/// Smallest draw count worth fingerprinting: two render command chunks.
pub const WORLD_MESH_COMMAND_CACHE_MIN_DRAWS: usize = RENDER_COMMAND_CHUNK_DRAWS * 2;

/// Probes per thrash-detection window.
pub const WORLD_MESH_COMMAND_CACHE_THRASH_WINDOW_LOOKUPS: u32 = 16;

/// Windows whose hit rate falls below this (per mille) start a bypass period.
pub const WORLD_MESH_COMMAND_CACHE_THRASH_MIN_HIT_RATE_PER_MILLE: u32 = 250;

/// Number of eligible lookups skipped during one bypass period.
pub const WORLD_MESH_COMMAND_CACHE_THRASH_BYPASS_LOOKUPS: u32 = 16;

/// Runtime counters for the retained world-mesh command cache.
#[derive(Clone, Copy, Debug, Default, PartialEq, Eq, Structural)]
pub struct WorldMeshCommandCacheStats {
    /// Retained arranged command lists currently resident in the cache.
    pub entries: usize,
    /// Cache lookups that reused an arranged draw list.
    pub hits: u64,
    /// Cache lookups that had to rebuild the arranged draw list.
    pub misses: u64,
    /// Eligible cache attempts skipped because the draw count was too small to justify hashing.
    pub skipped_small: u64,
    /// Eligible cache attempts skipped while recent probes were missing too often.
    pub skipped_thrash: u64,
    /// Hit rate for cache probes, in hits per 1000 lookups.
    pub hit_rate_per_mille: u16,
    /// New arranged draw lists inserted into the cache.
    pub insertions: u64,
    /// Entries evicted to keep the cache bounded.
    pub evictions: u64,
}

/// `a + b`, clamped to `max`.
pub open spec fn sat_add(a: int, b: int, max: int) -> int {
    if a + b > max { max } else { a + b }
}

/// `a - b`, clamped at zero.
pub open spec fn sat_sub(a: int, b: int) -> int {
    if a >= b { a - b } else { 0 }
}

/// Hits per 1000 lookups, with the saturating `u64` arithmetic of the counters; zero without lookups.
pub open spec fn spec_hit_rate_per_mille(hits: int, misses: int) -> int {
    let lookups = sat_add(hits, misses, u64::MAX as int);
    if lookups == 0 {
        0
    } else {
        let scaled = if hits * 1000 > u64::MAX { u64::MAX as int } else { hits * 1000 };
        if scaled / lookups < 1000 { scaled / lookups } else { 1000 }
    }
}

/// Hit rate of `hits` over `hits + misses` lookups, in hits per 1000 lookups.
pub fn cache_hit_rate_per_mille(hits: u64, misses: u64) -> (r: u16)
    ensures
        r == spec_hit_rate_per_mille(hits as int, misses as int),
        r <= 1000,
{
    let lookups = hits.saturating_add(misses);
    if lookups == 0 {
        return 0;
    }
    let scaled: u64 = if hits > u64::MAX / 1000 {
        proof {
            assert(hits * 1000 > u64::MAX) by (nonlinear_arith)
                requires hits > u64::MAX / 1000;
        }
        u64::MAX
    } else {
        proof {
            assert(hits * 1000 <= u64::MAX) by (nonlinear_arith)
                requires hits <= u64::MAX / 1000;
        }
        hits * 1000
    };
    let rate = scaled / lookups;
    if rate < 1000 {
        rate as u16
    } else {
        1000
    }
}

/// The hit rate is the floor of `1000 * hits / (hits + misses)` while the counters do not saturate.
pub proof fn lemma_hit_rate_exact(hits: int, misses: int)
    requires
        0 <= hits,
        0 <= misses,
        hits + misses > 0,
        hits + misses <= u64::MAX,
        hits * 1000 <= u64::MAX,
    ensures
        spec_hit_rate_per_mille(hits, misses) == (hits * 1000) / (hits + misses),
        0 <= spec_hit_rate_per_mille(hits, misses) <= 1000,
{
    assert((hits * 1000) / (hits + misses) <= 1000) by (nonlinear_arith)
        requires
            0 <= hits <= hits + misses,
            hits + misses > 0,
    {
        assert(hits * 1000 <= (hits + misses) * 1000);
        vstd::arithmetic::div_mod::lemma_div_is_ordered(hits * 1000, (hits + misses) * 1000, hits + misses);
        vstd::arithmetic::div_mod::lemma_div_by_multiple(1000, hits + misses);
        assert(((hits + misses) * 1000) / (hits + misses) == 1000) by {
            vstd::arithmetic::mul::lemma_mul_is_commutative(hits + misses, 1000);
        }
    }
}

/// Rolling window of recent probe outcomes used to detect a thrashing cache.
#[derive(Clone, Copy, Debug, Default, PartialEq, Eq, Structural)]
pub struct CacheThrashWindow {
    /// Probes recorded in the current window.
    pub lookups: u32,
    /// Hits recorded in the current window.
    pub hits: u32,
    /// Eligible lookups still to skip in the current bypass period.
    pub bypass_remaining: u32,
}

/// Window after recording one probe.
pub open spec fn spec_record_probe(t: CacheThrashWindow, hit: bool) -> CacheThrashWindow {
    CacheThrashWindow {
        lookups: sat_add(t.lookups as int, 1, u32::MAX as int) as u32,
        hits: if hit { sat_add(t.hits as int, 1, u32::MAX as int) as u32 } else { t.hits },
        bypass_remaining: t.bypass_remaining,
    }
}

/// Whether a full window's hit rate is low enough to start a bypass period.
pub open spec fn spec_window_thrashes(t: CacheThrashWindow) -> bool {
    t.lookups >= WORLD_MESH_COMMAND_CACHE_THRASH_WINDOW_LOOKUPS
        && spec_hit_rate_per_mille(t.hits as int, sat_sub(t.lookups as int, t.hits as int))
        < WORLD_MESH_COMMAND_CACHE_THRASH_MIN_HIT_RATE_PER_MILLE
}

/// Window after the bypass check: a full window is reset, a partial one is kept.
pub open spec fn spec_window_after_check(t: CacheThrashWindow) -> CacheThrashWindow {
    if t.lookups >= WORLD_MESH_COMMAND_CACHE_THRASH_WINDOW_LOOKUPS {
        CacheThrashWindow { lookups: 0, hits: 0, bypass_remaining: t.bypass_remaining }
    } else {
        t
    }
}

impl CacheThrashWindow {
    /// Records one cache hit.
    pub fn record_hit(&mut self)
        ensures
            *final(self) == spec_record_probe(*old(self), true),
    {
        self.lookups = self.lookups.saturating_add(1);
        self.hits = self.hits.saturating_add(1);
    }

    /// Records one cache miss.
    pub fn record_miss(&mut self)
        ensures
            *final(self) == spec_record_probe(*old(self), false),
    {
        self.lookups = self.lookups.saturating_add(1);
    }

    /// Once a window is full, resets it and reports whether its hit rate calls for a bypass period.
    pub fn should_enter_bypass(&mut self) -> (r: bool)
        ensures
            r == spec_window_thrashes(*old(self)),
            *final(self) == spec_window_after_check(*old(self)),
    {
        if self.lookups < WORLD_MESH_COMMAND_CACHE_THRASH_WINDOW_LOOKUPS {
            return false;
        }
        let hits = self.hits as u64;
        let misses = self.lookups.saturating_sub(self.hits) as u64;
        let should_bypass = cache_hit_rate_per_mille(hits, misses)
            < WORLD_MESH_COMMAND_CACHE_THRASH_MIN_HIT_RATE_PER_MILLE as u16;
        self.lookups = 0;
        self.hits = 0;
        should_bypass
    }
}

/// Identity of an arranged draw list: structural fingerprint, draw count and chunk count.
#[derive(Clone, Copy, Debug, PartialEq, Eq, Structural, Hash)]
pub struct WorldMeshCommandCacheKey {
    /// Structural fingerprint of the ordered draw chunks.
    pub fingerprint: u64,
    /// Total draws over all chunks.
    pub draw_count: usize,
    /// Number of chunks.
    pub chunk_count: usize,
}

impl WorldMeshCommandCacheKey {
    /// The key as the integer triple stored in the key set.
    pub open spec fn spec_tuple(self) -> (u64, usize, usize) {
        (self.fingerprint, self.draw_count, self.chunk_count)
    }

    /// The key as the integer triple stored in the key set.
    pub fn as_tuple(&self) -> (r: (u64, usize, usize))
        ensures
            r == self.spec_tuple(),
    {
        (self.fingerprint, self.draw_count, self.chunk_count)
    }
}

/// Total draw count over `chunks[0..n)`.
pub open spec fn chunk_draw_total<T>(chunks: Seq<Vec<T>>, n: int) -> int
    decreases n,
{
    if n <= 0 { 0 } else { chunk_draw_total(chunks, n - 1) + chunks[n - 1]@.len() }
}

/// Total number of draws over all chunks.
pub fn command_cache_draw_count<T>(chunks: &[Vec<T>]) -> (r: usize)
    requires
        chunk_draw_total(chunks@, chunks@.len() as int) <= usize::MAX,
    ensures
        r == chunk_draw_total(chunks@, chunks@.len() as int),
{
    let mut total: usize = 0;
    let mut i: usize = 0;
    while i < chunks.len()
        invariant
            0 <= i <= chunks@.len(),
            total == chunk_draw_total(chunks@, i as int),
            chunk_draw_total(chunks@, chunks@.len() as int) <= usize::MAX,
        decreases chunks@.len() - i,
    {
        proof {
            lemma_chunk_draw_total_monotone(chunks@, i as int + 1, chunks@.len() as int);
        }
        total = total + chunks[i].len();
        i = i + 1;
    }
    total
}

/// Draw totals grow with the prefix length.
proof fn lemma_chunk_draw_total_monotone<T>(chunks: Seq<Vec<T>>, a: int, b: int)
    requires
        0 <= a <= b <= chunks.len(),
    ensures
        chunk_draw_total(chunks, a) <= chunk_draw_total(chunks, b),
    decreases b - a,
{
    if a < b {
        lemma_chunk_draw_total_monotone(chunks, a, b - 1);
    }
}

/// Resident keys, recency queue, counters and thrash window of the command cache.
pub struct WorldMeshCommandCacheBook {
    /// Keys whose arranged draw lists are resident.
    pub entries: CacheKeySet,
    /// Keys in least-recently-used-first order; may hold stale and repeated keys.
    pub recency: VecDeque<(u64, usize, usize)>,
    /// Lifetime counters.
    pub stats: WorldMeshCommandCacheStats,
    /// Recent probe outcomes.
    pub thrash: CacheThrashWindow,
}

impl WorldMeshCommandCacheBook {
    /// Resident keys.
    pub open spec fn keys(&self) -> Set<(u64, usize, usize)> {
        cache_key_set_contents(self.entries)
    }

    /// The resident set is finite, within capacity, and every resident key is queued for eviction.
    pub open spec fn wf(&self) -> bool {
        &&& self.keys().finite()
        &&& self.keys().len() <= WORLD_MESH_COMMAND_CACHE_CAPACITY
        &&& forall|k: (u64, usize, usize)| #[trigger] self.keys().contains(k) ==> self.recency@.contains(k)
    }

    /// An empty cache.
    pub fn new() -> (r: Self)
        ensures
            r.wf(),
            r.keys().len() == 0,
            r.recency@.len() == 0,
            r.stats == WorldMeshCommandCacheStats::default_spec(),
            r.thrash == (CacheThrashWindow { lookups: 0, hits: 0, bypass_remaining: 0 }),
    {
        WorldMeshCommandCacheBook {
            entries: CacheKeySet::new(),
            recency: VecDeque::new(),
            stats: WorldMeshCommandCacheStats::zero(),
            thrash: CacheThrashWindow { lookups: 0, hits: 0, bypass_remaining: 0 },
        }
    }

    /// Whether a draw list of `draw_count` draws is large enough to cache.
    pub fn admits_draw_count(draw_count: usize) -> (r: bool)
        ensures
            r == (draw_count >= WORLD_MESH_COMMAND_CACHE_MIN_DRAWS),
    {
        draw_count >= WORLD_MESH_COMMAND_CACHE_MIN_DRAWS
    }

    /// Counts an attempt skipped for being too small.
    pub fn record_skipped_small(&mut self)
        ensures
            final(self).stats == (WorldMeshCommandCacheStats {
                skipped_small: sat_add(old(self).stats.skipped_small as int, 1, u64::MAX as int) as u64,
                ..old(self).stats
            }),
            final(self).entries == old(self).entries,
            final(self).recency@ == old(self).recency@,
            final(self).thrash == old(self).thrash,
    {
        self.stats.skipped_small = self.stats.skipped_small.saturating_add(1);
    }

    /// Whether to probe the cache now; during a bypass period consumes one skipped lookup instead.
    pub fn should_probe_cache(&mut self) -> (r: bool)
        ensures
            r == (old(self).thrash.bypass_remaining == 0),
            r ==> final(self).thrash == old(self).thrash && final(self).stats == old(self).stats,
            !r ==> final(self).thrash == (CacheThrashWindow {
                bypass_remaining: (old(self).thrash.bypass_remaining - 1) as u32,
                ..old(self).thrash
            }),
            !r ==> final(self).stats == (WorldMeshCommandCacheStats {
                skipped_thrash: sat_add(old(self).stats.skipped_thrash as int, 1, u64::MAX as int) as u64,
                ..old(self).stats
            }),
            final(self).entries == old(self).entries,
            final(self).recency@ == old(self).recency@,
    {
        if self.thrash.bypass_remaining == 0 {
            return true;
        }
        self.thrash.bypass_remaining = self.thrash.bypass_remaining.saturating_sub(1);
        self.stats.skipped_thrash = self.stats.skipped_thrash.saturating_add(1);
        false
    }

    /// Probes the cache for `key`: counts the hit or miss, refreshes recency on a hit, and starts
    /// a bypass period when a full window hit too rarely. Returns whether `key` is resident.
    pub fn entry(&mut self, key: WorldMeshCommandCacheKey) -> (hit: bool)
        requires
            old(self).wf(),
        ensures
            final(self).wf(),
            hit == old(self).keys().contains(key.spec_tuple()),
            final(self).entries == old(self).entries,
            hit ==> final(self).recency@ == old(self).recency@.push(key.spec_tuple()),
            !hit ==> final(self).recency@ == old(self).recency@,
            final(self).stats == (if hit {
                WorldMeshCommandCacheStats { hits: sat_add(old(self).stats.hits as int, 1, u64::MAX as int) as u64, ..old(self).stats }
            } else {
                WorldMeshCommandCacheStats { misses: sat_add(old(self).stats.misses as int, 1, u64::MAX as int) as u64, ..old(self).stats }
            }),
            ({
                let probed = spec_record_probe(old(self).thrash, hit);
                let checked = spec_window_after_check(probed);
                final(self).thrash == (if spec_window_thrashes(probed) {
                    CacheThrashWindow { bypass_remaining: WORLD_MESH_COMMAND_CACHE_THRASH_BYPASS_LOOKUPS, ..checked }
                } else {
                    checked
                })
            }),
    {
        let tuple = key.as_tuple();
        let hit = self.entries.contains(tuple);
        if hit {
            self.stats.hits = self.stats.hits.saturating_add(1);
            self.recency.push_back(tuple);
            self.thrash.record_hit();
        } else {
            self.stats.misses = self.stats.misses.saturating_add(1);
            self.thrash.record_miss();
        }
        proof {
            assert forall|k: (u64, usize, usize)| #[trigger] self.keys().contains(k) implies self.recency@.contains(k) by {
                if hit {
                    assert(old(self).recency@.contains(k));
                    let i = choose|i: int| 0 <= i < old(self).recency@.len() && old(self).recency@[i] == k;
                    assert(self.recency@[i] == k);
                }
            }
        }
        let ghost settled = *self;
        if self.thrash.should_enter_bypass() {
            self.thrash.bypass_remaining = WORLD_MESH_COMMAND_CACHE_THRASH_BYPASS_LOOKUPS;
        }
        assert forall|k: (u64, usize, usize)| #[trigger] self.keys().contains(k) implies self.recency@.contains(k) by {
            assert(settled.keys().contains(k));
        }
        hit
    }

    /// Records `key` as resident after its draw list was arranged, then evicts least recently
    /// used keys until the cache is back within capacity. Returns the evicted keys in eviction
    /// order; an already resident key is only refreshed.
    pub fn insert(&mut self, key: WorldMeshCommandCacheKey) -> (evicted: Vec<(u64, usize, usize)>)
        requires
            old(self).wf(),
        ensures
            final(self).wf(),
            old(self).keys().contains(key.spec_tuple()) ==> {
                &&& evicted@.len() == 0
                &&& final(self).keys() == old(self).keys()
                &&& final(self).recency@ == old(self).recency@.push(key.spec_tuple())
                &&& final(self).stats == old(self).stats
            },
            !old(self).keys().contains(key.spec_tuple()) ==> {
                &&& final(self).keys() == old(self).keys().insert(key.spec_tuple()).difference(evicted@.to_set())
                &&& forall|i: int| 0 <= i < evicted@.len() ==> old(self).keys().insert(key.spec_tuple()).contains(#[trigger] evicted@[i])
                &&& forall|i: int, j: int| 0 <= i < j < evicted@.len() ==> evicted@[i] != evicted@[j]
                &&& final(self).stats == (WorldMeshCommandCacheStats {
                    insertions: sat_add(old(self).stats.insertions as int, 1, u64::MAX as int) as u64,
                    evictions: sat_add(old(self).stats.evictions as int, evicted@.len() as int, u64::MAX as int) as u64,
                    ..old(self).stats
                })
            },
            final(self).thrash == old(self).thrash,
    {
        let tuple = key.as_tuple();
        if self.entries.contains(tuple) {
            self.recency.push_back(tuple);
            proof {
                assert forall|k: (u64, usize, usize)| #[trigger] self.keys().contains(k) implies self.recency@.contains(k) by {
                    let i = choose|i: int| 0 <= i < old(self).recency@.len() && old(self).recency@[i] == k;
                    assert(self.recency@[i] == k);
                }
            }
            return Vec::new();
        }
        let ghost start = old(self).keys().insert(tuple);
        self.entries.insert(tuple);
        self.recency.push_back(tuple);
        self.stats.insertions = self.stats.insertions.saturating_add(1);
        let ghost evictions_before = self.stats.evictions;
        proof {
            assert forall|k: (u64, usize, usize)| #[trigger] self.keys().contains(k) implies self.recency@.contains(k) by {
                if k == tuple {
                    assert(self.recency@[self.recency@.len() - 1] == k);
                } else {
                    let i = choose|i: int| 0 <= i < old(self).recency@.len() && old(self).recency@[i] == k;
                    assert(self.recency@[i] == k);
                }
            }
        }
        let mut evicted: Vec<(u64, usize, usize)> = Vec::new();
        while self.entries.len() > WORLD_MESH_COMMAND_CACHE_CAPACITY && self.recency.len() > 0
            invariant
                self.keys().finite(),
                forall|k: (u64, usize, usize)| #[trigger] self.keys().contains(k) ==> self.recency@.contains(k),
                self.keys() == start.difference(evicted@.to_set()),
                forall|i: int| 0 <= i < evicted@.len() ==> start.contains(#[trigger] evicted@[i]),
                forall|i: int, j: int| 0 <= i < j < evicted@.len() ==> evicted@[i] != evicted@[j],
                self.stats.evictions == sat_add(evictions_before as int, evicted@.len() as int, u64::MAX as int),
                self.thrash == old(self).thrash,
                self.stats.insertions == sat_add(old(self).stats.insertions as int, 1, u64::MAX as int),
                self.stats.hits == old(self).stats.hits,
                self.stats.misses == old(self).stats.misses,
                self.stats.skipped_small == old(self).stats.skipped_small,
                self.stats.skipped_thrash == old(self).stats.skipped_thrash,
                self.stats.entries == old(self).stats.entries,
                self.stats.hit_rate_per_mille == old(self).stats.hit_rate_per_mille,
                evictions_before == old(self).stats.evictions,
            decreases self.recency@.len(),
        {
            let ghost queue = self.recency@;
            let ghost keys_before = self.keys();
            let ghost evicted_before = evicted@;
            match self.recency.pop_front() {
                Some(candidate) => {
                    if self.entries.remove(candidate) {
                        self.stats.evictions = self.stats.evictions.saturating_add(1);
                        evicted.push(candidate);
                        proof {
                            assert(evicted@.to_set() =~= evicted_before.to_set().insert(candidate)) by {
                                assert forall|x: (u64, usize, usize)| evicted@.contains(x) <==> (evicted_before.contains(x) || x == candidate) by {
                                    if evicted@.contains(x) {
                                        let q = choose|q: int| 0 <= q < evicted@.len() && evicted@[q] == x;
                                        if q < evicted_before.len() {
                                            assert(evicted_before[q] == x);
                                        }
                                    }
                                    if evicted_before.contains(x) {
                                        let q = choose|q: int| 0 <= q < evicted_before.len() && evicted_before[q] == x;
                                        assert(evicted@[q] == x);
                                    }
                                    if x == candidate {
                                        assert(evicted@[evicted@.len() - 1] == x);
                                    }
                                }
                            }
                            assert forall|i: int, j: int| 0 <= i < j < evicted@.len() implies evicted@[i] != evicted@[j] by {
                                if j == evicted@.len() - 1 {
                                    assert(keys_before.contains(candidate));
                                    assert(evicted@[i] == evicted_before[i]);
                                    assert(evicted_before.to_set().contains(evicted@[i])) by {
                                        assert(evicted_before.contains(evicted_before[i]));
                                    }
                                    assert(!evicted_before.to_set().contains(candidate));
                                }
                            }
                        }
                    }
                    proof {
                        assert forall|k: (u64, usize, usize)| #[trigger] self.keys().contains(k) implies self.recency@.contains(k) by {
                            assert(keys_before.contains(k));
                            let i = choose|i: int| 0 <= i < queue.len() && queue[i] == k;
                            assert(i != 0);
                            assert(self.recency@[i - 1] == k);
                        }
                    }
                },
                None => {},
            }
        }
        proof {
            if self.recency@.len() == 0 {
                assert forall|k: (u64, usize, usize)| !self.keys().contains(k) by {
                    if self.keys().contains(k) {
                        assert(self.recency@.contains(k));
                    }
                }
                assert(self.keys() == Set::<(u64, usize, usize)>::empty());
            }
        }
        evicted
    }

    /// Point-in-time counters: lifetime counts, resident entries and the probe hit rate.
    pub fn stats(&self) -> (r: WorldMeshCommandCacheStats)
        requires
            self.wf(),
        ensures
            r == (WorldMeshCommandCacheStats {
                entries: self.keys().len() as usize,
                hit_rate_per_mille: spec_hit_rate_per_mille(self.stats.hits as int, self.stats.misses as int) as u16,
                ..self.stats
            }),
    {
        let mut stats = self.stats;
        stats.entries = self.entries.len();
        stats.hit_rate_per_mille = cache_hit_rate_per_mille(stats.hits, stats.misses);
        stats
    }
}

impl WorldMeshCommandCacheStats {
    /// All counters zero.
    pub open spec fn default_spec() -> Self {
        WorldMeshCommandCacheStats {
            entries: 0,
            hits: 0,
            misses: 0,
            skipped_small: 0,
            skipped_thrash: 0,
            hit_rate_per_mille: 0,
            insertions: 0,
            evictions: 0,
        }
    }

    /// Builds a zeroed counter set.
    pub fn zero() -> (r: Self)
        ensures
            r == Self::default_spec(),
    {
        WorldMeshCommandCacheStats {
            entries: 0,
            hits: 0,
            misses: 0,
            skipped_small: 0,
            skipped_thrash: 0,
            hit_rate_per_mille: 0,
            insertions: 0,
            evictions: 0,
        }
    }
}

} // verus!
