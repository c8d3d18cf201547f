//! Candidate bookkeeping for the per-space spatial broadphase over prepared renderer runs.
use vstd::prelude::*;

use crate::material_slots::WorldMeshVisibilityStats;
use crate::prepared::FramePreparedRun;

verus! {

broadcast use vstd::seq_lib::group_to_multiset_ensures;

/// Spaces with at most this many indexable runs keep them in linear buckets instead of a BVH.
pub const SPATIAL_LINEAR_RUN_LIMIT: usize = 64;

/// Maximum number of indexed runs stored in one BVH leaf.
pub const BVH_LEAF_SIZE: usize = 8;

/// Candidate marks times this divisor at or above the run count selects the dense gather.
pub const SPATIAL_DENSE_GATHER_MIN_CANDIDATE_DIVISOR: usize = 2;

/// `a + b`, clamped to `usize::MAX`.
pub open spec fn sat_add(a: int, b: int) -> int {
    if a + b > usize::MAX { usize::MAX as int } else { a + b }
}

/// `a * b`, clamped to `usize::MAX`.
pub open spec fn sat_mul(a: int, b: int) -> int {
    if a * b > usize::MAX { usize::MAX as int } else { a * b }
}

/// Whether the dense bitset gather is used for `candidate_marks` marks over `run_count` runs.
pub open spec fn spec_should_gather_dense(candidate_marks: int, run_count: int) -> bool {
    sat_mul(candidate_marks, SPATIAL_DENSE_GATHER_MIN_CANDIDATE_DIVISOR as int) >= run_count
}

/// Chooses the dense gather once candidates are at least half as many as the runs.
pub fn should_gather_spatial_candidates_dense(candidate_marks: usize, run_count: usize) -> (r: bool)
    ensures
        r == spec_should_gather_dense(candidate_marks as int, run_count as int),
{
    let scaled: usize = if candidate_marks > usize::MAX / SPATIAL_DENSE_GATHER_MIN_CANDIDATE_DIVISOR {
        usize::MAX
    } else {
        candidate_marks * SPATIAL_DENSE_GATHER_MIN_CANDIDATE_DIVISOR
    };
    scaled >= run_count
}

/// Whether a space with `indexed_runs` indexable runs builds a BVH.
pub open spec fn spec_space_uses_bvh(indexed_runs: int) -> bool {
    indexed_runs > SPATIAL_LINEAR_RUN_LIMIT
}

/// Spaces keep every run in linear buckets until they exceed [`SPATIAL_LINEAR_RUN_LIMIT`] indexable runs.
pub fn space_uses_bvh(indexed_runs: usize) -> (r: bool)
    ensures
        r == spec_space_uses_bvh(indexed_runs as int),
{
    indexed_runs > SPATIAL_LINEAR_RUN_LIMIT
}

/// The runs of `runs[0..n)` whose index is marked in `marks`, in run order.
pub open spec fn gathered_prefix(runs: Seq<FramePreparedRun>, marks: Seq<usize>, n: int) -> Seq<FramePreparedRun>
    decreases n,
{
    if n <= 0 {
        Seq::empty()
    } else if marks.contains((n - 1) as usize) {
        gathered_prefix(runs, marks, n - 1).push(runs[n - 1])
    } else {
        gathered_prefix(runs, marks, n - 1)
    }
}

/// Every run whose index is marked, once each, in prepared-run order.
pub open spec fn gathered_runs(runs: Seq<FramePreparedRun>, marks: Seq<usize>) -> Seq<FramePreparedRun> {
    gathered_prefix(runs, marks, runs.len() as int)
}

/// Indices in `[a, b)` that carry no mark leave the gathered prefix unchanged.
proof fn lemma_gather_unmarked_span(runs: Seq<FramePreparedRun>, marks: Seq<usize>, a: int, b: int)
    requires
        0 <= a <= b <= runs.len(),
        runs.len() <= usize::MAX,
        forall|i: int| a <= i < b ==> !#[trigger] marks.contains(i as usize),
    ensures
        gathered_prefix(runs, marks, b) == gathered_prefix(runs, marks, a),
    decreases b - a,
{
    if a < b {
        assert(!marks.contains((b - 1) as usize));
        lemma_gather_unmarked_span(runs, marks, a, b - 1);
    }
}

/// Marks that hold the same indices gather the same runs.
proof fn lemma_gather_same_marks(runs: Seq<FramePreparedRun>, m1: Seq<usize>, m2: Seq<usize>, n: int)
    requires
        forall|x: usize| m1.contains(x) <==> m2.contains(x),
    ensures
        gathered_prefix(runs, m1, n) == gathered_prefix(runs, m2, n),
    decreases n,
{
    if n > 0 {
        lemma_gather_same_marks(runs, m1, m2, n - 1);
    }
}

/// Sorts candidate run indices ascending in place.
///
/// Calls `<[usize]>::sort_unstable`; the contract claims what its documentation states:
/// the result is a permutation of the input in ascending order.
#[verifier::external_body]
fn sort_run_indices(indices: &mut Vec<usize>)
    ensures
        final(indices)@.to_multiset() == old(indices)@.to_multiset(),
        forall|i: int, j: int| 0 <= i <= j < final(indices)@.len() ==> final(indices)@[i] <= final(indices)@[j],
{
    indices.sort_unstable();
}

/// Strictly ascending index sequence.
pub open spec fn strictly_ascending(s: Seq<usize>) -> bool {
    forall|i: int, j: int| 0 <= i < j < s.len() ==> s[i] < s[j]
}

/// Sparse gather: sorts and deduplicates the marks in place, then copies the marked runs in index order.
///
/// Marks past the end of `runs` are dropped from the output.
pub fn gather_spatial_candidate_runs_sparse(runs: &[FramePreparedRun], candidate_indices: &mut Vec<usize>) -> (out: Vec<FramePreparedRun>)
    ensures
        out@ == gathered_runs(runs@, old(candidate_indices)@),
        strictly_ascending(final(candidate_indices)@),
        forall|x: usize| final(candidate_indices)@.contains(x) <==> old(candidate_indices)@.contains(x),
{
    let ghost input = candidate_indices@;
    sort_run_indices(candidate_indices);
    let ghost sorted = candidate_indices@;
    assert forall|x: usize| sorted.contains(x) <==> input.contains(x) by {
        assert(sorted.to_multiset().count(x) == input.to_multiset().count(x));
    }
    let run_count = runs.len();
    let mut deduped: Vec<usize> = Vec::new();
    let mut out: Vec<FramePreparedRun> = Vec::new();
    let mut k: usize = 0;
    while k < candidate_indices.len()
        invariant
            sorted == candidate_indices@,
            forall|i: int, j: int| 0 <= i <= j < sorted.len() ==> sorted[i] <= sorted[j],
            run_count == runs@.len(),
            0 <= k <= sorted.len(),
            strictly_ascending(deduped@),
            forall|x: usize| deduped@.contains(x) <==> sorted.subrange(0, k as int).contains(x),
            k > 0 ==> deduped@.len() > 0 && deduped@.last() == sorted[k - 1],
            k == 0 ==> deduped@.len() == 0,
            k == 0 ==> out@ == gathered_prefix(runs@, sorted, 0),
            k > 0 && sorted[k - 1] < runs@.len() ==> out@ == gathered_prefix(runs@, sorted, sorted[k - 1] + 1),
            k > 0 && sorted[k - 1] >= runs@.len() ==> out@ == gathered_prefix(runs@, sorted, runs@.len() as int),
        decreases sorted.len() - k,
    {
        let x = candidate_indices[k];
        let ghost prev_deduped = deduped@;
        let is_repeat = k > 0 && candidate_indices[k - 1] == x;
        if !is_repeat {
            let ghost lo: int = if k == 0 { 0 } else if sorted[k - 1] < runs@.len() { sorted[k - 1] + 1 } else { runs@.len() as int };
            let ghost hi: int = if (x as int) < runs@.len() { x as int } else { runs@.len() as int };
            assert forall|i: int| lo <= i < hi implies !#[trigger] sorted.contains(i as usize) by {
                if sorted.contains(i as usize) {
                    let p = choose|p: int| 0 <= p < sorted.len() && sorted[p] == i as usize;
                    if p < k {
                        assert(sorted[p] <= sorted[k - 1]);
                    } else {
                        assert(sorted[k as int] <= sorted[p]);
                    }
                }
            }
            proof {
                lemma_gather_unmarked_span(runs@, sorted, lo, hi);
            }
            if x < runs.len() {
                assert(sorted.contains(x));
                out.push(runs[x]);
            }
            proof {
                if k > 0 {
                    assert(sorted[k - 1] <= x);
                }
            }
            deduped.push(x);
        }
        proof {
            let before = sorted.subrange(0, k as int);
            let after = sorted.subrange(0, k as int + 1);
            assert(after == before.push(x));
            assert forall|y: usize| deduped@.contains(y) <==> #[trigger] after.contains(y) by {
                if after.contains(y) {
                    let p = choose|p: int| 0 <= p < after.len() && after[p] == y;
                    if p < k {
                        assert(before[p] == y);
                        assert(before.contains(y));
                    } else if is_repeat {
                        assert(prev_deduped[prev_deduped.len() - 1] == y);
                    } else {
                        assert(deduped@[deduped@.len() - 1] == y);
                    }
                }
                if deduped@.contains(y) && !prev_deduped.contains(y) {
                    assert(y == x);
                    assert(after[k as int] == y);
                }
                if prev_deduped.contains(y) {
                    let p = choose|p: int| 0 <= p < prev_deduped.len() && prev_deduped[p] == y;
                    assert(deduped@[p] == y);
                    assert(before.contains(y));
                    let q = choose|q: int| 0 <= q < before.len() && before[q] == y;
                    assert(after[q] == y);
                }
            }
        }
        k = k + 1;
    }
    proof {
        let n = sorted.len() as int;
        assert(sorted.subrange(0, n) == sorted);
        if n > 0 && sorted[n - 1] < runs@.len() {
            assert forall|i: int| sorted[n - 1] + 1 <= i < runs@.len() implies !#[trigger] sorted.contains(i as usize) by {
                if sorted.contains(i as usize) {
                    let p = choose|p: int| 0 <= p < sorted.len() && sorted[p] == i as usize;
                    assert(sorted[p] <= sorted[n - 1]);
                }
            }
            lemma_gather_unmarked_span(runs@, sorted, sorted[n - 1] + 1, runs@.len() as int);
        }
        if n == 0 {
            assert forall|i: int| 0 <= i < runs@.len() implies !#[trigger] sorted.contains(i as usize) by {}
            lemma_gather_unmarked_span(runs@, sorted, 0, runs@.len() as int);
        }
        lemma_gather_same_marks(runs@, sorted, input, runs@.len() as int);
    }
    *candidate_indices = deduped;
    out
}

/// Dense gather: marks a bitset over all runs, then copies the marked runs in index order.
///
/// Marks past the end of `runs` are ignored.
pub fn gather_spatial_candidate_runs_dense(runs: &[FramePreparedRun], candidate_indices: &[usize]) -> (out: Vec<FramePreparedRun>)
    ensures
        out@ == gathered_runs(runs@, candidate_indices@),
{
    let mut bits: Vec<bool> = Vec::new();
    let mut i: usize = 0;
    while i < runs.len()
        invariant
            0 <= i <= runs.len(),
            bits@.len() == i,
            forall|j: int| 0 <= j < i ==> !bits@[j],
        decreases runs.len() - i,
    {
        bits.push(false);
        i = i + 1;
    }
    let mut k: usize = 0;
    while k < candidate_indices.len()
        invariant
            0 <= k <= candidate_indices.len(),
            bits@.len() == runs@.len(),
            forall|j: int| 0 <= j < bits@.len() ==> (bits@[j] <==> candidate_indices@.subrange(0, k as int).contains(j as usize)),
        decreases candidate_indices.len() - k,
    {
        let c = candidate_indices[k];
        let ghost prev_bits = bits@;
        if c < bits.len() {
            bits.set(c, true);
        }
        proof {
            let before = candidate_indices@.subrange(0, k as int);
            let after = candidate_indices@.subrange(0, k as int + 1);
            assert(after == before.push(c));
            assert forall|j: int| 0 <= j < bits@.len() implies (bits@[j] <==> #[trigger] after.contains(j as usize)) by {
                if j == c as int {
                    assert(after[k as int] == c);
                } else {
                    assert(bits@[j] == prev_bits[j]);
                    if after.contains(j as usize) {
                        let p = choose|p: int| 0 <= p < after.len() && after[p] == j as usize;
                        assert(before[p] == j as usize);
                    }
                    if before.contains(j as usize) {
                        let p = choose|p: int| 0 <= p < before.len() && before[p] == j as usize;
                        assert(after[p] == j as usize);
                    }
                }
            }
        }
        k = k + 1;
    }
    proof {
        assert(candidate_indices@.subrange(0, candidate_indices@.len() as int) == candidate_indices@);
    }
    let mut out: Vec<FramePreparedRun> = Vec::new();
    let mut r: usize = 0;
    while r < runs.len()
        invariant
            0 <= r <= runs.len(),
            bits@.len() == runs@.len(),
            forall|j: int| 0 <= j < bits@.len() ==> (bits@[j] <==> candidate_indices@.contains(j as usize)),
            out@ == gathered_prefix(runs@, candidate_indices@, r as int),
        decreases runs.len() - r,
    {
        if bits[r] {
            out.push(runs[r]);
        }
        r = r + 1;
    }
    out
}

/// Gathers the marked runs in prepared-run order, choosing the dense or sparse strategy by mark density.
pub fn gather_spatial_candidate_runs(runs: &[FramePreparedRun], candidate_indices: &mut Vec<usize>) -> (out: Vec<FramePreparedRun>)
    ensures
        out@ == gathered_runs(runs@, old(candidate_indices)@),
        spec_should_gather_dense(old(candidate_indices)@.len() as int, runs@.len() as int)
            ==> final(candidate_indices)@ == old(candidate_indices)@,
        !spec_should_gather_dense(old(candidate_indices)@.len() as int, runs@.len() as int) ==> {
            &&& strictly_ascending(final(candidate_indices)@)
            &&& forall|x: usize| final(candidate_indices)@.contains(x) <==> old(candidate_indices)@.contains(x)
        },
{
    if should_gather_spatial_candidates_dense(candidate_indices.len(), runs.len()) {
        gather_spatial_candidate_runs_dense(runs, candidate_indices)
    } else {
        gather_spatial_candidate_runs_sparse(runs, candidate_indices)
    }
}

/// Slot-level cull counters: (frustum-culled slots, total culled slots, Hi-Z culled slots).
pub type SpatialCullStats = (usize, usize, usize);

/// Counters after a broadphase reject of `run_count` runs covering `slot_count` draw slots.
pub open spec fn spec_record_reject(
    stats: SpatialCullStats,
    visibility: WorldMeshVisibilityStats,
    run_count: int,
    slot_count: int,
) -> (SpatialCullStats, WorldMeshVisibilityStats) {
    (
        (sat_add(stats.0 as int, slot_count) as usize, sat_add(stats.1 as int, slot_count) as usize, stats.2),
        WorldMeshVisibilityStats {
            broadphase_culled_runs: sat_add(visibility.broadphase_culled_runs as int, run_count) as usize,
            broadphase_culled_draws: sat_add(visibility.broadphase_culled_draws as int, slot_count) as usize,
            ..visibility
        },
    )
}

/// Records a broadphase reject: counts its slots as frustum-culled and its runs and slots as broadphase-culled.
pub fn record_spatial_frustum_reject(
    stats: &mut SpatialCullStats,
    visibility: &mut WorldMeshVisibilityStats,
    run_count: usize,
    slot_count: usize,
)
    ensures
        (*final(stats), *final(visibility)) == spec_record_reject(*old(stats), *old(visibility), run_count as int, slot_count as int),
{
    stats.0 = stats.0.saturating_add(slot_count);
    stats.1 = stats.1.saturating_add(slot_count);
    visibility.broadphase_culled_runs = visibility.broadphase_culled_runs.saturating_add(run_count);
    visibility.broadphase_culled_draws = visibility.broadphase_culled_draws.saturating_add(slot_count);
}

/// Surviving runs and counters of one spatial query.
pub struct PreparedSpatialRunCandidates {
    /// Renderer runs that survived spatial filtering, in prepared-run order.
    pub runs: Vec<FramePreparedRun>,
    /// Slot-level cull counters for runs rejected by the spatial index itself.
    pub cull_stats: SpatialCullStats,
    /// Visibility broadphase counters for this query.
    pub visibility: WorldMeshVisibilityStats,
}

/// Output accumulated while one spatial query walks its spaces.
pub struct PreparedSpatialQueryOutput {
    /// Candidate run marks in the order they were emitted (duplicates allowed).
    pub candidates: Vec<usize>,
    /// Raw candidate marks before duplicate suppression.
    pub raw_candidate_marks: usize,
    /// Slot-level cull counters.
    pub cull_stats: SpatialCullStats,
    /// Visibility broadphase counters.
    pub visibility: WorldMeshVisibilityStats,
}

impl PreparedSpatialQueryOutput {
    /// Empty output with zeroed counters.
    pub fn new() -> (r: Self)
        ensures
            r.candidates@ == Seq::<usize>::empty(),
            r.raw_candidate_marks == 0,
            r.cull_stats == (0usize, 0usize, 0usize),
            r.visibility == WorldMeshVisibilityStats::spec_zero(),
    {
        PreparedSpatialQueryOutput {
            candidates: Vec::new(),
            raw_candidate_marks: 0,
            cull_stats: (0, 0, 0),
            visibility: WorldMeshVisibilityStats::zero(),
        }
    }

    /// Marks one visible run candidate.
    pub fn mark_candidate_run(&mut self, run_index: usize)
        ensures
            final(self).candidates@ == old(self).candidates@.push(run_index),
            final(self).raw_candidate_marks == sat_add(old(self).raw_candidate_marks as int, 1),
            final(self).cull_stats == old(self).cull_stats,
            final(self).visibility == old(self).visibility,
    {
        self.raw_candidate_marks = self.raw_candidate_marks.saturating_add(1);
        self.candidates.push(run_index);
    }

    /// Records a broadphase reject of `run_count` runs covering `slot_count` slots.
    pub fn record_reject(&mut self, run_count: usize, slot_count: usize)
        ensures
            (final(self).cull_stats, final(self).visibility)
                == spec_record_reject(old(self).cull_stats, old(self).visibility, run_count as int, slot_count as int),
            final(self).candidates@ == old(self).candidates@,
            final(self).raw_candidate_marks == old(self).raw_candidate_marks,
    {
        record_spatial_frustum_reject(&mut self.cull_stats, &mut self.visibility, run_count, slot_count);
    }

    /// Adds one queried space's run counts to the visibility counters.
    pub fn note_space_counts(&mut self, indexed_run_count: usize, fallback_run_count: usize, linear_run_count: usize)
        requires
            old(self).visibility.indexed_runs + indexed_run_count <= usize::MAX,
            old(self).visibility.fallback_runs + fallback_run_count <= usize::MAX,
            old(self).visibility.linear_fallback_runs + linear_run_count <= usize::MAX,
        ensures
            final(self).visibility == (WorldMeshVisibilityStats {
                indexed_runs: (old(self).visibility.indexed_runs + indexed_run_count) as usize,
                fallback_runs: (old(self).visibility.fallback_runs + fallback_run_count) as usize,
                linear_fallback_runs: (old(self).visibility.linear_fallback_runs + linear_run_count) as usize,
                ..old(self).visibility
            }),
            final(self).candidates@ == old(self).candidates@,
            final(self).raw_candidate_marks == old(self).raw_candidate_marks,
            final(self).cull_stats == old(self).cull_stats,
    {
        self.visibility.indexed_runs = self.visibility.indexed_runs + indexed_run_count;
        self.visibility.fallback_runs = self.visibility.fallback_runs + fallback_run_count;
        self.visibility.linear_fallback_runs = self.visibility.linear_fallback_runs + linear_run_count;
    }

    /// Gathers the marked runs and fills the candidate and duplicate counters.
    pub fn into_candidates(self, runs: &[FramePreparedRun]) -> (r: PreparedSpatialRunCandidates)
        ensures
            r.runs@ == gathered_runs(runs@, self.candidates@),
            r.cull_stats == self.cull_stats,
            r.visibility == (WorldMeshVisibilityStats {
                candidate_runs: r.runs@.len() as usize,
                raw_candidate_marks: self.raw_candidate_marks,
                duplicate_candidate_marks: (if self.raw_candidate_marks >= r.runs@.len() {
                    self.raw_candidate_marks - r.runs@.len()
                } else {
                    0
                }) as usize,
                ..self.visibility
            }),
    {
        let mut candidates = self.candidates;
        let out = gather_spatial_candidate_runs(runs, &mut candidates);
        let candidate_runs = out.len();
        let raw = self.raw_candidate_marks;
        let mut visibility = self.visibility;
        visibility.candidate_runs = candidate_runs;
        visibility.raw_candidate_marks = raw;
        visibility.duplicate_candidate_marks = raw.saturating_sub(candidate_runs);
        PreparedSpatialRunCandidates { runs: out, cull_stats: self.cull_stats, visibility }
    }
}

} // verus!
