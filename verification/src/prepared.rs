//! Frame-prepared draw rows: renderer runs, run chunks, renderer ordinals, and the first-seen
//! material/property key set with its membership signature.
use vstd::prelude::*;

use crate::collections::{counter_map_contents, material_key_set_contents, CounterMap, MaterialKeySet};
use crate::material_slots::MaterialStackOrder;
use crate::shared::{MeshRendererInstanceId, RenderSpaceId, ShadowCastMode};

verus! {

/// One resolved draw slot (renderer x material slot mapped to a submesh range) for the frame.
#[derive(Clone, Copy, Debug, PartialEq, Eq)]
pub struct FramePreparedDraw {
    /// Host render space that owns the source renderer.
    pub space_id: RenderSpaceId,
    /// Index into the static or skinned renderer list (selected by `skinned`).
    pub renderable_index: usize,
    /// Renderer-local identity.
    pub instance_id: MeshRendererInstanceId,
    /// Dense per-space renderer ordinal assigned after runs are finalized.
    pub renderer_ordinal: usize,
    /// Scene node id.
    pub node_id: i32,
    /// Resident mesh asset id.
    pub mesh_asset_id: i32,
    /// Inherited overlay-layer flag.
    pub is_overlay: bool,
    /// Inherited hidden-layer flag.
    pub is_hidden: bool,
    /// Host sorting order.
    pub sorting_order: i32,
    /// Host shadow-caster mode.
    pub shadow_cast_mode: ShadowCastMode,
    /// Whether the row came from the skinned renderer list.
    pub skinned: bool,
    /// Whether the mesh deforms into world space.
    pub world_space_deformed: bool,
    /// Whether blendshape deformation is active.
    pub blendshape_deformed: bool,
    /// Whether tangent blendshape deformation is active.
    pub tangent_blendshape_deform_active: bool,
    /// Material slot index.
    pub slot_index: usize,
    /// Material-stack marker when this slot reuses the final submesh.
    pub material_stack_order: Option<MaterialStackOrder>,
    /// First index of the submesh range.
    pub first_index: u32,
    /// Index count of the submesh range.
    pub index_count: u32,
    /// Resolved material asset id; expansion skips slots whose material is negative, so every
    /// prepared row holds a non-negative id.
    pub material_asset_id: i32,
    /// Per-slot property block id.
    pub property_block_id: Option<i32>,
}

/// Contiguous range of prepared draws produced by one source renderer.
#[derive(Clone, Copy, Debug, PartialEq, Eq, Structural)]
pub struct FramePreparedRun {
    /// First draw index in this renderer run.
    pub start: u32,
    /// One-past-last draw index in this renderer run.
    pub end: u32,
}

/// Contiguous range of runs consumed as one collection task.
#[derive(Clone, Copy, Debug, PartialEq, Eq, Structural)]
pub struct FramePreparedRunChunk {
    /// First run index in this chunk.
    pub start: usize,
    /// One-past-last run index in this chunk.
    pub end: usize,
}

/// Two prepared rows came from the same source renderer.
pub open spec fn spec_share_renderer(a: FramePreparedDraw, b: FramePreparedDraw) -> bool {
    &&& a.space_id == b.space_id
    &&& a.renderable_index == b.renderable_index
    &&& a.instance_id == b.instance_id
    &&& a.node_id == b.node_id
    &&& a.mesh_asset_id == b.mesh_asset_id
    &&& a.is_overlay == b.is_overlay
    &&& a.is_hidden == b.is_hidden
    &&& a.sorting_order == b.sorting_order
    &&& a.skinned == b.skinned
    &&& a.world_space_deformed == b.world_space_deformed
    &&& a.blendshape_deformed == b.blendshape_deformed
    &&& a.tangent_blendshape_deform_active == b.tangent_blendshape_deform_active
}

/// Returns true when two prepared slot entries came from the same source renderer.
pub fn prepared_draws_share_renderer(a: &FramePreparedDraw, b: &FramePreparedDraw) -> (r: bool)
    ensures
        r == spec_share_renderer(*a, *b),
{
    a.space_id.0 == b.space_id.0 && a.renderable_index == b.renderable_index && a.instance_id.0 == b.instance_id.0
        && a.node_id == b.node_id && a.mesh_asset_id == b.mesh_asset_id && a.is_overlay == b.is_overlay
        && a.is_hidden == b.is_hidden && a.sorting_order == b.sorting_order && a.skinned == b.skinned && a.world_space_deformed
        == b.world_space_deformed && a.blendshape_deformed == b.blendshape_deformed
        && a.tangent_blendshape_deform_active == b.tangent_blendshape_deform_active
}

/// FNV-style offset basis of the material key signature.
pub const MATERIAL_KEY_SIGNATURE_OFFSET: u64 = 0xcbf2_9ce4_8422_2325;

/// FNV-style prime of the material key signature.
pub const MATERIAL_KEY_SIGNATURE_PRIME: u64 = 0x0000_0100_0000_01b3;

/// Bits mixed in for an absent property block.
pub const MATERIAL_KEY_ABSENT_PROPERTY_BITS: u64 = 0x9e37_79b9_7f4a_7c15;

/// `x * y` modulo 2^64.
pub open spec fn mul_wrap(x: u64, y: u64) -> u64 {
    ((x as nat * y as nat) % 0x1_0000_0000_0000_0000) as u64
}

/// One xor-then-multiply signature step.
pub open spec fn mix_part(signature: u64, part: u64) -> u64 {
    mul_wrap(signature ^ part, MATERIAL_KEY_SIGNATURE_PRIME)
}

/// Sign-extended 64-bit pattern of a material id.
pub open spec fn material_bits(material_asset_id: i32) -> u64 {
    material_asset_id as i64 as u64
}

/// Sign-extended 64-bit pattern of a property block id, or a fixed constant when absent.
pub open spec fn property_bits(property_block_id: Option<i32>) -> u64 {
    match property_block_id {
        Some(id) => id as i64 as u64,
        None => MATERIAL_KEY_ABSENT_PROPERTY_BITS,
    }
}

/// Signature after mixing one `(material, property block)` key: the material bits, the property
/// bits, then `rotl(material, 17) ^ rotr(property, 11)`.
pub open spec fn spec_mix_material_key_signature(signature: u64, material_asset_id: i32, property_block_id: Option<i32>) -> u64 {
    let m = material_bits(material_asset_id);
    let p = property_bits(property_block_id);
    let cross = ((m << 17u64) | (m >> 47u64)) ^ ((p >> 11u64) | (p << 53u64));
    mix_part(mix_part(mix_part(signature, m), p), cross)
}

/// Signature for an empty prepared material live set.
pub fn empty_material_key_signature() -> (r: u64)
    ensures
        r == MATERIAL_KEY_SIGNATURE_OFFSET,
{
    MATERIAL_KEY_SIGNATURE_OFFSET
}

/// Mixes one `(material, property block)` key into a running signature.
pub fn mix_material_key_signature(signature: u64, material_asset_id: i32, property_block_id: Option<i32>) -> (r: u64)
    ensures
        r == spec_mix_material_key_signature(signature, material_asset_id, property_block_id),
{
    let material_bits: u64 = material_asset_id as i64 as u64;
    let property_bits: u64 = match property_block_id {
        Some(id) => id as i64 as u64,
        None => MATERIAL_KEY_ABSENT_PROPERTY_BITS,
    };
    let cross: u64 = ((material_bits << 17u64) | (material_bits >> 47u64)) ^ ((property_bits >> 11u64) | (property_bits << 53u64));
    let mut signature = signature;
    signature = (signature ^ material_bits).wrapping_mul(MATERIAL_KEY_SIGNATURE_PRIME);
    signature = (signature ^ property_bits).wrapping_mul(MATERIAL_KEY_SIGNATURE_PRIME);
    signature = (signature ^ cross).wrapping_mul(MATERIAL_KEY_SIGNATURE_PRIME);
    signature
}

/// The `(material, property block)` key of a prepared row.
pub open spec fn draw_key(d: FramePreparedDraw) -> (i32, Option<i32>) {
    (d.material_asset_id, d.property_block_id)
}

/// Keys of `draws`, each kept at its first occurrence, in order.
pub open spec fn first_seen_keys(draws: Seq<FramePreparedDraw>) -> Seq<(i32, Option<i32>)>
    decreases draws.len(),
{
    if draws.len() == 0 {
        Seq::empty()
    } else {
        let prefix = first_seen_keys(draws.drop_last());
        let key = draw_key(draws.last());
        if prefix.contains(key) {
            prefix
        } else {
            prefix.push(key)
        }
    }
}

/// Signature of a key list: each key mixed in order starting from the offset basis.
pub open spec fn fold_key_signature(keys: Seq<(i32, Option<i32>)>) -> u64
    decreases keys.len(),
{
    if keys.len() == 0 {
        MATERIAL_KEY_SIGNATURE_OFFSET
    } else {
        let k = keys.last();
        spec_mix_material_key_signature(fold_key_signature(keys.drop_last()), k.0, k.1)
    }
}

/// `runs` splits `draws` into maximal same-renderer ranges, in order.
pub open spec fn runs_partition_draws(draws: Seq<FramePreparedDraw>, runs: Seq<FramePreparedRun>) -> bool {
    &&& draws.len() == 0 ==> runs.len() == 0
    &&& draws.len() > 0 ==> {
        &&& runs.len() >= 1
        &&& runs[0].start == 0
        &&& runs.last().end == draws.len()
    }
    &&& forall|k: int| 0 <= k < runs.len() ==> (#[trigger] runs[k]).start < runs[k].end
    &&& forall|k: int| 0 <= k < runs.len() - 1 ==> (#[trigger] runs[k + 1]).start == runs[k].end
    &&& forall|k: int, i: int| 0 <= k < runs.len() && runs[k].start < i < runs[k].end
        ==> spec_share_renderer(draws[i - 1], #[trigger] draws[i]) && #[trigger] runs[k] == runs[k]
    &&& forall|k: int| 0 < k < runs.len() ==> !spec_share_renderer(draws[(#[trigger] runs[k]).start - 1], draws[runs[k].start as int])
}

proof fn lemma_push_contains<T>(s: Seq<T>, x: T, k: T)
    ensures
        s.push(x).contains(k) <==> (s.contains(k) || k == x),
{
    if s.contains(k) {
        let j = choose|j: int| 0 <= j < s.len() && s[j] == k;
        assert(s.push(x)[j] == k);
    }
    if k == x {
        assert(s.push(x)[s.len() as int] == k);
    }
    if s.push(x).contains(k) {
        let j = choose|j: int| 0 <= j < s.push(x).len() && s.push(x)[j] == k;
        if j < s.len() {
            assert(s[j] == k);
        }
    }
}

proof fn lemma_first_seen_keys_props(draws: Seq<FramePreparedDraw>)
    ensures
        first_seen_keys(draws).no_duplicates(),
        forall|k: (i32, Option<i32>)| first_seen_keys(draws).contains(k) <==> exists|i: int| 0 <= i < draws.len() && draw_key(#[trigger] draws[i]) == k,
    decreases draws.len(),
{
    if draws.len() > 0 {
        let pre = draws.drop_last();
        lemma_first_seen_keys_props(pre);
        let prefix = first_seen_keys(pre);
        let key = draw_key(draws.last());
        assert forall|k: (i32, Option<i32>)| first_seen_keys(draws).contains(k) implies exists|i: int| 0 <= i < draws.len() && draw_key(#[trigger] draws[i]) == k by {
            lemma_push_contains(prefix, key, k);
            if prefix.contains(k) {
                let i = choose|i: int| 0 <= i < pre.len() && draw_key(#[trigger] pre[i]) == k;
                assert(draws[i] == pre[i]);
            } else {
                assert(k == key);
                assert(draw_key(draws[draws.len() - 1]) == k);
            }
        }
        assert forall|k: (i32, Option<i32>)| (exists|i: int| 0 <= i < draws.len() && draw_key(#[trigger] draws[i]) == k) implies first_seen_keys(draws).contains(k) by {
            lemma_push_contains(prefix, key, k);
            let i = choose|i: int| 0 <= i < draws.len() && draw_key(#[trigger] draws[i]) == k;
            if i < draws.len() - 1 {
                assert(pre[i] == draws[i]);
                assert(draw_key(pre[i]) == k);
                assert(prefix.contains(k));
            } else {
                assert(k == key);
            }
        }
        if !prefix.contains(key) {
            assert(prefix.push(key).no_duplicates()) by {
                assert forall|a: int, b: int| 0 <= a < b < prefix.push(key).len() implies prefix.push(key)[a] != prefix.push(key)[b] by {
                    if b == prefix.len() {
                        assert(prefix[a] == prefix.push(key)[a]);
                    }
                }
            }
        }
    }
}

/// Walks `draws` once and refreshes renderer-run ranges plus unique material/property keys.
///
/// Returns the signature of the first-seen unique key list xor its length.
pub fn populate_runs_and_material_keys(
    draws: &[FramePreparedDraw],
    runs: &mut Vec<FramePreparedRun>,
    material_property_keys: &mut Vec<(i32, Option<i32>)>,
    seen: &mut MaterialKeySet,
) -> (signature: u64)
    requires
        draws@.len() <= u32::MAX,
    ensures
        runs_partition_draws(draws@, final(runs)@),
        final(material_property_keys)@ == first_seen_keys(draws@),
        final(material_property_keys)@.no_duplicates(),
        material_key_set_contents(*final(seen)) == final(material_property_keys)@.to_set(),
        draws@.len() == 0 ==> signature == MATERIAL_KEY_SIGNATURE_OFFSET,
        draws@.len() > 0 ==> signature == fold_key_signature(first_seen_keys(draws@)) ^ (first_seen_keys(draws@).len() as u64),
{
    runs.clear();
    material_property_keys.clear();
    seen.clear();
    if draws.len() == 0 {
        return empty_material_key_signature();
    }
    let mut signature = empty_material_key_signature();
    let mut run_start: usize = 0;
    let mut idx: usize = 0;
    while idx < draws.len()
        invariant
            0 < draws@.len() <= u32::MAX,
            idx <= draws@.len(),
            run_start < draws@.len(),
            idx > 0 ==> run_start < idx,
            idx == 0 ==> run_start == 0,
            material_property_keys@ == first_seen_keys(draws@.subrange(0, idx as int)),
            material_key_set_contents(*seen) == material_property_keys@.to_set(),
            signature == fold_key_signature(material_property_keys@),
            forall|i: int| run_start < i < idx ==> spec_share_renderer(draws@[i - 1], #[trigger] draws@[i]),
            runs@.len() == 0 ==> run_start == 0,
            runs@.len() > 0 ==> runs@[0].start == 0 && runs@.last().end == run_start,
            forall|k: int| 0 <= k < runs@.len() ==> (#[trigger] runs@[k]).start < runs@[k].end,
            forall|k: int| 0 <= k < runs@.len() - 1 ==> (#[trigger] runs@[k + 1]).start == runs@[k].end,
            forall|k: int, i: int| 0 <= k < runs@.len() && runs@[k].start < i < runs@[k].end
                ==> spec_share_renderer(draws@[i - 1], #[trigger] draws@[i]) && #[trigger] runs@[k] == runs@[k],
            forall|k: int| 0 < k < runs@.len() ==> !spec_share_renderer(draws@[(#[trigger] runs@[k]).start - 1], draws@[runs@[k].start as int]),
            runs@.len() > 0 ==> !spec_share_renderer(draws@[run_start - 1], draws@[run_start as int]),
        decreases draws@.len() - idx,
    {
        let d = &draws[idx];
        let key = (d.material_asset_id, d.property_block_id);
        let ghost prev_keys = material_property_keys@;
        proof {
            assert(draws@.subrange(0, idx as int + 1).drop_last() =~= draws@.subrange(0, idx as int));
            assert(draws@.subrange(0, idx as int + 1).last() == draws@[idx as int]);
            assert(material_property_keys@.contains(key) == material_key_set_contents(*seen).contains(key));
        }
        if seen.insert(key) {
            material_property_keys.push(key);
            signature = mix_material_key_signature(signature, d.material_asset_id, d.property_block_id);
            proof {
                assert(material_property_keys@.drop_last() =~= prev_keys);
                assert(material_key_set_contents(*seen) =~= material_property_keys@.to_set()) by {
                    assert forall|k: (i32, Option<i32>)| material_property_keys@.contains(k) <==> prev_keys.contains(k) || k == key by {
                        if material_property_keys@.contains(k) {
                            let j = choose|j: int| 0 <= j < material_property_keys@.len() && material_property_keys@[j] == k;
                            if j < prev_keys.len() {
                                assert(prev_keys[j] == k);
                            }
                        }
                        if prev_keys.contains(k) {
                            let j = choose|j: int| 0 <= j < prev_keys.len() && prev_keys[j] == k;
                            assert(material_property_keys@[j] == k);
                        }
                        if k == key {
                            assert(material_property_keys@[prev_keys.len() as int] == k);
                        }
                    }
                }
            }
        }
        if idx > 0 && !prepared_draws_share_renderer(&draws[idx - 1], d) {
            runs.push(FramePreparedRun { start: run_start as u32, end: idx as u32 });
            run_start = idx;
        }
        idx += 1;
    }
    runs.push(FramePreparedRun { start: run_start as u32, end: draws.len() as u32 });
    proof {
        assert(draws@.subrange(0, draws@.len() as int) =~= draws@);
        lemma_first_seen_keys_props(draws@);
    }
    let count = material_property_keys.len() as u64;
    signature ^ count
}

/// Greedy run chunks: each chunk starts at a run and keeps adding runs while the chunk's draw
/// span (from its first run's start to its last run's end) is below `target`.
pub open spec fn chunk_span(runs: Seq<FramePreparedRun>, s: int, e: int) -> int {
    if runs[e - 1].end >= runs[s].start {
        runs[e - 1].end - runs[s].start
    } else {
        0
    }
}

/// `chunks` covers `0..runs.len()` with consecutive non-empty chunks, each grown greedily up to
/// `max(target, 1)` draws.
pub open spec fn greedy_run_chunks(runs: Seq<FramePreparedRun>, chunks: Seq<FramePreparedRunChunk>, target: int) -> bool {
    let t = if target < 1 { 1 } else { target };
    &&& runs.len() == 0 ==> chunks.len() == 0
    &&& runs.len() > 0 ==> chunks.len() >= 1 && chunks[0].start == 0 && chunks.last().end == runs.len()
    &&& forall|c: int| 0 <= c < chunks.len() - 1 ==> (#[trigger] chunks[c + 1]).start == chunks[c].end
    &&& forall|c: int| 0 <= c < chunks.len() ==> (#[trigger] chunks[c]).start < chunks[c].end <= runs.len()
    &&& forall|c: int, m: int| 0 <= c < chunks.len() && chunks[c].start < m < chunks[c].end
        ==> #[trigger] chunk_span(runs, chunks[c].start as int, m) < t
    &&& forall|c: int| 0 <= c < chunks.len() && (#[trigger] chunks[c]).end < runs.len()
        ==> chunk_span(runs, chunks[c].start as int, chunks[c].end as int) >= t
}

/// Rebuilds cached run-chunk ranges from renderer-run metadata.
pub fn populate_run_chunks(runs: &[FramePreparedRun], run_chunks: &mut Vec<FramePreparedRunChunk>, target_chunk_size: usize)
    ensures
        greedy_run_chunks(runs@, final(run_chunks)@, target_chunk_size as int),
{
    run_chunks.clear();
    if runs.len() == 0 {
        return;
    }
    let target: usize = if target_chunk_size < 1 { 1 } else { target_chunk_size };
    let mut run_start: usize = 0;
    while run_start < runs.len()
        invariant
            runs@.len() > 0,
            target as int == (if target_chunk_size < 1 { 1 } else { target_chunk_size as int }),
            run_start <= runs@.len(),
            run_chunks@.len() == 0 ==> run_start == 0,
            run_chunks@.len() > 0 ==> run_chunks@[0].start == 0 && run_chunks@.last().end == run_start,
            forall|c: int| 0 <= c < run_chunks@.len() - 1 ==> (#[trigger] run_chunks@[c + 1]).start == run_chunks@[c].end,
            forall|c: int| 0 <= c < run_chunks@.len() ==> (#[trigger] run_chunks@[c]).start < run_chunks@[c].end <= runs@.len(),
            forall|c: int, m: int| 0 <= c < run_chunks@.len() && run_chunks@[c].start < m < run_chunks@[c].end
                ==> #[trigger] chunk_span(runs@, run_chunks@[c].start as int, m) < target,
            forall|c: int| 0 <= c < run_chunks@.len() && (#[trigger] run_chunks@[c]).end < runs@.len()
                ==> chunk_span(runs@, run_chunks@[c].start as int, run_chunks@[c].end as int) >= target,
        decreases runs@.len() - run_start,
    {
        let draw_start = runs[run_start].start as usize;
        let mut run_end = run_start + 1;
        while run_end < runs.len() && (runs[run_end - 1].end as usize).saturating_sub(draw_start) < target
            invariant
                run_start < run_end <= runs@.len(),
                draw_start == runs@[run_start as int].start,
                forall|m: int| run_start < m < run_end ==> #[trigger] chunk_span(runs@, run_start as int, m) < target,
            decreases runs@.len() - run_end,
        {
            run_end += 1;
        }
        let ghost before = run_chunks@;
        run_chunks.push(FramePreparedRunChunk { start: run_start, end: run_end });
        proof {
            assert forall|c: int, m: int| 0 <= c < run_chunks@.len() && run_chunks@[c].start < m < run_chunks@[c].end
                implies #[trigger] chunk_span(runs@, run_chunks@[c].start as int, m) < target by {
                if c < before.len() {
                    assert(run_chunks@[c] == before[c]);
                }
            }
            assert forall|c: int| 0 <= c < run_chunks@.len() && (#[trigger] run_chunks@[c]).end < runs@.len()
                implies chunk_span(runs@, run_chunks@[c].start as int, run_chunks@[c].end as int) >= target by {
                if c < before.len() {
                    assert(run_chunks@[c] == before[c]);
                }
            }
        }
        run_start = run_end;
    }
}

/// Index of the last run at or before `k` (exclusive bound `k`) that covers draw `i`, or `-1`.
pub open spec fn last_covering_run(runs: Seq<FramePreparedRun>, k: int, i: int) -> int
    decreases k,
{
    if k <= 0 {
        -1
    } else if runs[k - 1].start <= i < runs[k - 1].end {
        k - 1
    } else {
        last_covering_run(runs, k - 1, i)
    }
}

/// Number of runs before `k` whose first row exists and lies in render space `space`.
pub open spec fn runs_before_in_space(draws: Seq<FramePreparedDraw>, runs: Seq<FramePreparedRun>, k: int, space: RenderSpaceId) -> nat
    decreases k,
{
    if k <= 0 {
        0
    } else {
        runs_before_in_space(draws, runs, k - 1, space) + if runs[k - 1].start < draws.len() && draws[runs[k - 1].start as int].space_id == space {
            1nat
        } else {
            0nat
        }
    }
}

/// Dense per-space renderer ordinal of run `k`: how many earlier runs start in the same space.
pub open spec fn run_ordinal(draws: Seq<FramePreparedDraw>, runs: Seq<FramePreparedRun>, k: int) -> nat {
    runs_before_in_space(draws, runs, k, draws[runs[k].start as int].space_id)
}

/// Assigns dense renderer ordinals per render space when no scene table is available.
///
/// Every row covered by a run takes the ordinal of the last run covering it; other rows keep
/// theirs. No other field changes.
pub fn populate_renderer_ordinals_from_runs(draws: &mut Vec<FramePreparedDraw>, runs: &[FramePreparedRun])
    requires
        forall|k: int| 0 <= k < runs@.len() ==> (#[trigger] runs@[k]).start <= runs@[k].end <= old(draws)@.len(),
        runs@.len() <= usize::MAX,
    ensures
        final(draws)@.len() == old(draws)@.len(),
        forall|i: int| 0 <= i < old(draws)@.len() ==> {
            let k = last_covering_run(runs@, runs@.len() as int, i);
            &&& (#[trigger] final(draws)@[i]).renderer_ordinal == (if k >= 0 { run_ordinal(old(draws)@, runs@, k) as usize } else { old(draws)@[i].renderer_ordinal })
            &&& final(draws)@[i] == (FramePreparedDraw { renderer_ordinal: final(draws)@[i].renderer_ordinal, ..old(draws)@[i] })
        },
{
    let ghost input = draws@;
    let mut next_by_space = CounterMap::new();
    let mut r: usize = 0;
    while r < runs.len()
        invariant
            r <= runs@.len(),
            draws@.len() == input.len(),
            forall|k: int| 0 <= k < runs@.len() ==> (#[trigger] runs@[k]).start <= runs@[k].end <= input.len(),
            forall|i: int| 0 <= i < input.len() ==> (#[trigger] draws@[i]) == (FramePreparedDraw { renderer_ordinal: draws@[i].renderer_ordinal, ..input[i] }),
            forall|i: int| 0 <= i < input.len() ==> {
                let k = last_covering_run(runs@, r as int, i);
                (#[trigger] draws@[i]).renderer_ordinal == (if k >= 0 { run_ordinal(input, runs@, k) as usize } else { input[i].renderer_ordinal })
            },
            forall|s: i32| #[trigger] counter_map_contents(next_by_space).contains_key(s) ==> counter_map_contents(next_by_space)[s] == runs_before_in_space(input, runs@, r as int, RenderSpaceId(s)) - 1,
            forall|s: i32| !#[trigger] counter_map_contents(next_by_space).contains_key(s) ==> runs_before_in_space(input, runs@, r as int, RenderSpaceId(s)) == 0,
        decreases runs@.len() - r,
    {
        let start = runs[r].start as usize;
        let end = runs[r].end as usize;
        if start < draws.len() {
            let space = draws[start].space_id.0;
            proof {
                lemma_runs_before_bounded(input, runs@, r as int, RenderSpaceId(space));
            }
            let ordinal: usize = match next_by_space.get(space) {
                Some(next) => next + 1,
                None => 0,
            };
            next_by_space.set(space, ordinal);
            proof {
                assert(r < runs@.len());
                assert(input[start as int].space_id == RenderSpaceId(space));
                assert(ordinal == run_ordinal(input, runs@, r as int));
                assert forall|s2: i32| #[trigger] counter_map_contents(next_by_space).contains_key(s2)
                    implies counter_map_contents(next_by_space)[s2] == runs_before_in_space(input, runs@, r + 1, RenderSpaceId(s2)) - 1 by {
                    if s2 != space {
                        assert(RenderSpaceId(s2) != RenderSpaceId(space));
                    }
                }
                assert forall|s2: i32| !#[trigger] counter_map_contents(next_by_space).contains_key(s2)
                    implies runs_before_in_space(input, runs@, r + 1, RenderSpaceId(s2)) == 0 by {
                    assert(s2 != space);
                    assert(RenderSpaceId(s2) != RenderSpaceId(space));
                }
            }
            let mut i = start;
            while i < end
                invariant
                    start <= i <= end <= draws@.len(),
                    r < runs@.len(),
                    runs@[r as int].start == start,
                    runs@[r as int].end == end,
                    start < input.len(),
                    ordinal == run_ordinal(input, runs@, r as int),
                    draws@.len() == input.len(),
                    forall|j: int| 0 <= j < input.len() ==> (#[trigger] draws@[j]) == (FramePreparedDraw { renderer_ordinal: draws@[j].renderer_ordinal, ..input[j] }),
                    forall|j: int| 0 <= j < input.len() ==> {
                        let k = if start <= j < i { r as int } else { last_covering_run(runs@, r as int, j) };
                        (#[trigger] draws@[j]).renderer_ordinal == (if k >= 0 { run_ordinal(input, runs@, k) as usize } else { input[j].renderer_ordinal })
                    },
                decreases end - i,
            {
                let mut d = draws[i];
                d.renderer_ordinal = ordinal;
                draws.set(i, d);
                i += 1;
            }
        } else {
            proof {
                assert forall|s2: i32| #[trigger] counter_map_contents(next_by_space).contains_key(s2)
                    implies counter_map_contents(next_by_space)[s2] == runs_before_in_space(input, runs@, r + 1, RenderSpaceId(s2)) - 1 by {
                }
                assert forall|i: int| 0 <= i < input.len() implies last_covering_run(runs@, r + 1, i) == last_covering_run(runs@, r as int, i) by {
                }
            }
        }
        r += 1;
    }
}

/// Runs before `k` in a space never outnumber the runs before `k`.
proof fn lemma_runs_before_bounded(draws: Seq<FramePreparedDraw>, runs: Seq<FramePreparedRun>, k: int, space: RenderSpaceId)
    requires
        k >= 0,
    ensures
        runs_before_in_space(draws, runs, k, space) <= k,
    decreases k,
{
    if k > 0 {
        lemma_runs_before_bounded(draws, runs, k - 1, space);
    }
}

} // verus!
