//! Phase-binned arrangement of one view's flattened draw list: nontransparent draws are grouped
//! into bins that keep same-material packets contiguous in pass order, and the post-skybox bins
//! are merged with the strictly ordered (transparent) draws.
use vstd::prelude::*;
use vstd::relations::{sorted_by, total_ordering};
use vstd::seq_lib::lemma_sorted_unique;

use crate::arrange_order::{is_permutation_order, materialize_arranged_draw_order, WorldMeshDrawArrangementOrder};
use crate::collections::{surface_count_map_contents, SurfaceCountMap};
use crate::material_slots::{MaterialStackOrder, WorldMeshDrawArrangementStats};
use crate::shared::{MeshRendererInstanceId, RenderSpaceId};

verus! {

/// Render phase a draw's material batch is classified into.
#[derive(Clone, Copy, Debug, PartialEq, Eq, Structural, Hash)]
pub enum WorldMeshPhase {
    /// Forward opaque pass.
    ForwardOpaque,
    /// Forward alpha-tested pass.
    ForwardAlphaTest,
    /// Intersection pass.
    Intersection,
    /// Transparent pass.
    Transparent,
    /// Transparent pass that samples the scene color grab.
    TransparentGrab,
    /// Depth-only pass.
    DepthOnly,
    /// View-normals pass.
    ViewNormals,
}

/// Stable rank used to flatten nontransparent phases in pass order.
pub open spec fn spec_phase_flatten_rank(phase: WorldMeshPhase) -> u8 {
    match phase {
        WorldMeshPhase::ForwardOpaque => 0,
        WorldMeshPhase::ForwardAlphaTest => 1,
        WorldMeshPhase::Intersection => 2,
        WorldMeshPhase::Transparent => 3,
        WorldMeshPhase::TransparentGrab => 4,
        WorldMeshPhase::DepthOnly => 5,
        WorldMeshPhase::ViewNormals => 6,
    }
}

/// Returns the stable pass-order rank of `phase`.
pub fn phase_flatten_rank(phase: WorldMeshPhase) -> (r: u8)
    ensures
        r == spec_phase_flatten_rank(phase),
{
    match phase {
        WorldMeshPhase::ForwardOpaque => 0,
        WorldMeshPhase::ForwardAlphaTest => 1,
        WorldMeshPhase::Intersection => 2,
        WorldMeshPhase::Transparent => 3,
        WorldMeshPhase::TransparentGrab => 4,
        WorldMeshPhase::DepthOnly => 5,
        WorldMeshPhase::ViewNormals => 6,
    }
}

/// Rank at which post-skybox work starts: the transparent phase's rank.
pub open spec fn spec_post_skybox_rank() -> u8 {
    spec_phase_flatten_rank(WorldMeshPhase::Transparent)
}

/// Returns the rank at which post-skybox work starts.
pub fn post_skybox_rank() -> (r: u8)
    ensures
        r == spec_post_skybox_rank(),
{
    phase_flatten_rank(WorldMeshPhase::Transparent)
}

/// What the arrangement reads of one flattened draw item: its batch classification and compact
/// batch id, and the identity fields that key nontransparent bins and surface stacks.
#[derive(Clone, Copy, Debug, PartialEq, Eq, Structural)]
pub struct ArrangeDrawFacts {
    /// Whether the batch keeps strict (transparent) ordering instead of binning.
    pub strict_order: bool,
    /// Primary render phase of the batch.
    pub phase: WorldMeshPhase,
    /// Whether the batch uses transparent back-to-front sorting.
    pub uses_transparent_sorting: bool,
    /// Compact material and pipeline batch id of the draw.
    pub batch_id: u32,
    /// Whether the draw is on the overlay layer.
    pub is_overlay: bool,
    /// Effective render queue of the batch.
    pub render_queue: i32,
    /// Host sorting order of the renderer.
    pub sorting_order: i32,
    /// Host render space.
    pub space_id: RenderSpaceId,
    /// Whether the renderer sits in the skinned table.
    pub skinned: bool,
    /// Scene node id.
    pub node_id: i32,
    /// Resident mesh asset id.
    pub mesh_asset_id: i32,
    /// First index of the submesh range.
    pub first_index: u32,
    /// Index count of the submesh range.
    pub index_count: u32,
    /// Dense renderer index inside its table.
    pub renderable_index: usize,
    /// Renderer-local stable identity.
    pub instance_id: MeshRendererInstanceId,
    /// Material slot index.
    pub slot_index: usize,
    /// Material-stack marker when the slot reuses the final submesh.
    pub material_stack_order: Option<MaterialStackOrder>,
}

/// Two draws are layers of one material stack: both carry the same stack marker and they draw
/// the same submesh range of the same renderer.
pub open spec fn spec_same_material_stack(a: ArrangeDrawFacts, b: ArrangeDrawFacts) -> bool {
    &&& a.material_stack_order is Some
    &&& b.material_stack_order is Some
    &&& a.material_stack_order == b.material_stack_order
    &&& a.space_id == b.space_id
    &&& a.skinned == b.skinned
    &&& a.renderable_index == b.renderable_index
    &&& a.instance_id == b.instance_id
    &&& a.mesh_asset_id == b.mesh_asset_id
    &&& a.first_index == b.first_index
    &&& a.index_count == b.index_count
}

/// Returns whether two draws are layers of the same material stack.
pub fn same_material_stack(a: &ArrangeDrawFacts, b: &ArrangeDrawFacts) -> (r: bool)
    ensures
        r == spec_same_material_stack(*a, *b),
{
    match (a.material_stack_order, b.material_stack_order) {
        (Some(a_stack), Some(b_stack)) => {
            a_stack.first_stacked_slot_index == b_stack.first_stacked_slot_index
                && a.space_id.0 == b.space_id.0
                && a.skinned == b.skinned
                && a.renderable_index == b.renderable_index
                && a.instance_id.0 == b.instance_id.0
                && a.mesh_asset_id == b.mesh_asset_id
                && a.first_index == b.first_index
                && a.index_count == b.index_count
        },
        _ => false,
    }
}

/// Lexicographic strict order on integer sequences (a proper prefix is not below).
pub open spec fn lex_lt(a: Seq<int>, b: Seq<int>) -> bool
    decreases a.len(),
{
    if a.len() == 0 || b.len() == 0 {
        false
    } else if a[0] < b[0] {
        true
    } else if a[0] > b[0] {
        false
    } else {
        lex_lt(a.drop_first(), b.drop_first())
    }
}

/// `lex_lt` is irreflexive and asymmetric.
pub proof fn lemma_lex_lt_asymmetric(a: Seq<int>, b: Seq<int>)
    ensures
        !lex_lt(a, a),
        lex_lt(a, b) ==> !lex_lt(b, a),
    decreases a.len(),
{
    if a.len() > 0 {
        lemma_lex_lt_asymmetric(a.drop_first(), a.drop_first());
        if b.len() > 0 {
            lemma_lex_lt_asymmetric(a.drop_first(), b.drop_first());
        }
    }
}

/// `lex_lt` is transitive.
pub proof fn lemma_lex_lt_transitive(a: Seq<int>, b: Seq<int>, c: Seq<int>)
    requires
        lex_lt(a, b),
        lex_lt(b, c),
    ensures
        lex_lt(a, c),
    decreases a.len(),
{
    if a[0] == b[0] && b[0] == c[0] {
        lemma_lex_lt_transitive(a.drop_first(), b.drop_first(), c.drop_first());
    }
}

/// Two different sequences of one length are ordered one way or the other.
pub proof fn lemma_lex_lt_total(a: Seq<int>, b: Seq<int>)
    requires
        a.len() == b.len(),
    ensures
        a == b || lex_lt(a, b) || lex_lt(b, a),
    decreases a.len(),
{
    if a.len() > 0 && a[0] == b[0] {
        lemma_lex_lt_total(a.drop_first(), b.drop_first());
        if a.drop_first() == b.drop_first() {
            assert(a =~= b) by {
                assert forall|i: int| 0 <= i < a.len() implies a[i] == b[i] by {
                    if i > 0 {
                        assert(a[i] == a.drop_first()[i - 1]);
                        assert(b[i] == b.drop_first()[i - 1]);
                    }
                }
            }
        }
    } else if a.len() == 0 {
        assert(a =~= b);
    }
}

/// Integer of a boolean: `false` is 0 and `true` is 1, which orders `false` first.
pub open spec fn bool_int(b: bool) -> int {
    if b { 1 } else { 0 }
}

/// Sort row of one nontransparent draw: `(overlay, phase rank, render queue, has stack)`, the
/// stack's surface `(sorting order, space, skinned, node, mesh, first index, index count)` and
/// renderer `(renderable index, instance id, first stacked slot, slot)` (zero without a stack),
/// the packet `(batch id, mesh, first index, index count)`, and the source index.
pub type BinRow = ((bool, u8, i32, bool), (i32, i32, bool, i32, i32, u32, u32), (usize, u64, usize, usize), (u32, i32, u32, u32), usize);

/// The fields of a row in comparison order.
pub open spec fn row_ints(r: BinRow) -> Seq<int> {
    seq![
        bool_int(r.0.0), r.0.1 as int, r.0.2 as int, bool_int(r.0.3),
        r.1.0 as int, r.1.1 as int, bool_int(r.1.2), r.1.3 as int, r.1.4 as int, r.1.5 as int, r.1.6 as int,
        r.2.0 as int, r.2.1 as int, r.2.2 as int, r.2.3 as int,
        r.3.0 as int, r.3.1 as int, r.3.2 as int, r.3.3 as int,
        r.4 as int,
    ]
}

/// Rows compare field by field in the order of their tuple layout.
pub open spec fn row_le(a: BinRow, b: BinRow) -> bool {
    lex_lt(row_ints(a), row_ints(b)) || row_ints(a) == row_ints(b)
}

/// The row order as a relation.
pub open spec fn row_leq() -> spec_fn(BinRow, BinRow) -> bool {
    |a: BinRow, b: BinRow| row_le(a, b)
}

/// Rows with the same fields are the same row.
proof fn lemma_row_ints_injective(a: BinRow, b: BinRow)
    requires
        row_ints(a) == row_ints(b),
    ensures
        a == b,
{
    let x = row_ints(a);
    let y = row_ints(b);
    assert(x[0] == y[0] && x[1] == y[1] && x[2] == y[2] && x[3] == y[3]);
    assert(x[4] == y[4] && x[5] == y[5] && x[6] == y[6] && x[7] == y[7] && x[8] == y[8] && x[9] == y[9] && x[10] == y[10]);
    assert(x[11] == y[11] && x[12] == y[12] && x[13] == y[13] && x[14] == y[14]);
    assert(x[15] == y[15] && x[16] == y[16] && x[17] == y[17] && x[18] == y[18] && x[19] == y[19]);
    assert(a.0 == b.0);
    assert(a.1 == b.1);
    assert(a.2 == b.2);
    assert(a.3 == b.3);
}

/// The row order is a total order.
pub proof fn lemma_row_leq_total_ordering()
    ensures
        total_ordering(row_leq()),
{
    let r = row_leq();
    assert forall|x: BinRow| #[trigger] r(x, x) by {}
    assert forall|x: BinRow, y: BinRow| #[trigger] r(x, y) && #[trigger] r(y, x) implies x == y by {
        lemma_lex_lt_asymmetric(row_ints(x), row_ints(y));
        if row_ints(x) == row_ints(y) {
            lemma_row_ints_injective(x, y);
        } else if row_ints(y) == row_ints(x) {
            lemma_row_ints_injective(y, x);
        }
    }
    assert forall|x: BinRow, y: BinRow, z: BinRow| #[trigger] r(x, y) && #[trigger] r(y, z) implies r(x, z) by {
        if lex_lt(row_ints(x), row_ints(y)) && lex_lt(row_ints(y), row_ints(z)) {
            lemma_lex_lt_transitive(row_ints(x), row_ints(y), row_ints(z));
        }
    }
    assert forall|x: BinRow, y: BinRow| #[trigger] r(x, y) || #[trigger] r(y, x) by {
        lemma_lex_lt_total(row_ints(x), row_ints(y));
    }
}

/// Surface identity of a nontransparent draw, used to find equal-depth renderer stacks:
/// `(overlay, phase rank, render queue, sorting order, space, skinned, node, mesh, first index,
/// index count)`.
pub type SurfaceKey = (bool, u8, i32, i32, i32, bool, i32, i32, u32, u32);

/// Surface identity of one draw.
pub open spec fn surface_key(f: ArrangeDrawFacts) -> SurfaceKey {
    (
        f.is_overlay,
        spec_phase_flatten_rank(f.phase),
        f.render_queue,
        f.sorting_order,
        f.space_id.0,
        f.skinned,
        f.node_id,
        f.mesh_asset_id,
        f.first_index,
        f.index_count,
    )
}

/// Number of nontransparent draws among `items[0..k)` whose surface is `key`.
pub open spec fn surface_count(items: Seq<ArrangeDrawFacts>, key: SurfaceKey, k: int) -> nat
    decreases k,
{
    if k <= 0 {
        0
    } else {
        surface_count(items, key, k - 1) + if !items[k - 1].strict_order && surface_key(items[k - 1]) == key { 1nat } else { 0nat }
    }
}

/// A count over a prefix is at most the prefix length.
proof fn lemma_surface_count_bound(items: Seq<ArrangeDrawFacts>, key: SurfaceKey, k: int)
    requires
        0 <= k,
    ensures
        surface_count(items, key, k) <= k,
    decreases k,
{
    if k > 0 {
        lemma_surface_count_bound(items, key, k - 1);
    }
}

/// Whether draw `i`'s equal-depth layer order is visible: it is part of a material stack, or
/// other nontransparent draws share its surface.
pub open spec fn has_stack(items: Seq<ArrangeDrawFacts>, i: int) -> bool {
    items[i].material_stack_order is Some || surface_count(items, surface_key(items[i]), items.len() as int) > 1
}

/// First material slot of a draw's stack: the marker's slot, else the draw's own slot.
pub open spec fn first_stacked_slot(f: ArrangeDrawFacts) -> usize {
    match f.material_stack_order {
        Some(o) => o.first_stacked_slot_index,
        None => f.slot_index,
    }
}

/// Sort row of nontransparent draw `i`.
pub open spec fn bin_row(items: Seq<ArrangeDrawFacts>, i: int) -> BinRow {
    let f = items[i];
    let st = has_stack(items, i);
    (
        (f.is_overlay, spec_phase_flatten_rank(f.phase), f.render_queue, st),
        if st {
            (f.sorting_order, f.space_id.0, f.skinned, f.node_id, f.mesh_asset_id, f.first_index, f.index_count)
        } else {
            (0i32, 0i32, false, 0i32, 0i32, 0u32, 0u32)
        },
        if st {
            (f.renderable_index, f.instance_id.0, first_stacked_slot(f), f.slot_index)
        } else {
            (0usize, 0u64, 0usize, 0usize)
        },
        (f.batch_id, f.mesh_asset_id, f.first_index, f.index_count),
        i as usize,
    )
}

/// Sort rows of the nontransparent draws among `items[0..k)`, in source order.
pub open spec fn built_rows(items: Seq<ArrangeDrawFacts>, k: int) -> Seq<BinRow>
    decreases k,
{
    if k <= 0 {
        Seq::empty()
    } else if items[k - 1].strict_order {
        built_rows(items, k - 1)
    } else {
        built_rows(items, k - 1).push(bin_row(items, k - 1))
    }
}

/// Surface identity of one draw.
fn surface_key_of(f: &ArrangeDrawFacts) -> (k: SurfaceKey)
    ensures
        k == surface_key(*f),
{
    (
        f.is_overlay,
        phase_flatten_rank(f.phase),
        f.render_queue,
        f.sorting_order,
        f.space_id.0,
        f.skinned,
        f.node_id,
        f.mesh_asset_id,
        f.first_index,
        f.index_count,
    )
}

/// The counters of `counts` are the surface counts of `items[0..k)`.
pub open spec fn counts_match(counts: SurfaceCountMap, items: Seq<ArrangeDrawFacts>, k: int) -> bool {
    forall|key: SurfaceKey| #[trigger] surface_count_map_contents(counts).contains_key(key) == (surface_count(items, key, k) > 0)
        && (surface_count_map_contents(counts).contains_key(key) ==> surface_count_map_contents(counts)[key] == surface_count(items, key, k))
}

/// Counts the nontransparent draws of each surface.
pub fn collect_surface_stack_counts(items: &[ArrangeDrawFacts]) -> (counts: SurfaceCountMap)
    ensures
        counts_match(counts, items@, items@.len() as int),
{
    let mut counts = SurfaceCountMap::new();
    let mut i: usize = 0;
    while i < items.len()
        invariant
            i <= items@.len(),
            counts_match(counts, items@, i as int),
        decreases items@.len() - i,
    {
        let item = &items[i];
        if !item.strict_order {
            let key = surface_key_of(item);
            proof {
                lemma_surface_count_bound(items@, key, i as int);
            }
            let next = match counts.get(key) {
                Some(count) => count.saturating_add(1),
                None => 1,
            };
            let ghost before = counts;
            counts.set(key, next);
            proof {
                assert forall|k: SurfaceKey| #[trigger] surface_count_map_contents(counts).contains_key(k) == (surface_count(items@, k, i + 1) > 0)
                    && (surface_count_map_contents(counts).contains_key(k) ==> surface_count_map_contents(counts)[k] == surface_count(items@, k, i + 1)) by {
                    assert(surface_count_map_contents(before).contains_key(k) == (surface_count(items@, k, i as int) > 0));
                }
            }
        } else {
            proof {
                assert forall|k: SurfaceKey| #[trigger] surface_count_map_contents(counts).contains_key(k) == (surface_count(items@, k, i + 1) > 0)
                    && (surface_count_map_contents(counts).contains_key(k) ==> surface_count_map_contents(counts)[k] == surface_count(items@, k, i + 1)) by {
                    assert(surface_count(items@, k, i + 1) == surface_count(items@, k, i as int));
                }
            }
        }
        i += 1;
    }
    counts
}

/// Number of batch-identity changes among the first `k + 1` entries of the identity-sorted draw
/// order (`starts_batch[j]` says that entry `j` differs from entry `j - 1`; entry 0 opens the
/// first batch).
pub open spec fn batch_changes(starts_batch: Seq<bool>, k: int) -> nat
    decreases k,
{
    if k <= 0 {
        0
    } else {
        batch_changes(starts_batch, k - 1) + if starts_batch[k] { 1nat } else { 0nat }
    }
}

/// Compact batch id of the `k`-th draw in identity-sorted order; ids saturate at `u32::MAX`.
pub open spec fn spec_batch_id(starts_batch: Seq<bool>, k: int) -> u32 {
    if batch_changes(starts_batch, k) >= u32::MAX {
        u32::MAX
    } else {
        batch_changes(starts_batch, k) as u32
    }
}

/// Assigns compact batch ids from the draws sorted by material batch identity: consecutive
/// draws of one identity share an id, and each change of identity opens the next id.
pub fn build_batch_ids(sorted_indices: &[usize], starts_batch: &[bool]) -> (ids: Vec<u32>)
    requires
        starts_batch@.len() == sorted_indices@.len(),
        is_permutation_order(sorted_indices@, sorted_indices@.len() as int),
    ensures
        ids@.len() == sorted_indices@.len(),
        forall|k: int| 0 <= k < sorted_indices@.len() ==> #[trigger] ids@[sorted_indices@[k] as int] == spec_batch_id(starts_batch@, k),
{
    let n = sorted_indices.len();
    let mut ids: Vec<u32> = Vec::new();
    let mut i: usize = 0;
    while i < n
        invariant
            i <= n,
            n == sorted_indices@.len(),
            ids@.len() == i,
        decreases n - i,
    {
        ids.push(u32::MAX);
        i += 1;
    }
    let mut batch_id: u32 = 0;
    let mut k: usize = 0;
    while k < n
        invariant
            k <= n,
            n == sorted_indices@.len(),
            starts_batch@.len() == n,
            is_permutation_order(sorted_indices@, n as int),
            ids@.len() == n,
            batch_id == spec_batch_id(starts_batch@, k - 1),
            forall|j: int| 0 <= j < k ==> #[trigger] ids@[sorted_indices@[j] as int] == spec_batch_id(starts_batch@, j),
        decreases n - k,
    {
        if k > 0 && starts_batch[k] {
            batch_id = batch_id.saturating_add(1);
        }
        let index = sorted_indices[k];
        let ghost before = ids@;
        ids.set(index, batch_id);
        proof {
            assert forall|j: int| 0 <= j < k + 1 implies #[trigger] ids@[sorted_indices@[j] as int] == spec_batch_id(starts_batch@, j) by {
                if j < k {
                    assert(sorted_indices@[j] != sorted_indices@[k as int]);
                    assert(ids@[sorted_indices@[j] as int] == before[sorted_indices@[j] as int]);
                }
            }
        }
        k += 1;
    }
    ids
}

/// Builds the sort row of one nontransparent draw.
fn build_bin_row(items: &[ArrangeDrawFacts], counts: &SurfaceCountMap, i: usize) -> (r: BinRow)
    requires
        i < items@.len(),
        counts_match(*counts, items@, items@.len() as int),
    ensures
        r == bin_row(items@, i as int),
{
    let f = &items[i];
    let surface = surface_key_of(f);
    let stacked_surface = match counts.get(surface) {
        Some(count) => count > 1,
        None => false,
    };
    let stacked = f.material_stack_order.is_some() || stacked_surface;
    let first_stacked = match f.material_stack_order {
        Some(order) => order.first_stacked_slot_index,
        None => f.slot_index,
    };
    let surface_part = if stacked {
        (f.sorting_order, f.space_id.0, f.skinned, f.node_id, f.mesh_asset_id, f.first_index, f.index_count)
    } else {
        (0i32, 0i32, false, 0i32, 0i32, 0u32, 0u32)
    };
    let renderer_part = if stacked {
        (f.renderable_index, f.instance_id.0, first_stacked, f.slot_index)
    } else {
        (0usize, 0u64, 0usize, 0usize)
    };
    (
        (f.is_overlay, phase_flatten_rank(f.phase), f.render_queue, stacked),
        surface_part,
        renderer_part,
        (f.batch_id, f.mesh_asset_id, f.first_index, f.index_count),
        i,
    )
}

/// Builds the sort rows of the nontransparent draws, in source order.
pub fn build_arrangement_rows(items: &[ArrangeDrawFacts], counts: &SurfaceCountMap) -> (rows: Vec<BinRow>)
    requires
        counts_match(*counts, items@, items@.len() as int),
    ensures
        rows@ == built_rows(items@, items@.len() as int),
{
    let mut rows: Vec<BinRow> = Vec::new();
    let mut i: usize = 0;
    while i < items.len()
        invariant
            i <= items@.len(),
            counts_match(*counts, items@, items@.len() as int),
            rows@ == built_rows(items@, i as int),
        decreases items@.len() - i,
    {
        if !items[i].strict_order {
            let row = build_bin_row(items, counts, i);
            rows.push(row);
        }
        i += 1;
    }
    rows
}

/// Sort rows of the nontransparent draws in bin order.
pub open spec fn sorted_rows(items: Seq<ArrangeDrawFacts>) -> Seq<BinRow> {
    built_rows(items, items.len() as int).sort_by(row_leq())
}

/// `<[T]>::sort_unstable` on bin rows. Tuples compare lexicographically, field by field, and
/// `false` comes before `true`; the contract claims what the documentation states: the result
/// holds the same rows, in ascending order.
#[verifier::external_body]
fn sort_bin_rows(rows: &mut Vec<BinRow>)
    ensures
        final(rows)@.to_multiset() == old(rows)@.to_multiset(),
        sorted_by(final(rows)@, row_leq()),
{
    rows.sort_unstable();
}

/// Sorts the rows into bin order.
fn sort_nontransparent_rows(rows: &mut Vec<BinRow>)
    ensures
        final(rows)@ == old(rows)@.sort_by(row_leq()),
{
    let ghost before = rows@;
    sort_bin_rows(rows);
    proof {
        lemma_row_leq_total_ordering();
        before.lemma_sort_by_ensures(row_leq());
        lemma_sorted_unique(rows@, before.sort_by(row_leq()), row_leq());
    }
}

/// Whether two rows belong to one bin: every field but the source index agrees.
pub open spec fn same_bin(a: BinRow, b: BinRow) -> bool {
    a.0 == b.0 && a.1 == b.1 && a.2 == b.2 && a.3 == b.3
}

/// Returns whether two rows belong to one bin.
fn same_bin_rows(a: &BinRow, b: &BinRow) -> (r: bool)
    ensures
        r == same_bin(*a, *b),
{
    a.0.0 == b.0.0 && a.0.1 == b.0.1 && a.0.2 == b.0.2 && a.0.3 == b.0.3
        && a.1.0 == b.1.0 && a.1.1 == b.1.1 && a.1.2 == b.1.2 && a.1.3 == b.1.3 && a.1.4 == b.1.4
        && a.1.5 == b.1.5 && a.1.6 == b.1.6
        && a.2.0 == b.2.0 && a.2.1 == b.2.1 && a.2.2 == b.2.2 && a.2.3 == b.2.3
        && a.3.0 == b.3.0 && a.3.1 == b.3.1 && a.3.2 == b.3.2 && a.3.3 == b.3.3
}

/// Whether a row's phase draws before the skybox.
pub open spec fn is_pre_skybox(r: BinRow) -> bool {
    r.0.1 < spec_post_skybox_rank()
}

/// Source indices of the pre-skybox rows among `rows[0..k)`, in order.
pub open spec fn pre_skybox_sources(rows: Seq<BinRow>, k: int) -> Seq<usize>
    decreases k,
{
    if k <= 0 {
        Seq::empty()
    } else if is_pre_skybox(rows[k - 1]) {
        pre_skybox_sources(rows, k - 1).push(rows[k - 1].4)
    } else {
        pre_skybox_sources(rows, k - 1)
    }
}

/// Post-skybox rows among `rows[0..k)`, in order.
pub open spec fn post_skybox_rows(rows: Seq<BinRow>, k: int) -> Seq<BinRow>
    decreases k,
{
    if k <= 0 {
        Seq::empty()
    } else if is_pre_skybox(rows[k - 1]) {
        post_skybox_rows(rows, k - 1)
    } else {
        post_skybox_rows(rows, k - 1).push(rows[k - 1])
    }
}

/// Number of bins that start among `rows[0..k)`: a row starts a bin when it is first or its
/// predecessor belongs to another bin.
pub open spec fn bin_count(rows: Seq<BinRow>, k: int) -> nat
    decreases k,
{
    if k <= 0 {
        0
    } else {
        bin_count(rows, k - 1) + if k - 1 == 0 || !same_bin(rows[k - 2], rows[k - 1]) { 1nat } else { 0nat }
    }
}

/// `bins` cuts `tail` into consecutive non-empty ranges whose rows share their first row's bin.
pub open spec fn bins_partition(tail: Seq<BinRow>, bins: Seq<(usize, usize)>) -> bool {
    &&& forall|b: int| 0 <= b < bins.len() ==> (#[trigger] bins[b]).0 < bins[b].1 <= tail.len()
    &&& bins.len() == 0 ==> tail.len() == 0
    &&& bins.len() > 0 ==> bins[0].0 == 0 && bins[bins.len() - 1].1 == tail.len()
    &&& forall|b: int| 0 <= b < bins.len() - 1 ==> (#[trigger] bins[b]).1 == bins[b + 1].0
    &&& forall|b: int, k: int| #![trigger bins[b], tail[k]]
        0 <= b < bins.len() && bins[b].0 <= k < bins[b].1 ==> same_bin(tail[k], tail[bins[b].0 as int])
}

/// Walks the sorted rows bin by bin: appends the source indices of pre-skybox bins to
/// `indices`, and returns the bin count, the post-skybox rows in order and their bin ranges.
fn append_pre_skybox_bins_and_collect_tail(rows: &[BinRow], indices: &mut Vec<usize>) -> (r: (usize, Vec<BinRow>, Vec<(usize, usize)>))
    ensures
        final(indices)@ == old(indices)@ + pre_skybox_sources(rows@, rows@.len() as int),
        r.0 == bin_count(rows@, rows@.len() as int),
        r.1@ == post_skybox_rows(rows@, rows@.len() as int),
        bins_partition(r.1@, r.2@),
{
    let ghost base = indices@;
    let n = rows.len();
    let mut tail: Vec<BinRow> = Vec::new();
    let mut tail_bins: Vec<(usize, usize)> = Vec::new();
    let mut bins: usize = 0;
    let mut start: usize = 0;
    while start < n
        invariant
            start <= n,
            n == rows@.len(),
            indices@ == base + pre_skybox_sources(rows@, start as int),
            tail@ == post_skybox_rows(rows@, start as int),
            bins == bin_count(rows@, start as int),
            bins <= start,
            bins_partition(tail@, tail_bins@),
            0 < start < n ==> !same_bin(rows@[start - 1], rows@[start as int]),
        decreases n - start,
    {
        let key = rows[start];
        let mut end = start + 1;
        while end < n && same_bin_rows(&rows[end], &key)
            invariant
                start < end <= n,
                n == rows@.len(),
                key == rows@[start as int],
                forall|k: int| start <= k < end ==> same_bin(#[trigger] rows@[k], key),
            decreases n - end,
        {
            end += 1;
        }
        bins += 1;
        if key.0.1 < post_skybox_rank() {
            let mut j = start;
            while j < end
                invariant
                    start <= j <= end <= n,
                    n == rows@.len(),
                    key == rows@[start as int],
                    is_pre_skybox(key),
                    forall|k: int| start <= k < end ==> same_bin(#[trigger] rows@[k], key),
                    0 < start ==> !same_bin(rows@[start - 1], rows@[start as int]),
                    indices@ == base + pre_skybox_sources(rows@, j as int),
                    tail@ == post_skybox_rows(rows@, j as int),
                    bins == bin_count(rows@, j as int) + (if j == start { 1int } else { 0int }),
                decreases end - j,
            {
                proof {
                    assert(same_bin(rows@[j as int], key));
                    if j > start {
                        assert(same_bin(rows@[j - 1], key));
                    }
                }
                indices.push(rows[j].4);
                j += 1;
            }
        } else {
            let first = tail.len();
            let ghost bins_before = tail_bins@;
            let mut j = start;
            while j < end
                invariant
                    start <= j <= end <= n,
                    n == rows@.len(),
                    key == rows@[start as int],
                    !is_pre_skybox(key),
                    forall|k: int| start <= k < end ==> same_bin(#[trigger] rows@[k], key),
                    0 < start ==> !same_bin(rows@[start - 1], rows@[start as int]),
                    indices@ == base + pre_skybox_sources(rows@, j as int),
                    tail@ == post_skybox_rows(rows@, j as int),
                    tail@.len() == first + (j - start),
                    forall|k: int| start <= k < j ==> tail@[first + (k - start)] == #[trigger] rows@[k],
                    bins_partition(tail@.subrange(0, first as int), bins_before),
                    tail_bins@ == bins_before,
                    bins == bin_count(rows@, j as int) + (if j == start { 1int } else { 0int }),
                decreases end - j,
            {
                proof {
                    assert(same_bin(rows@[j as int], key));
                    if j > start {
                        assert(same_bin(rows@[j - 1], key));
                    }
                }
                let ghost before = tail@;
                tail.push(rows[j]);
                proof {
                    assert(tail@.subrange(0, first as int) =~= before.subrange(0, first as int));
                }
                j += 1;
            }
            proof {
                let old_tail = tail@.subrange(0, first as int);
                assert forall|b: int, k: int| #![trigger bins_before[b], tail@[k]]
                    0 <= b < bins_before.len() && bins_before[b].0 <= k < bins_before[b].1 implies same_bin(tail@[k], tail@[bins_before[b].0 as int]) by {
                    assert(old_tail[k] == tail@[k]);
                    assert(old_tail[bins_before[b].0 as int] == tail@[bins_before[b].0 as int]);
                    assert(same_bin(old_tail[k], old_tail[bins_before[b].0 as int]));
                }
                assert(tail@[first as int] == rows@[start as int]);
            }
            tail_bins.push((first, tail.len()));
            proof {
                let bs = tail_bins@;
                assert(bs[bs.len() - 1].0 == first && bs[bs.len() - 1].1 == tail@.len());
                assert forall|b: int| 0 <= b < bs.len() implies (#[trigger] bs[b]).0 < bs[b].1 <= tail@.len() by {
                    if b < bins_before.len() {
                        assert(bs[b] == bins_before[b]);
                    }
                }
                assert forall|b: int| 0 <= b < bs.len() - 1 implies (#[trigger] bs[b]).1 == bs[b + 1].0 by {
                    assert(bs[b] == bins_before[b]);
                    if b + 1 < bins_before.len() {
                        assert(bs[b + 1] == bins_before[b + 1]);
                    }
                }
                assert forall|b: int, k: int| #![trigger bs[b], tail@[k]]
                    0 <= b < bs.len() && bs[b].0 <= k < bs[b].1 implies same_bin(tail@[k], tail@[bs[b].0 as int]) by {
                    if b < bins_before.len() {
                        assert(bs[b] == bins_before[b]);
                        assert(bins_before[b] == bs[b]);
                    } else {
                        let kk = start + (k - first);
                        assert(tail@[first + (kk - start)] == rows@[kk]);
                        assert(same_bin(rows@[kk], key));
                    }
                }
                if bins_before.len() > 0 {
                    assert(bs[0] == bins_before[0]);
                }
            }
        }
        start = end;
    }
    (bins, tail, tail_bins)
}

/// Whether a post-skybox bin row goes before an order-sensitive draw: they compare by overlay,
/// render queue, transparent sorting (the bin has none), batch id, mesh, first index and index
/// count, and a tie goes to the bin.
pub open spec fn bin_precedes_strict(r: BinRow, f: ArrangeDrawFacts) -> bool {
    if r.0.0 != f.is_overlay {
        !r.0.0
    } else if r.0.2 != f.render_queue {
        r.0.2 < f.render_queue
    } else if f.uses_transparent_sorting {
        true
    } else if r.3.0 != f.batch_id {
        r.3.0 < f.batch_id
    } else if r.3.1 != f.mesh_asset_id {
        r.3.1 < f.mesh_asset_id
    } else if r.3.2 != f.first_index {
        r.3.2 < f.first_index
    } else {
        r.3.3 <= f.index_count
    }
}

/// Returns whether a post-skybox bin row goes before an order-sensitive draw.
fn bin_precedes_strict_draw(r: &BinRow, f: &ArrangeDrawFacts) -> (b: bool)
    ensures
        b == bin_precedes_strict(*r, *f),
{
    if r.0.0 != f.is_overlay {
        !r.0.0
    } else if r.0.2 != f.render_queue {
        r.0.2 < f.render_queue
    } else if f.uses_transparent_sorting {
        true
    } else if r.3.0 != f.batch_id {
        r.3.0 < f.batch_id
    } else if r.3.1 != f.mesh_asset_id {
        r.3.1 < f.mesh_asset_id
    } else if r.3.2 != f.first_index {
        r.3.2 < f.first_index
    } else {
        r.3.3 <= f.index_count
    }
}

/// Ordered merge of the post-skybox rows `tail[ti..]` with the order-sensitive draws
/// `strict[si..]`: the next row goes first while it precedes the next order-sensitive draw.
pub open spec fn merged_tail(items: Seq<ArrangeDrawFacts>, tail: Seq<BinRow>, strict: Seq<usize>, ti: int, si: int) -> Seq<usize>
    decreases (tail.len() - ti) + (strict.len() - si),
{
    if ti < 0 || si < 0 || ti > tail.len() || si > strict.len() {
        Seq::empty()
    } else if ti < tail.len() && (si == strict.len() || bin_precedes_strict(tail[ti], items[strict[si] as int])) {
        seq![tail[ti].4] + merged_tail(items, tail, strict, ti + 1, si)
    } else if si < strict.len() {
        seq![strict[si]] + merged_tail(items, tail, strict, ti, si + 1)
    } else {
        Seq::empty()
    }
}

/// Row position where bin `b` starts (the end of the rows after the last bin).
pub open spec fn bin_position(tail: Seq<BinRow>, bins: Seq<(usize, usize)>, b: int) -> int {
    if b < bins.len() { bins[b].0 as int } else { tail.len() as int }
}

/// Appends the post-skybox bins and the order-sensitive draws in their shared queue order: a
/// whole bin goes before the next order-sensitive draw when its first row precedes it.
fn append_post_skybox_tail_indices(
    indices: &mut Vec<usize>,
    tail: &[BinRow],
    tail_bins: &[(usize, usize)],
    strict_order: &[usize],
    items: &[ArrangeDrawFacts],
)
    requires
        bins_partition(tail@, tail_bins@),
        forall|k: int| 0 <= k < strict_order@.len() ==> (#[trigger] strict_order@[k]) < items@.len(),
    ensures
        final(indices)@ == old(indices)@ + merged_tail(items@, tail@, strict_order@, 0, 0),
{
    let ghost base = indices@;
    let ghost total = base + merged_tail(items@, tail@, strict_order@, 0, 0);
    let mut bin_index: usize = 0;
    let mut strict_index: usize = 0;
    proof {
        if tail_bins@.len() > 0 {
            assert(tail_bins@[0].0 == 0);
        }
        assert(bin_position(tail@, tail_bins@, 0) == 0);
    }
    while bin_index < tail_bins.len() || strict_index < strict_order.len()
        invariant
            bins_partition(tail@, tail_bins@),
            forall|k: int| 0 <= k < strict_order@.len() ==> (#[trigger] strict_order@[k]) < items@.len(),
            bin_index <= tail_bins@.len(),
            strict_index <= strict_order@.len(),
            0 <= bin_position(tail@, tail_bins@, bin_index as int) <= tail@.len(),
            indices@ + merged_tail(items@, tail@, strict_order@, bin_position(tail@, tail_bins@, bin_index as int), strict_index as int) == total,
        decreases (tail_bins@.len() - bin_index) + (strict_order@.len() - strict_index),
    {
        let ghost pos = bin_position(tail@, tail_bins@, bin_index as int);
        let has_bin = bin_index < tail_bins.len();
        let has_strict = strict_index < strict_order.len();
        if has_bin {
            assert(tail_bins@[bin_index as int].0 < tail_bins@[bin_index as int].1 <= tail@.len());
        }
        let append_bin = if has_bin && has_strict {
            let (first, _) = tail_bins[bin_index];
            bin_precedes_strict_draw(&tail[first], &items[strict_order[strict_index]])
        } else {
            has_bin
        };
        if append_bin {
            let (start, end) = tail_bins[bin_index];
            let mut j = start;
            while j < end
                invariant
                    start <= j <= end <= tail@.len(),
                    start as int == pos,
                    (start, end) == tail_bins@[bin_index as int],
                    bin_index < tail_bins@.len(),
                    bins_partition(tail@, tail_bins@),
                    strict_index <= strict_order@.len(),
                    strict_index == strict_order@.len()
                        || bin_precedes_strict(tail@[start as int], items@[strict_order@[strict_index as int] as int]),
                    indices@ + merged_tail(items@, tail@, strict_order@, j as int, strict_index as int) == total,
                decreases end - j,
            {
                proof {
                    assert(same_bin(tail@[j as int], tail@[tail_bins@[bin_index as int].0 as int]));
                }
                indices.push(tail[j].4);
                proof {
                    assert(indices@ + merged_tail(items@, tail@, strict_order@, j + 1, strict_index as int) =~= total);
                }
                j += 1;
            }
            proof {
                if bin_index + 1 < tail_bins@.len() {
                    assert(tail_bins@[bin_index as int].1 == tail_bins@[bin_index + 1].0);
                } else {
                    assert(tail_bins@[tail_bins@.len() - 1].1 == tail@.len());
                }
            }
            bin_index += 1;
        } else {
            let ghost before = indices@;
            indices.push(strict_order[strict_index]);
            proof {
                assert(indices@ + merged_tail(items@, tail@, strict_order@, pos, strict_index + 1) =~= total);
            }
            strict_index += 1;
        }
    }
    proof {
        assert(merged_tail(items@, tail@, strict_order@, bin_position(tail@, tail_bins@, bin_index as int), strict_index as int) == Seq::<usize>::empty());
        assert(indices@ =~= total);
    }
}

/// Final draw order: the pre-skybox nontransparent rows in bin order, then the post-skybox rows
/// merged with the order-sensitive draws.
pub open spec fn arranged_indices(items: Seq<ArrangeDrawFacts>, strict: Seq<usize>) -> Seq<usize> {
    let rows = sorted_rows(items);
    pre_skybox_sources(rows, rows.len() as int) + merged_tail(items, post_skybox_rows(rows, rows.len() as int), strict, 0, 0)
}

/// Arrangement counters of a draw list: bins, binned draws and order-sensitive draws.
pub open spec fn arranged_stats(items: Seq<ArrangeDrawFacts>, strict: Seq<usize>) -> WorldMeshDrawArrangementStats {
    let rows = sorted_rows(items);
    WorldMeshDrawArrangementStats {
        nontransparent_bins: bin_count(rows, rows.len() as int) as usize,
        nontransparent_binned_draws: rows.len() as usize,
        strict_sorted_draws: strict.len() as usize,
    }
}

/// Builds the final draw order of a flattened draw list. Nontransparent draws are sorted into
/// bins (overlay last, then pass order, render queue, equal-depth renderer stacks, batch, mesh
/// range, collection order); pre-skybox bins are emitted first, and post-skybox bins are merged
/// with `strict_order`, the order-sensitive draws' indices in their strict comparator order.
pub fn arrange_draw_items_order(items: &[ArrangeDrawFacts], strict_order: &[usize]) -> (r: WorldMeshDrawArrangementOrder)
    requires
        forall|k: int| 0 <= k < strict_order@.len() ==> (#[trigger] strict_order@[k]) < items@.len(),
    ensures
        r.indices@ == arranged_indices(items@, strict_order@),
        r.stats == arranged_stats(items@, strict_order@),
{
    if items.len() == 0 {
        proof {
            let rows = built_rows(items@, 0);
            assert(rows =~= Seq::<BinRow>::empty());
            lemma_row_leq_total_ordering();
            rows.lemma_sort_by_ensures(row_leq());
            vstd::seq_lib::to_multiset_len(rows);
            vstd::seq_lib::to_multiset_len(rows.sort_by(row_leq()));
            assert(rows.sort_by(row_leq()).len() == 0);
            assert(strict_order@.len() == 0) by {
                if strict_order@.len() > 0 {
                    assert(strict_order@[0] < items@.len());
                }
            }
            assert(arranged_indices(items@, strict_order@) =~= Seq::<usize>::empty());
        }
        return WorldMeshDrawArrangementOrder::empty();
    }
    let counts = collect_surface_stack_counts(items);
    let mut rows = build_arrangement_rows(items, &counts);
    sort_nontransparent_rows(&mut rows);
    let mut indices: Vec<usize> = Vec::new();
    let (bins, tail, tail_bins) = append_pre_skybox_bins_and_collect_tail(rows.as_slice(), &mut indices);
    append_post_skybox_tail_indices(&mut indices, tail.as_slice(), tail_bins.as_slice(), strict_order, items);
    proof {
        assert(indices@ =~= arranged_indices(items@, strict_order@));
    }
    WorldMeshDrawArrangementOrder {
        indices,
        stats: WorldMeshDrawArrangementStats {
            nontransparent_bins: bins,
            nontransparent_binned_draws: rows.len(),
            strict_sorted_draws: strict_order.len(),
        },
    }
}

/// Entries of `s` that name order-sensitive draws of `items`, in order.
pub open spec fn strict_entries(items: Seq<ArrangeDrawFacts>, s: Seq<usize>) -> Seq<usize>
    decreases s.len(),
{
    if s.len() == 0 {
        Seq::empty()
    } else {
        let rest = strict_entries(items, s.drop_last());
        if (s.last() as int) < items.len() && items[s.last() as int].strict_order {
            rest.push(s.last())
        } else {
            rest
        }
    }
}

/// Filtering distributes over concatenation.
proof fn lemma_strict_entries_concat(items: Seq<ArrangeDrawFacts>, a: Seq<usize>, b: Seq<usize>)
    ensures
        strict_entries(items, a + b) == strict_entries(items, a) + strict_entries(items, b),
    decreases b.len(),
{
    if b.len() == 0 {
        assert(a + b =~= a);
        assert(strict_entries(items, a) + strict_entries(items, b) =~= strict_entries(items, a));
    } else {
        lemma_strict_entries_concat(items, a, b.drop_last());
        assert((a + b).drop_last() =~= a + b.drop_last());
        assert((a + b).last() == b.last());
        let x = b.last();
        if (x as int) < items.len() && items[x as int].strict_order {
            assert(strict_entries(items, a) + strict_entries(items, b) =~= (strict_entries(items, a) + strict_entries(items, b.drop_last())).push(x));
        }
    }
}

/// Whether `x` names a nontransparent draw of `items`.
pub open spec fn names_binned_draw(items: Seq<ArrangeDrawFacts>, x: usize) -> bool {
    (x as int) < items.len() && !items[x as int].strict_order
}

/// Every built row is the row of its nontransparent source draw.
proof fn lemma_built_rows_sources(items: Seq<ArrangeDrawFacts>, k: int)
    requires
        0 <= k <= items.len(),
        items.len() <= usize::MAX,
    ensures
        forall|j: int| 0 <= j < built_rows(items, k).len() ==> {
            let r = #[trigger] built_rows(items, k)[j];
            &&& (r.4 as int) < k
            &&& names_binned_draw(items, r.4)
            &&& r == bin_row(items, r.4 as int)
        },
    decreases k,
{
    if k > 0 {
        lemma_built_rows_sources(items, k - 1);
        assert forall|j: int| 0 <= j < built_rows(items, k).len() implies {
            let r = #[trigger] built_rows(items, k)[j];
            &&& (r.4 as int) < k
            &&& names_binned_draw(items, r.4)
            &&& r == bin_row(items, r.4 as int)
        } by {
            if j < built_rows(items, k - 1).len() {
                assert(built_rows(items, k)[j] == built_rows(items, k - 1)[j]);
            }
        }
    }
}

/// Every sorted row is the row of its nontransparent source draw.
proof fn lemma_sorted_rows_sources(items: Seq<ArrangeDrawFacts>)
    requires
        items.len() <= usize::MAX,
    ensures
        forall|j: int| 0 <= j < sorted_rows(items).len() ==> {
            let r = #[trigger] sorted_rows(items)[j];
            &&& names_binned_draw(items, r.4)
            &&& r == bin_row(items, r.4 as int)
        },
        sorted_rows(items).len() == built_rows(items, items.len() as int).len(),
        sorted_rows(items).to_multiset() == built_rows(items, items.len() as int).to_multiset(),
{
    let built = built_rows(items, items.len() as int);
    lemma_built_rows_sources(items, items.len() as int);
    lemma_row_leq_total_ordering();
    built.lemma_sort_by_ensures(row_leq());
    vstd::seq_lib::to_multiset_len(built);
    vstd::seq_lib::to_multiset_len(sorted_rows(items));
    assert forall|j: int| 0 <= j < sorted_rows(items).len() implies {
        let r = #[trigger] sorted_rows(items)[j];
        &&& names_binned_draw(items, r.4)
        &&& r == bin_row(items, r.4 as int)
    } by {
        let r = sorted_rows(items)[j];
        vstd::seq_lib::to_multiset_contains(sorted_rows(items), r);
        vstd::seq_lib::to_multiset_contains(built, r);
        assert(sorted_rows(items).contains(r));
        assert(built.contains(r));
        let q = choose|q: int| 0 <= q < built.len() && built[q] == r;
        assert(built[q] == r);
    }
}

/// Pre-skybox sources name nontransparent draws when the rows' sources do.
proof fn lemma_pre_sources_binned(items: Seq<ArrangeDrawFacts>, rows: Seq<BinRow>, k: int)
    requires
        0 <= k <= rows.len(),
        forall|j: int| 0 <= j < rows.len() ==> names_binned_draw(items, (#[trigger] rows[j]).4),
    ensures
        strict_entries(items, pre_skybox_sources(rows, k)) == Seq::<usize>::empty(),
        forall|j: int| 0 <= j < post_skybox_rows(rows, k).len() ==> names_binned_draw(items, (#[trigger] post_skybox_rows(rows, k)[j]).4),
    decreases k,
{
    if k > 0 {
        lemma_pre_sources_binned(items, rows, k - 1);
        assert(names_binned_draw(items, rows[k - 1].4));
        if is_pre_skybox(rows[k - 1]) {
            let p = pre_skybox_sources(rows, k - 1).push(rows[k - 1].4);
            assert(p.drop_last() =~= pre_skybox_sources(rows, k - 1));
        } else {
            assert forall|j: int| 0 <= j < post_skybox_rows(rows, k).len() implies names_binned_draw(items, (#[trigger] post_skybox_rows(rows, k)[j]).4) by {
                if j < post_skybox_rows(rows, k - 1).len() {
                    assert(post_skybox_rows(rows, k)[j] == post_skybox_rows(rows, k - 1)[j]);
                }
            }
        }
    }
}

/// The merge passes the order-sensitive draws through in their given order.
proof fn lemma_merged_tail_strict_entries(items: Seq<ArrangeDrawFacts>, tail: Seq<BinRow>, strict: Seq<usize>, ti: int, si: int)
    requires
        0 <= ti <= tail.len(),
        0 <= si <= strict.len(),
        forall|j: int| 0 <= j < tail.len() ==> names_binned_draw(items, (#[trigger] tail[j]).4),
        forall|j: int| 0 <= j < strict.len() ==> (#[trigger] strict[j] as int) < items.len() && items[strict[j] as int].strict_order,
    ensures
        strict_entries(items, merged_tail(items, tail, strict, ti, si)) == strict.subrange(si, strict.len() as int),
    decreases (tail.len() - ti) + (strict.len() - si),
{
    let m = merged_tail(items, tail, strict, ti, si);
    if ti < tail.len() && (si == strict.len() || bin_precedes_strict(tail[ti], items[strict[si] as int])) {
        lemma_merged_tail_strict_entries(items, tail, strict, ti + 1, si);
        lemma_strict_entries_concat(items, seq![tail[ti].4], merged_tail(items, tail, strict, ti + 1, si));
        assert(names_binned_draw(items, tail[ti].4));
        assert(seq![tail[ti].4].drop_last() =~= Seq::<usize>::empty());
        assert(strict_entries(items, Seq::<usize>::empty()) == Seq::<usize>::empty());
        assert(strict_entries(items, seq![tail[ti].4]) =~= Seq::<usize>::empty());
        assert(strict_entries(items, m) =~= strict.subrange(si, strict.len() as int));
    } else if si < strict.len() {
        lemma_merged_tail_strict_entries(items, tail, strict, ti, si + 1);
        lemma_strict_entries_concat(items, seq![strict[si]], merged_tail(items, tail, strict, ti, si + 1));
        assert(seq![strict[si]].drop_last() =~= Seq::<usize>::empty());
        assert(strict_entries(items, Seq::<usize>::empty()) == Seq::<usize>::empty());
        assert(strict_entries(items, seq![strict[si]]) =~= seq![strict[si]]);
        assert(strict_entries(items, m) =~= strict.subrange(si, strict.len() as int));
    } else {
        assert(strict.subrange(si, strict.len() as int) =~= Seq::<usize>::empty());
    }
}

/// The order-sensitive draws keep the order they are given in: the arrangement's entries that
/// name order-sensitive draws are exactly `strict`, in order.
pub proof fn lemma_arrangement_keeps_strict_order(items: Seq<ArrangeDrawFacts>, strict: Seq<usize>)
    requires
        items.len() <= usize::MAX,
        forall|j: int| 0 <= j < strict.len() ==> (#[trigger] strict[j] as int) < items.len() && items[strict[j] as int].strict_order,
    ensures
        strict_entries(items, arranged_indices(items, strict)) == strict,
{
    let rows = sorted_rows(items);
    lemma_sorted_rows_sources(items);
    assert forall|j: int| 0 <= j < rows.len() implies names_binned_draw(items, (#[trigger] rows[j]).4) by {
        assert(names_binned_draw(items, sorted_rows(items)[j].4));
    }
    lemma_pre_sources_binned(items, rows, rows.len() as int);
    let tail = post_skybox_rows(rows, rows.len() as int);
    lemma_merged_tail_strict_entries(items, tail, strict, 0, 0);
    lemma_strict_entries_concat(items, pre_skybox_sources(rows, rows.len() as int), merged_tail(items, tail, strict, 0, 0));
    assert(strict.subrange(0, strict.len() as int) =~= strict);
    assert(Seq::<usize>::empty() + strict =~= strict);
}

/// Built rows take their sources in ascending order, and every nontransparent draw has its row.
proof fn lemma_built_rows_order(items: Seq<ArrangeDrawFacts>, k: int)
    requires
        0 <= k <= items.len(),
        items.len() <= usize::MAX,
    ensures
        forall|a: int, b: int| 0 <= a < b < built_rows(items, k).len() ==> (#[trigger] built_rows(items, k)[a]).4 < (#[trigger] built_rows(items, k)[b]).4,
        forall|i: int| 0 <= i < k && !items[i].strict_order ==> built_rows(items, k).contains(#[trigger] bin_row(items, i)),
    decreases k,
{
    if k > 0 {
        lemma_built_rows_order(items, k - 1);
        lemma_built_rows_sources(items, k - 1);
        let p = built_rows(items, k - 1);
        let q = built_rows(items, k);
        if !items[k - 1].strict_order {
            assert forall|a: int, b: int| 0 <= a < b < q.len() implies (#[trigger] q[a]).4 < (#[trigger] q[b]).4 by {
                assert(q[a] == p[a]);
                if b < p.len() {
                    assert(q[b] == p[b]);
                } else {
                    assert((p[a].4 as int) < k - 1);
                }
            }
            assert forall|i: int| 0 <= i < k && !items[i].strict_order implies q.contains(#[trigger] bin_row(items, i)) by {
                if i < k - 1 {
                    let j = choose|j: int| 0 <= j < p.len() && p[j] == bin_row(items, i);
                    assert(q[j] == p[j]);
                } else {
                    assert(q[p.len() as int] == bin_row(items, i));
                }
            }
        }
    }
}

/// Sorted rows have pairwise different sources, and every nontransparent draw has its row.
proof fn lemma_sorted_rows_distinct(items: Seq<ArrangeDrawFacts>)
    requires
        items.len() <= usize::MAX,
    ensures
        forall|a: int, b: int| 0 <= a < sorted_rows(items).len() && 0 <= b < sorted_rows(items).len() && a != b
            ==> (#[trigger] sorted_rows(items)[a]).4 != (#[trigger] sorted_rows(items)[b]).4,
        forall|i: int| 0 <= i < items.len() && !items[i].strict_order ==> sorted_rows(items).contains(#[trigger] bin_row(items, i)),
{
    let built = built_rows(items, items.len() as int);
    let rows = sorted_rows(items);
    lemma_built_rows_order(items, items.len() as int);
    lemma_sorted_rows_sources(items);
    assert(built.no_duplicates()) by {
        assert forall|a: int, b: int| 0 <= a < built.len() && 0 <= b < built.len() && a != b implies built[a] != built[b] by {
            if a < b {
                assert(built[a].4 < built[b].4);
            } else {
                assert(built[b].4 < built[a].4);
            }
        }
    }
    built.lemma_multiset_has_no_duplicates();
    rows.lemma_multiset_has_no_duplicates_conv();
    assert forall|a: int, b: int| 0 <= a < rows.len() && 0 <= b < rows.len() && a != b implies (#[trigger] rows[a]).4 != (#[trigger] rows[b]).4 by {
        assert(rows[a] == bin_row(items, rows[a].4 as int));
        assert(rows[b] == bin_row(items, rows[b].4 as int));
        assert(rows[a] != rows[b]);
    }
    assert forall|i: int| 0 <= i < items.len() && !items[i].strict_order implies rows.contains(#[trigger] bin_row(items, i)) by {
        vstd::seq_lib::to_multiset_contains(built, bin_row(items, i));
        vstd::seq_lib::to_multiset_contains(rows, bin_row(items, i));
    }
}

/// Pairwise different sources.
pub open spec fn distinct_sources(rows: Seq<BinRow>) -> bool {
    forall|a: int, b: int| 0 <= a < rows.len() && 0 <= b < rows.len() && a != b ==> (#[trigger] rows[a]).4 != (#[trigger] rows[b]).4
}

/// The pre-skybox sources are the sources of the pre-skybox rows, once each; the post-skybox
/// rows are the other rows, with different sources.
proof fn lemma_pre_post_split(rows: Seq<BinRow>, k: int)
    requires
        0 <= k <= rows.len(),
        distinct_sources(rows),
    ensures
        forall|x: usize| pre_skybox_sources(rows, k).contains(x) <==> exists|j: int| 0 <= j < k && is_pre_skybox(#[trigger] rows[j]) && rows[j].4 == x,
        pre_skybox_sources(rows, k).no_duplicates(),
        forall|m: int| 0 <= m < post_skybox_rows(rows, k).len() ==> exists|j: int|
            0 <= j < k && !is_pre_skybox(#[trigger] rows[j]) && #[trigger] post_skybox_rows(rows, k)[m] == rows[j],
        forall|j: int| 0 <= j < k && !is_pre_skybox(#[trigger] rows[j]) ==> post_skybox_rows(rows, k).contains(rows[j]),
        distinct_sources(post_skybox_rows(rows, k)),
    decreases k,
{
    if k > 0 {
        lemma_pre_post_split(rows, k - 1);
        let pp = pre_skybox_sources(rows, k - 1);
        let tp = post_skybox_rows(rows, k - 1);
        let r = rows[k - 1];
        if is_pre_skybox(r) {
            let p = pp.push(r.4);
            assert forall|x: usize| p.contains(x) <==> exists|j: int| 0 <= j < k && is_pre_skybox(#[trigger] rows[j]) && rows[j].4 == x by {
                if p.contains(x) {
                    let m = choose|m: int| 0 <= m < p.len() && p[m] == x;
                    if m < pp.len() {
                        assert(pp[m] == x);
                        assert(pp.contains(x));
                    }
                }
                if exists|j: int| 0 <= j < k && is_pre_skybox(#[trigger] rows[j]) && rows[j].4 == x {
                    let j = choose|j: int| 0 <= j < k && is_pre_skybox(#[trigger] rows[j]) && rows[j].4 == x;
                    if j < k - 1 {
                        assert(pp.contains(x));
                        let m = choose|m: int| 0 <= m < pp.len() && pp[m] == x;
                        assert(p[m] == x);
                    } else {
                        assert(p[pp.len() as int] == x);
                    }
                }
            }
            assert(!pp.contains(r.4)) by {
                if pp.contains(r.4) {
                    let j = choose|j: int| 0 <= j < k - 1 && is_pre_skybox(#[trigger] rows[j]) && rows[j].4 == r.4;
                    assert(rows[j].4 != rows[k - 1].4);
                }
            }
            assert(p.no_duplicates()) by {
                assert forall|a: int, b: int| 0 <= a < p.len() && 0 <= b < p.len() && a != b implies p[a] != p[b] by {
                    if a < pp.len() && b < pp.len() {
                        assert(p[a] == pp[a] && p[b] == pp[b]);
                    } else if a < pp.len() {
                        assert(p[a] == pp[a]);
                        assert(pp.contains(pp[a]));
                    } else {
                        assert(p[b] == pp[b]);
                        assert(pp.contains(pp[b]));
                    }
                }
            }
            assert forall|j: int| 0 <= j < k && !is_pre_skybox(#[trigger] rows[j]) implies post_skybox_rows(rows, k).contains(rows[j]) by {
                assert(j < k - 1);
            }
        } else {
            let q = tp.push(r);
            assert forall|m: int| 0 <= m < q.len() implies exists|j: int|
                0 <= j < k && !is_pre_skybox(#[trigger] rows[j]) && #[trigger] q[m] == rows[j] by {
                if m < tp.len() {
                    assert(q[m] == tp[m]);
                    let j = choose|j: int| 0 <= j < k - 1 && !is_pre_skybox(#[trigger] rows[j]) && #[trigger] tp[m] == rows[j];
                    assert(0 <= j < k && !is_pre_skybox(rows[j]) && q[m] == rows[j]);
                } else {
                    assert(q[m] == rows[k - 1]);
                }
            }
            assert forall|j: int| 0 <= j < k && !is_pre_skybox(#[trigger] rows[j]) implies q.contains(rows[j]) by {
                if j < k - 1 {
                    assert(tp.contains(rows[j]));
                    let m = choose|m: int| 0 <= m < tp.len() && tp[m] == rows[j];
                    assert(q[m] == rows[j]);
                } else {
                    assert(q[tp.len() as int] == rows[j]);
                }
            }
            assert forall|a: int, b: int| 0 <= a < q.len() && 0 <= b < q.len() && a != b implies (#[trigger] q[a]).4 != (#[trigger] q[b]).4 by {
                if a < tp.len() && b < tp.len() {
                    assert(q[a] == tp[a] && q[b] == tp[b]);
                } else if a < tp.len() {
                    assert(q[a] == tp[a]);
                    let j = choose|j: int| 0 <= j < k - 1 && !is_pre_skybox(#[trigger] rows[j]) && #[trigger] tp[a] == rows[j];
                    assert(rows[j].4 != rows[k - 1].4);
                } else {
                    assert(q[b] == tp[b]);
                    let j = choose|j: int| 0 <= j < k - 1 && !is_pre_skybox(#[trigger] rows[j]) && #[trigger] tp[b] == rows[j];
                    assert(rows[j].4 != rows[k - 1].4);
                }
            }
            assert forall|x: usize| pre_skybox_sources(rows, k).contains(x) <==> exists|j: int| 0 <= j < k && is_pre_skybox(#[trigger] rows[j]) && rows[j].4 == x by {
                if exists|j: int| 0 <= j < k && is_pre_skybox(#[trigger] rows[j]) && rows[j].4 == x {
                    let j = choose|j: int| 0 <= j < k && is_pre_skybox(#[trigger] rows[j]) && rows[j].4 == x;
                    assert(j < k - 1);
                }
            }
        }
    }
}

/// The merge holds the remaining bin rows' sources and the remaining order-sensitive draws, each
/// once, when those are all different.
proof fn lemma_merged_tail_members(items: Seq<ArrangeDrawFacts>, tail: Seq<BinRow>, strict: Seq<usize>, ti: int, si: int)
    requires
        0 <= ti <= tail.len(),
        0 <= si <= strict.len(),
        distinct_sources(tail),
        strict.no_duplicates(),
        forall|a: int, b: int| 0 <= a < tail.len() && 0 <= b < strict.len() ==> (#[trigger] tail[a]).4 != #[trigger] strict[b],
    ensures
        forall|x: usize| merged_tail(items, tail, strict, ti, si).contains(x) <==> (
            (exists|a: int| ti <= a < tail.len() && (#[trigger] tail[a]).4 == x)
            || (exists|b: int| si <= b < strict.len() && #[trigger] strict[b] == x)),
        merged_tail(items, tail, strict, ti, si).no_duplicates(),
    decreases (tail.len() - ti) + (strict.len() - si),
{
    let m = merged_tail(items, tail, strict, ti, si);
    if ti < tail.len() && (si == strict.len() || bin_precedes_strict(tail[ti], items[strict[si] as int])) {
        lemma_merged_tail_members(items, tail, strict, ti + 1, si);
        let rest = merged_tail(items, tail, strict, ti + 1, si);
        let y = tail[ti].4;
        assert(m == seq![y] + rest);
        assert(!rest.contains(y)) by {
            if rest.contains(y) {
                if exists|a: int| ti + 1 <= a < tail.len() && (#[trigger] tail[a]).4 == y {
                    let a = choose|a: int| ti + 1 <= a < tail.len() && (#[trigger] tail[a]).4 == y;
                    assert(tail[a].4 != tail[ti].4);
                } else {
                    let b = choose|b: int| si <= b < strict.len() && #[trigger] strict[b] == y;
                    assert(tail[ti].4 != strict[b]);
                }
            }
        }
        vstd::seq_lib::lemma_no_dup_in_concat(seq![y], rest);
        assert forall|x: usize| m.contains(x) <==> (
            (exists|a: int| ti <= a < tail.len() && (#[trigger] tail[a]).4 == x)
            || (exists|b: int| si <= b < strict.len() && #[trigger] strict[b] == x)) by {
            if m.contains(x) {
                let q = choose|q: int| 0 <= q < m.len() && m[q] == x;
                if q == 0 {
                    assert(tail[ti].4 == x);
                } else {
                    assert(rest[q - 1] == x);
                    assert(rest.contains(x));
                    if exists|a: int| ti + 1 <= a < tail.len() && (#[trigger] tail[a]).4 == x {
                        let a = choose|a: int| ti + 1 <= a < tail.len() && (#[trigger] tail[a]).4 == x;
                        assert(ti <= a < tail.len() && tail[a].4 == x);
                    }
                }
            }
            if exists|a: int| ti <= a < tail.len() && (#[trigger] tail[a]).4 == x {
                let a = choose|a: int| ti <= a < tail.len() && (#[trigger] tail[a]).4 == x;
                if a == ti {
                    assert(m[0] == x);
                } else {
                    assert(ti + 1 <= a < tail.len() && tail[a].4 == x);
                    assert(rest.contains(x));
                    let q = choose|q: int| 0 <= q < rest.len() && rest[q] == x;
                    assert(m[q + 1] == x);
                }
            } else if exists|b: int| si <= b < strict.len() && #[trigger] strict[b] == x {
                assert(rest.contains(x));
                let q = choose|q: int| 0 <= q < rest.len() && rest[q] == x;
                assert(m[q + 1] == x);
            }
        }
    } else if si < strict.len() {
        lemma_merged_tail_members(items, tail, strict, ti, si + 1);
        let rest = merged_tail(items, tail, strict, ti, si + 1);
        let y = strict[si];
        assert(m == seq![y] + rest);
        assert(!rest.contains(y)) by {
            if rest.contains(y) {
                if exists|a: int| ti <= a < tail.len() && (#[trigger] tail[a]).4 == y {
                    let a = choose|a: int| ti <= a < tail.len() && (#[trigger] tail[a]).4 == y;
                    assert(tail[a].4 != strict[si]);
                } else {
                    let b = choose|b: int| si + 1 <= b < strict.len() && #[trigger] strict[b] == y;
                    assert(strict[b] != strict[si]);
                }
            }
        }
        vstd::seq_lib::lemma_no_dup_in_concat(seq![y], rest);
        assert forall|x: usize| m.contains(x) <==> (
            (exists|a: int| ti <= a < tail.len() && (#[trigger] tail[a]).4 == x)
            || (exists|b: int| si <= b < strict.len() && #[trigger] strict[b] == x)) by {
            if m.contains(x) {
                let q = choose|q: int| 0 <= q < m.len() && m[q] == x;
                if q == 0 {
                    assert(strict[si] == x);
                } else {
                    assert(rest[q - 1] == x);
                    assert(rest.contains(x));
                    if exists|b: int| si + 1 <= b < strict.len() && #[trigger] strict[b] == x {
                        let b = choose|b: int| si + 1 <= b < strict.len() && #[trigger] strict[b] == x;
                        assert(si <= b < strict.len() && strict[b] == x);
                    }
                }
            }
            if exists|b: int| si <= b < strict.len() && #[trigger] strict[b] == x {
                let b = choose|b: int| si <= b < strict.len() && #[trigger] strict[b] == x;
                if b == si {
                    assert(m[0] == x);
                } else {
                    assert(si + 1 <= b < strict.len() && strict[b] == x);
                    assert(rest.contains(x));
                    let q = choose|q: int| 0 <= q < rest.len() && rest[q] == x;
                    assert(m[q + 1] == x);
                }
            } else if exists|a: int| ti <= a < tail.len() && (#[trigger] tail[a]).4 == x {
                assert(rest.contains(x));
                let q = choose|q: int| 0 <= q < rest.len() && rest[q] == x;
                assert(m[q + 1] == x);
            }
        }
    } else {
        assert(m =~= Seq::<usize>::empty());
    }
}

/// When `strict` lists every order-sensitive draw exactly once and nothing else, the arrangement
/// lists every draw exactly once, so it can be applied to the draw list.
pub proof fn lemma_arrangement_is_permutation(items: Seq<ArrangeDrawFacts>, strict: Seq<usize>)
    requires
        items.len() <= usize::MAX,
        strict.no_duplicates(),
        forall|j: int| 0 <= j < strict.len() ==> (#[trigger] strict[j] as int) < items.len() && items[strict[j] as int].strict_order,
        forall|i: int| 0 <= i < items.len() && (#[trigger] items[i]).strict_order ==> strict.contains(i as usize),
    ensures
        is_permutation_order(arranged_indices(items, strict), items.len() as int),
{
    let rows = sorted_rows(items);
    lemma_sorted_rows_sources(items);
    lemma_sorted_rows_distinct(items);
    assert(distinct_sources(rows));
    let n = rows.len() as int;
    lemma_pre_post_split(rows, n);
    let pre = pre_skybox_sources(rows, n);
    let tail = post_skybox_rows(rows, n);
    assert forall|a: int, b: int| 0 <= a < tail.len() && 0 <= b < strict.len() implies (#[trigger] tail[a]).4 != #[trigger] strict[b] by {
        let j = choose|j: int| 0 <= j < n && !is_pre_skybox(#[trigger] rows[j]) && #[trigger] tail[a] == rows[j];
        assert(names_binned_draw(items, rows[j].4));
    }
    lemma_merged_tail_members(items, tail, strict, 0, 0);
    let merged = merged_tail(items, tail, strict, 0, 0);
    let out = pre + merged;
    assert(out == arranged_indices(items, strict));
    assert forall|i: int, j: int| 0 <= i < pre.len() && 0 <= j < merged.len() implies pre[i] != merged[j] by {
        let x = pre[i];
        assert(pre.contains(x));
        let a = choose|a: int| 0 <= a < n && is_pre_skybox(#[trigger] rows[a]) && rows[a].4 == x;
        assert(names_binned_draw(items, rows[a].4));
        if merged[j] == x {
            assert(merged.contains(x));
            if exists|b: int| 0 <= b < tail.len() && (#[trigger] tail[b]).4 == x {
                let b = choose|b: int| 0 <= b < tail.len() && (#[trigger] tail[b]).4 == x;
                let c = choose|c: int| 0 <= c < n && !is_pre_skybox(#[trigger] rows[c]) && #[trigger] tail[b] == rows[c];
                assert(rows[a].4 != rows[c].4);
            } else {
                let b = choose|b: int| 0 <= b < strict.len() && #[trigger] strict[b] == x;
                assert(items[strict[b] as int].strict_order);
            }
        }
    }
    vstd::seq_lib::lemma_no_dup_in_concat(pre, merged);
    assert forall|q: int| 0 <= q < out.len() implies (#[trigger] out[q] as int) < items.len() by {
        let x = out[q];
        if q < pre.len() {
            assert(pre[q] == x);
            assert(pre.contains(x));
            let a = choose|a: int| 0 <= a < n && is_pre_skybox(#[trigger] rows[a]) && rows[a].4 == x;
            assert(names_binned_draw(items, rows[a].4));
        } else {
            assert(merged[q - pre.len()] == x);
            assert(merged.contains(x));
            if exists|b: int| 0 <= b < tail.len() && (#[trigger] tail[b]).4 == x {
                let b = choose|b: int| 0 <= b < tail.len() && (#[trigger] tail[b]).4 == x;
                let c = choose|c: int| 0 <= c < n && !is_pre_skybox(#[trigger] rows[c]) && #[trigger] tail[b] == rows[c];
                assert(names_binned_draw(items, rows[c].4));
            } else {
                let b = choose|b: int| 0 <= b < strict.len() && #[trigger] strict[b] == x;
            }
        }
    }
    let full = Seq::new(items.len(), |i: int| i as usize);
    assert(full.no_duplicates());
    assert forall|x: usize| out.contains(x) <==> full.contains(x) by {
        if out.contains(x) {
            let q = choose|q: int| 0 <= q < out.len() && out[q] == x;
            assert((out[q] as int) < items.len());
            assert(full[x as int] == x);
        }
        if full.contains(x) {
            let i = x as int;
            assert(full[i] == x);
            if items[i].strict_order {
                assert(strict.contains(i as usize));
                let b = choose|b: int| 0 <= b < strict.len() && strict[b] == x;
                assert(merged.contains(x));
                let q = choose|q: int| 0 <= q < merged.len() && merged[q] == x;
                assert(out[pre.len() + q] == x);
            } else {
                assert(rows.contains(bin_row(items, i)));
                let a = choose|a: int| 0 <= a < rows.len() && rows[a] == bin_row(items, i);
                assert(rows[a].4 == x);
                if is_pre_skybox(rows[a]) {
                    assert(pre.contains(x));
                    let q = choose|q: int| 0 <= q < pre.len() && pre[q] == x;
                    assert(out[q] == x);
                } else {
                    assert(tail.contains(rows[a]));
                    let b = choose|b: int| 0 <= b < tail.len() && tail[b] == rows[a];
                    assert(tail[b].4 == x);
                    assert(merged.contains(x));
                    let q = choose|q: int| 0 <= q < merged.len() && merged[q] == x;
                    assert(out[pre.len() + q] == x);
                }
            }
        }
    }
    assert(out.to_set() =~= full.to_set());
    out.unique_seq_to_set();
    full.unique_seq_to_set();
}

/// Arranges a flattened draw list: builds the final order from the draws' facts and moves the
/// draws into it. An order that does not list every draw exactly once (possible only when
/// `strict_order` is not the order-sensitive draws once each) leaves the list as it was.
pub fn arrange_draws_by_phase_bins<T>(items: Vec<T>, facts: &[ArrangeDrawFacts], strict_order: &[usize]) -> (r: (Vec<T>, WorldMeshDrawArrangementStats))
    requires
        facts@.len() == items@.len(),
        forall|k: int| 0 <= k < strict_order@.len() ==> (#[trigger] strict_order@[k]) < facts@.len(),
    ensures
        r.1 == arranged_stats(facts@, strict_order@),
        is_permutation_order(arranged_indices(facts@, strict_order@), items@.len() as int) ==> r.0@.len() == items@.len()
            && forall|i: int| 0 <= i < items@.len() ==> #[trigger] r.0@[i] == items@[arranged_indices(facts@, strict_order@)[i] as int],
        !is_permutation_order(arranged_indices(facts@, strict_order@), items@.len() as int) ==> r.0@ == items@,
{
    let order = arrange_draw_items_order(facts, strict_order);
    materialize_arranged_draw_order(items, &order)
}

} // verus!
