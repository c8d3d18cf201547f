//! View-local LOD visibility bookkeeping: which renderers LOD groups own and which rows they selected.
use vstd::prelude::*;

use crate::collections::{CounterMap, OrdinalMap, counter_map_contents, ordinal_map_contents};
use crate::shared::{MeshRendererInstanceId, RenderSpaceId};

verus! {

/// `ceil(a / b)` for positive `b`.
pub open spec fn div_ceil(a: int, b: int) -> int {
    (a + b - 1) / b
}

/// Renderer-ref capacity for one LOD worker chunk: refs per group, rounded up, times the chunk's
/// group count, saturating; zero when any input is zero.
pub open spec fn spec_lod_group_chunk_capacity(total_renderer_refs: int, total_groups: int, chunk_groups: int) -> int {
    if total_renderer_refs == 0 || total_groups == 0 || chunk_groups == 0 {
        0
    } else {
        let per_group = div_ceil(total_renderer_refs, total_groups);
        if per_group * chunk_groups > usize::MAX { usize::MAX as int } else { per_group * chunk_groups }
    }
}

/// Estimates the renderer-ref capacity needed by one LOD worker chunk.
pub fn lod_group_chunk_capacity(total_renderer_refs: usize, total_groups: usize, chunk_groups: usize) -> (r: usize)
    ensures
        r == spec_lod_group_chunk_capacity(total_renderer_refs as int, total_groups as int, chunk_groups as int),
{
    if total_renderer_refs == 0 || total_groups == 0 || chunk_groups == 0 {
        return 0;
    }
    let quotient = total_renderer_refs / total_groups;
    proof {
        let t = total_renderer_refs as int;
        let g = total_groups as int;
        assert(quotient < usize::MAX || t % g == 0) by (nonlinear_arith)
            requires
                g > 0,
                quotient == t / g,
                t <= usize::MAX,
                t >= 0,
        {
            if t % g != 0 {
                assert(t == g * (t / g) + t % g);
                assert(g * (t / g) < t);
                assert(t / g <= g * (t / g));
            }
        }
    }
    let per_group: usize = if total_renderer_refs % total_groups == 0 { quotient } else { quotient + 1 };
    proof {
        let t = total_renderer_refs as int;
        let g = total_groups as int;
        assert(t == g * (t / g) + t % g) by (nonlinear_arith)
            requires g > 0;
        assert(div_ceil(t, g) == per_group) by (nonlinear_arith)
            requires
                g > 0,
                t == g * (t / g) + t % g,
                0 <= t % g < g,
                quotient == t / g,
                per_group == (if t % g == 0 { quotient as int } else { quotient + 1 }),
        {
            assert((t + g - 1) == g * (t / g) + (t % g + g - 1));
        }
    }
    if per_group > usize::MAX / chunk_groups {
        proof {
            assert(per_group * chunk_groups > usize::MAX) by (nonlinear_arith)
                requires
                    per_group > usize::MAX / chunk_groups,
                    chunk_groups > 0;
        }
        usize::MAX
    } else {
        proof {
            assert(per_group * chunk_groups <= usize::MAX) by (nonlinear_arith)
                requires
                    per_group <= usize::MAX / chunk_groups,
                    chunk_groups > 0;
        }
        per_group * chunk_groups
    }
}

/// One render space's renderers, in the order that assigns their dense ordinals.
pub struct LodSpaceRenderers {
    /// Render space id.
    pub space_id: RenderSpaceId,
    /// Whether the space is active; inactive spaces get no LOD state.
    pub is_active: bool,
    /// Static renderer identities in table order.
    pub static_instance_ids: Vec<MeshRendererInstanceId>,
    /// Skinned renderer identities in table order.
    pub skinned_instance_ids: Vec<MeshRendererInstanceId>,
}

/// One render space's LOD state: its ordinal lookup and the span of the shared bitsets it owns.
pub struct LodVisibilitySpace {
    /// Stable renderer identity to dense ordinal.
    pub instance_to_ordinal: OrdinalMap,
    /// First bit of this space in the shared bitsets.
    pub bit_offset: usize,
    /// Number of renderer ordinals this space owns.
    pub renderer_count: usize,
}

/// Per-view LOD decision map.
///
/// The grouped and selected bitsets of all spaces live back to back in two shared vectors; each
/// space owns the span `[bit_offset, bit_offset + renderer_count)`.
pub struct LodVisibility {
    /// Render-space id to index into `spaces`.
    pub space_slots: CounterMap,
    /// Per-space ordinal lookups and bit spans.
    pub spaces: Vec<LodVisibilitySpace>,
    /// Renderers referenced by at least one LOD group.
    pub grouped_bits: Vec<bool>,
    /// Grouped renderers selected by their group's chosen LOD row.
    pub selected_bits: Vec<bool>,
}

impl LodVisibility {
    /// Slots point at distinct spaces whose bit spans are disjoint and inside both bitsets.
    pub open spec fn wf(&self) -> bool {
        let slots = counter_map_contents(self.space_slots);
        &&& self.grouped_bits@.len() == self.selected_bits@.len()
        &&& forall|k: i32| #[trigger] slots.contains_key(k) ==> slots[k] < self.spaces@.len()
        &&& forall|k1: i32, k2: i32|
            #[trigger] slots.contains_key(k1) && #[trigger] slots.contains_key(k2) && k1 != k2 ==> slots[k1] != slots[k2]
        &&& forall|i: int|
            0 <= i < self.spaces@.len() ==> #[trigger] self.spaces@[i].bit_offset + self.spaces@[i].renderer_count
                <= self.grouped_bits@.len()
        &&& forall|i: int, j: int|
            0 <= i < j < self.spaces@.len() ==> #[trigger] self.spaces@[i].bit_offset + self.spaces@[i].renderer_count
                <= #[trigger] self.spaces@[j].bit_offset
    }

    /// Whether `space` has LOD state and `ordinal` is one of its renderer ordinals.
    pub open spec fn has_bit(&self, space: i32, ordinal: int) -> bool {
        let slots = counter_map_contents(self.space_slots);
        slots.contains_key(space) && 0 <= ordinal < self.spaces@[slots[space] as int].renderer_count
    }

    /// Shared bitset position of `(space, ordinal)`.
    pub open spec fn bit_index(&self, space: i32, ordinal: int) -> int {
        self.spaces@[counter_map_contents(self.space_slots)[space] as int].bit_offset + ordinal
    }

    /// `(space, ordinal)` is owned by an LOD group.
    pub open spec fn spec_grouped(&self, space: i32, ordinal: int) -> bool {
        self.has_bit(space, ordinal) && self.grouped_bits@[self.bit_index(space, ordinal)]
    }

    /// `(space, ordinal)` was selected by its group's active LOD row.
    pub open spec fn spec_selected(&self, space: i32, ordinal: int) -> bool {
        self.has_bit(space, ordinal) && self.selected_bits@[self.bit_index(space, ordinal)]
    }

    /// A renderer may draw unless a group owns it and did not select it.
    pub open spec fn spec_visible(&self, space: i32, ordinal: int) -> bool {
        !self.spec_grouped(space, ordinal) || self.spec_selected(space, ordinal)
    }

    /// Dense ordinal of `instance` in `space`, when the space has LOD state and knows the renderer.
    pub open spec fn spec_ordinal(&self, space: i32, instance: u64) -> Option<usize> {
        let slots = counter_map_contents(self.space_slots);
        if slots.contains_key(space) {
            let lookup = ordinal_map_contents(self.spaces@[slots[space] as int].instance_to_ordinal);
            if lookup.contains_key(instance) { Some(lookup[instance]) } else { None }
        } else {
            None
        }
    }

    /// An empty map: every renderer is visible.
    pub fn new() -> (r: Self)
        ensures
            r.wf(),
            r.spaces@.len() == 0,
            r.grouped_bits@.len() == 0,
            r.selected_bits@.len() == 0,
            counter_map_contents(r.space_slots).dom() == Set::<i32>::empty(),
            forall|s: i32, o: int| !#[trigger] r.has_bit(s, o),
    {
        LodVisibility {
            space_slots: CounterMap::new(),
            spaces: Vec::new(),
            grouped_bits: Vec::new(),
            selected_bits: Vec::new(),
        }
    }

    /// Bit lookups of two maps with the same slots and spaces agree.
    proof fn lemma_same_layout(a: &Self, b: &Self, space: i32, ordinal: int)
        requires
            a.space_slots == b.space_slots,
            a.spaces@ == b.spaces@,
        ensures
            a.has_bit(space, ordinal) == b.has_bit(space, ordinal),
            a.bit_index(space, ordinal) == b.bit_index(space, ordinal),
    {
    }

    /// Creates a map with stable renderer ordinals for the active listed spaces, nothing grouped.
    ///
    /// Ordinals are assigned in table order, static renderers first; a repeated identity takes the
    /// ordinal the lookup's size gives it at that point, as a hash-map insert does.
    pub fn for_spaces(spaces: &[LodSpaceRenderers]) -> (r: Self)
        requires
            forall|i: int| 0 <= i < spaces@.len() ==> (#[trigger] spaces@[i]).static_instance_ids@.len()
                + spaces@[i].skinned_instance_ids@.len() < usize::MAX / 4,
            spaces@.len() < usize::MAX / 4,
        ensures
            r.wf(),
            forall|s: i32, o: int| #[trigger] r.has_bit(s, o) ==> !r.spec_grouped(s, o) && !r.spec_selected(s, o),
            forall|s: i32| #[trigger] counter_map_contents(r.space_slots).contains_key(s) <==> exists|i: int|
                0 <= i < spaces@.len() && (#[trigger] spaces@[i]).space_id.0 == s && spaces@[i].is_active,
    {
        let mut r = LodVisibility::new();
        let mut k: usize = 0;
        while k < spaces.len()
            invariant
                0 <= k <= spaces.len(),
                spaces@.len() < usize::MAX / 4,
                forall|i: int| 0 <= i < spaces@.len() ==> (#[trigger] spaces@[i]).static_instance_ids@.len()
                    + spaces@[i].skinned_instance_ids@.len() < usize::MAX / 4,
                r.wf(),
                r.spaces@.len() <= k,
                r.grouped_bits@.len() <= k * (usize::MAX / 4),
                forall|j: int| 0 <= j < r.grouped_bits@.len() ==> !r.grouped_bits@[j] && !r.selected_bits@[j],
                forall|s: i32| #[trigger] counter_map_contents(r.space_slots).contains_key(s) <==> exists|i: int|
                    0 <= i < k && (#[trigger] spaces@[i]).space_id.0 == s && spaces@[i].is_active,
            decreases spaces.len() - k,
        {
            let entry = &spaces[k];
            if entry.is_active {
                let ghost r0 = r;
                let mut lookup = OrdinalMap::new();
                let mut a: usize = 0;
                while a < entry.static_instance_ids.len()
                    invariant
                        r == r0,
                        0 <= a <= entry.static_instance_ids@.len(),
                        ordinal_map_contents(lookup).dom().finite(),
                        ordinal_map_contents(lookup).dom().len() <= a,
                    decreases entry.static_instance_ids@.len() - a,
                {
                    let ordinal = lookup.len();
                    lookup.insert(entry.static_instance_ids[a].0, ordinal);
                    a = a + 1;
                }
                let mut b: usize = 0;
                while b < entry.skinned_instance_ids.len()
                    invariant
                        r == r0,
                        0 <= b <= entry.skinned_instance_ids@.len(),
                        ordinal_map_contents(lookup).dom().finite(),
                        ordinal_map_contents(lookup).dom().len() <= entry.static_instance_ids@.len() + b,
                    decreases entry.skinned_instance_ids@.len() - b,
                {
                    let ordinal = lookup.len();
                    lookup.insert(entry.skinned_instance_ids[b].0, ordinal);
                    b = b + 1;
                }
                let renderer_count = lookup.len();
                let bit_offset = r.grouped_bits.len();
                proof {
                    assert(bit_offset + renderer_count <= (k + 1) * (usize::MAX / 4)) by (nonlinear_arith)
                        requires
                            bit_offset <= k * (usize::MAX / 4),
                            renderer_count < usize::MAX / 4;
                    assert((k + 1) * (usize::MAX / 4) <= (usize::MAX / 4) * (usize::MAX / 4)) by (nonlinear_arith)
                        requires k + 1 <= usize::MAX / 4;
                }
                let mut c: usize = 0;
                let ghost before = r.grouped_bits@.len();
                let ghost layout_spaces = r.spaces@;
                let ghost layout_slots = r.space_slots;
                while c < renderer_count
                    invariant
                        r.wf(),
                        r.spaces@ == layout_spaces,
                        r.space_slots == layout_slots,
                        0 <= c <= renderer_count,
                        r.grouped_bits@.len() == before + c,
                        r.selected_bits@.len() == before + c,
                        before == bit_offset,
                        bit_offset + renderer_count <= (k + 1) * (usize::MAX / 4),
                        (k + 1) * (usize::MAX / 4) <= (usize::MAX / 4) * (usize::MAX / 4),
                        forall|j: int| 0 <= j < r.grouped_bits@.len() ==> !r.grouped_bits@[j] && !r.selected_bits@[j],
                    decreases renderer_count - c,
                {
                    r.grouped_bits.push(false);
                    r.selected_bits.push(false);
                    c = c + 1;
                }
                let slot = r.spaces.len();
                let ghost prev_r = r;
                let ghost old_slots = counter_map_contents(r.space_slots);
                assert(prev_r.wf());
                r.spaces.push(LodVisibilitySpace { instance_to_ordinal: lookup, bit_offset, renderer_count });
                r.space_slots.set(entry.space_id.0, slot);
                proof {
                    let slots = counter_map_contents(r.space_slots);
                    assert forall|k1: i32, k2: i32|
                        #[trigger] slots.contains_key(k1) && #[trigger] slots.contains_key(k2) && k1 != k2
                        implies slots[k1] != slots[k2] by {
                        if k1 != entry.space_id.0 && k2 != entry.space_id.0 {
                            assert(old_slots.contains_key(k1) && old_slots.contains_key(k2));
                        } else if k1 == entry.space_id.0 {
                            assert(old_slots.contains_key(k2));
                            assert(old_slots[k2] < prev_r.spaces@.len());
                        } else {
                            assert(old_slots.contains_key(k1));
                            assert(old_slots[k1] < prev_r.spaces@.len());
                        }
                    }
                    assert forall|i: int, j: int| 0 <= i < j < r.spaces@.len() implies
                        #[trigger] r.spaces@[i].bit_offset + r.spaces@[i].renderer_count <= #[trigger] r.spaces@[j].bit_offset by {
                        if j == slot as int {
                            assert(r.spaces@[i] == prev_r.spaces@[i]);
                            assert(prev_r.spaces@[i].bit_offset + prev_r.spaces@[i].renderer_count <= prev_r.grouped_bits@.len());
                        } else {
                            assert(r.spaces@[i] == prev_r.spaces@[i]);
                            assert(r.spaces@[j] == prev_r.spaces@[j]);
                        }
                    }
                }
            }
            proof {
                let slots = counter_map_contents(r.space_slots);
                assert forall|s: i32| #[trigger] slots.contains_key(s) <==> exists|i: int|
                    0 <= i < k + 1 && (#[trigger] spaces@[i]).space_id.0 == s && spaces@[i].is_active by {
                    if s == spaces@[k as int].space_id.0 && spaces@[k as int].is_active {
                        assert(slots.contains_key(s));
                    }
                }
                assert(r.grouped_bits@.len() <= (k + 1) * (usize::MAX / 4)) by (nonlinear_arith)
                    requires r.grouped_bits@.len() <= k * (usize::MAX / 4) || r.grouped_bits@.len() <= (k + 1) * (usize::MAX / 4);
            }
            k = k + 1;
        }
        r
    }

    /// Whether a renderer with this stable ordinal may emit draws in this view.
    pub fn renderer_visible(&self, space_id: RenderSpaceId, renderer_ordinal: usize) -> (r: bool)
        requires
            self.wf(),
        ensures
            r == self.spec_visible(space_id.0, renderer_ordinal as int),
    {
        match self.space_slots.get(space_id.0) {
            None => true,
            Some(slot) => {
                let space = &self.spaces[slot];
                let bit_len = self.grouped_bits.len();
                assert(space.bit_offset + space.renderer_count <= bit_len);
                if renderer_ordinal >= space.renderer_count {
                    true
                } else {
                    let bit = space.bit_offset + renderer_ordinal;
                    !self.grouped_bits[bit] || self.selected_bits[bit]
                }
            },
        }
    }

    /// Whether a renderer may emit draws when only its stable identity is known.
    pub fn renderer_visible_by_instance(&self, space_id: RenderSpaceId, instance_id: MeshRendererInstanceId) -> (r: bool)
        requires
            self.wf(),
        ensures
            r == match self.spec_ordinal(space_id.0, instance_id.0) {
                None => true,
                Some(o) => self.spec_visible(space_id.0, o as int),
            },
    {
        match self.space_slots.get(space_id.0) {
            None => true,
            Some(slot) => match self.spaces[slot].instance_to_ordinal.get(instance_id.0) {
                None => true,
                Some(ordinal) => self.renderer_visible(space_id, ordinal),
            },
        }
    }

    /// Marks a stable renderer ordinal as owned by an LOD group.
    pub fn mark_grouped_ordinal(&mut self, space_id: RenderSpaceId, renderer_ordinal: usize)
        requires
            old(self).wf(),
        ensures
            final(self).wf(),
            final(self).space_slots == old(self).space_slots,
            final(self).spaces@ == old(self).spaces@,
            forall|s: i32, o: int| #[trigger] final(self).spec_grouped(s, o) == (old(self).spec_grouped(s, o)
                || (s == space_id.0 && o == renderer_ordinal && old(self).has_bit(s, o))),
            forall|s: i32, o: int| #[trigger] final(self).spec_selected(s, o) == old(self).spec_selected(s, o),
    {
        if let Some(slot) = self.space_slots.get(space_id.0) {
            let offset = self.spaces[slot].bit_offset;
            let count = self.spaces[slot].renderer_count;
            let bit_len = self.grouped_bits.len();
            assert(self.spaces@[slot as int].bit_offset + self.spaces@[slot as int].renderer_count <= bit_len);
            if renderer_ordinal < count {
                let ghost prev = *self;
                self.grouped_bits.set(offset + renderer_ordinal, true);
                proof {
                    Self::lemma_mark_frame(&prev, self, space_id.0, renderer_ordinal as int);
                }
            }
        }
    }

    /// Marks a grouped renderer ordinal as selected by its group's active LOD row.
    pub fn mark_selected_ordinal(&mut self, space_id: RenderSpaceId, renderer_ordinal: usize)
        requires
            old(self).wf(),
        ensures
            final(self).wf(),
            final(self).space_slots == old(self).space_slots,
            final(self).spaces@ == old(self).spaces@,
            forall|s: i32, o: int| #[trigger] final(self).spec_selected(s, o) == (old(self).spec_selected(s, o)
                || (s == space_id.0 && o == renderer_ordinal && old(self).has_bit(s, o))),
            forall|s: i32, o: int| #[trigger] final(self).spec_grouped(s, o) == old(self).spec_grouped(s, o),
    {
        if let Some(slot) = self.space_slots.get(space_id.0) {
            let offset = self.spaces[slot].bit_offset;
            let count = self.spaces[slot].renderer_count;
            let bit_len = self.grouped_bits.len();
            assert(self.spaces@[slot as int].bit_offset + self.spaces@[slot as int].renderer_count <= bit_len);
            if renderer_ordinal < count {
                let ghost prev = *self;
                self.selected_bits.set(offset + renderer_ordinal, true);
                proof {
                    Self::lemma_mark_frame(&prev, self, space_id.0, renderer_ordinal as int);
                }
            }
        }
    }

    /// Setting the bit of one `(space, ordinal)` leaves every other pair's bit in place.
    proof fn lemma_mark_frame(prev: &Self, next: &Self, space: i32, ordinal: int)
        requires
            prev.wf(),
            prev.has_bit(space, ordinal),
            next.space_slots == prev.space_slots,
            next.spaces@ == prev.spaces@,
            next.grouped_bits@.len() == prev.grouped_bits@.len(),
            next.selected_bits@.len() == prev.selected_bits@.len(),
            forall|j: int| 0 <= j < prev.grouped_bits@.len() && j != prev.bit_index(space, ordinal)
                ==> next.grouped_bits@[j] == prev.grouped_bits@[j] && next.selected_bits@[j] == prev.selected_bits@[j],
        ensures
            next.wf(),
            forall|s: i32, o: int| #[trigger] prev.has_bit(s, o) && !(s == space && o == ordinal)
                ==> prev.bit_index(s, o) != prev.bit_index(space, ordinal),
    {
        let slots = counter_map_contents(prev.space_slots);
        assert forall|s: i32, o: int| #[trigger] prev.has_bit(s, o) && !(s == space && o == ordinal)
            implies prev.bit_index(s, o) != prev.bit_index(space, ordinal) by {
            let i = slots[s] as int;
            let j = slots[space] as int;
            if s != space {
                assert(i != j);
                if i < j {
                    assert(prev.spaces@[i].bit_offset + prev.spaces@[i].renderer_count <= prev.spaces@[j].bit_offset);
                } else {
                    assert(prev.spaces@[j].bit_offset + prev.spaces@[j].renderer_count <= prev.spaces@[i].bit_offset);
                }
            }
        }
    }

    /// Marks a renderer, found by stable identity, as owned by an LOD group.
    pub fn mark_grouped(&mut self, space_id: RenderSpaceId, instance_id: MeshRendererInstanceId)
        requires
            old(self).wf(),
        ensures
            final(self).wf(),
            final(self).space_slots == old(self).space_slots,
            final(self).spaces@ == old(self).spaces@,
            forall|s: i32, o: int| #[trigger] final(self).spec_grouped(s, o) == (old(self).spec_grouped(s, o)
                || (s == space_id.0 && old(self).spec_ordinal(s, instance_id.0) == Some(o as usize) && old(self).has_bit(s, o))),
            forall|s: i32, o: int| #[trigger] final(self).spec_selected(s, o) == old(self).spec_selected(s, o),
    {
        if let Some(slot) = self.space_slots.get(space_id.0) {
            if let Some(ordinal) = self.spaces[slot].instance_to_ordinal.get(instance_id.0) {
                self.mark_grouped_ordinal(space_id, ordinal);
            }
        }
    }

    /// Marks a renderer, found by stable identity, as selected by its group's active LOD row.
    pub fn mark_selected(&mut self, space_id: RenderSpaceId, instance_id: MeshRendererInstanceId)
        requires
            old(self).wf(),
        ensures
            final(self).wf(),
            final(self).space_slots == old(self).space_slots,
            final(self).spaces@ == old(self).spaces@,
            forall|s: i32, o: int| #[trigger] final(self).spec_selected(s, o) == (old(self).spec_selected(s, o)
                || (s == space_id.0 && old(self).spec_ordinal(s, instance_id.0) == Some(o as usize) && old(self).has_bit(s, o))),
            forall|s: i32, o: int| #[trigger] final(self).spec_grouped(s, o) == old(self).spec_grouped(s, o),
    {
        if let Some(slot) = self.space_slots.get(space_id.0) {
            if let Some(ordinal) = self.spaces[slot].instance_to_ordinal.get(instance_id.0) {
                self.mark_selected_ordinal(space_id, ordinal);
            }
        }
    }
}

/// A renderer that no LOD group owns is always visible.
pub proof fn lemma_ungrouped_renderer_visible(v: LodVisibility, space: i32, ordinal: int)
    requires
        !v.spec_grouped(space, ordinal),
    ensures
        v.spec_visible(space, ordinal),
{
}

/// A renderer that a group owns is visible exactly when the group selected it.
pub proof fn lemma_grouped_renderer_visible_iff_selected(v: LodVisibility, space: i32, ordinal: int)
    requires
        v.spec_grouped(space, ordinal),
    ensures
        v.spec_visible(space, ordinal) == v.spec_selected(space, ordinal),
{
}

/// One renderer referenced by a prepared LOD row.
#[derive(Clone, Copy, Debug, PartialEq, Eq, Structural)]
pub struct FramePreparedLodRenderer {
    /// Stable per-space renderer ordinal used by the visibility bitsets.
    pub renderer_ordinal: usize,
}

/// Live renderer membership of one prepared LOD row.
pub struct FramePreparedLodRow {
    /// Live renderer ordinals selected by this LOD row.
    pub renderers: Vec<FramePreparedLodRenderer>,
}

/// `ordinal` is listed in `row`.
pub open spec fn row_lists(row: Seq<FramePreparedLodRenderer>, ordinal: int) -> bool {
    exists|k: int| 0 <= k < row.len() && (#[trigger] row[k]).renderer_ordinal == ordinal
}

/// `ordinal` is listed in one of the first `n` rows.
pub open spec fn rows_list(rows: Seq<FramePreparedLodRow>, n: int, ordinal: int) -> bool {
    exists|r: int| 0 <= r < n && #[trigger] row_lists(rows[r].renderers@, ordinal)
}

/// Index of the first row with a live renderer.
pub open spec fn is_first_non_empty(rows: Seq<FramePreparedLodRow>, r: Option<usize>) -> bool {
    match r {
        Some(i) => i < rows.len() && rows[i as int].renderers@.len() > 0
            && forall|j: int| 0 <= j < i ==> (#[trigger] rows[j]).renderers@.len() == 0,
        None => forall|j: int| 0 <= j < rows.len() ==> (#[trigger] rows[j]).renderers@.len() == 0,
    }
}

/// Returns the first prepared LOD row that still has any live renderer.
pub fn first_non_empty_prepared_lod(rows: &[FramePreparedLodRow]) -> (r: Option<usize>)
    ensures
        is_first_non_empty(rows@, r),
{
    let mut i: usize = 0;
    while i < rows.len()
        invariant
            0 <= i <= rows@.len(),
            forall|j: int| 0 <= j < i ==> (#[trigger] rows@[j]).renderers@.len() == 0,
        decreases rows@.len() - i,
    {
        if rows[i].renderers.len() > 0 {
            return Some(i);
        }
        i = i + 1;
    }
    None
}

/// Marks every renderer of one row as grouped (`select == false`) or selected (`select == true`).
fn mark_row(visibility: &mut LodVisibility, space_id: RenderSpaceId, row: &FramePreparedLodRow, select: bool)
    requires
        old(visibility).wf(),
    ensures
        final(visibility).wf(),
        final(visibility).space_slots == old(visibility).space_slots,
        final(visibility).spaces@ == old(visibility).spaces@,
        forall|s: i32, o: int| #[trigger] final(visibility).spec_grouped(s, o) == (old(visibility).spec_grouped(s, o)
            || (!select && s == space_id.0 && old(visibility).has_bit(s, o) && row_lists(row.renderers@, o))),
        forall|s: i32, o: int| #[trigger] final(visibility).spec_selected(s, o) == (old(visibility).spec_selected(s, o)
            || (select && s == space_id.0 && old(visibility).has_bit(s, o) && row_lists(row.renderers@, o))),
{
    let ghost start = *visibility;
    let mut k: usize = 0;
    while k < row.renderers.len()
        invariant
            0 <= k <= row.renderers@.len(),
            visibility.wf(),
            visibility.space_slots == start.space_slots,
            visibility.spaces@ == start.spaces@,
            forall|s: i32, o: int| #[trigger] visibility.spec_grouped(s, o) == (start.spec_grouped(s, o)
                || (!select && s == space_id.0 && start.has_bit(s, o) && row_lists(row.renderers@.subrange(0, k as int), o))),
            forall|s: i32, o: int| #[trigger] visibility.spec_selected(s, o) == (start.spec_selected(s, o)
                || (select && s == space_id.0 && start.has_bit(s, o) && row_lists(row.renderers@.subrange(0, k as int), o))),
        decreases row.renderers@.len() - k,
    {
        let ordinal = row.renderers[k].renderer_ordinal;
        let ghost before = *visibility;
        if select {
            visibility.mark_selected_ordinal(space_id, ordinal);
        } else {
            visibility.mark_grouped_ordinal(space_id, ordinal);
        }
        proof {
            let prefix = row.renderers@.subrange(0, k as int);
            let next = row.renderers@.subrange(0, k as int + 1);
            assert forall|o: int| #[trigger] row_lists(next, o) == (row_lists(prefix, o) || o == ordinal as int) by {
                if row_lists(next, o) {
                    let q = choose|q: int| 0 <= q < next.len() && (#[trigger] next[q]).renderer_ordinal == o;
                    if q < k {
                        assert(prefix[q] == next[q]);
                    }
                }
                if row_lists(prefix, o) {
                    let q = choose|q: int| 0 <= q < prefix.len() && (#[trigger] prefix[q]).renderer_ordinal == o;
                    assert(next[q] == prefix[q]);
                }
                if o == ordinal as int {
                    assert(next[k as int].renderer_ordinal == o);
                }
            }
            assert forall|s: i32, o: int| #[trigger] before.has_bit(s, o) == start.has_bit(s, o) by {
                LodVisibility::lemma_same_layout(&before, &start, s, o);
            }
        }
        k = k + 1;
    }
    proof {
        assert(row.renderers@.subrange(0, row.renderers@.len() as int) == row.renderers@);
    }
}

/// Applies one prepared LOD group to the visibility map: every listed renderer becomes grouped,
/// and the renderers of the selected row, if any, become selected.
///
/// `selected_index` is the row the view's screen-height test chose (or the first non-empty row
/// when the group has no bounds); a group without rows changes nothing.
pub fn mark_prepared_group_lod(
    visibility: &mut LodVisibility,
    space_id: RenderSpaceId,
    rows: &[FramePreparedLodRow],
    selected_index: Option<usize>,
)
    requires
        old(visibility).wf(),
        selected_index matches Some(i) ==> i < rows@.len(),
    ensures
        final(visibility).wf(),
        final(visibility).space_slots == old(visibility).space_slots,
        final(visibility).spaces@ == old(visibility).spaces@,
        forall|s: i32, o: int| #[trigger] final(visibility).spec_grouped(s, o) == (old(visibility).spec_grouped(s, o)
            || (s == space_id.0 && old(visibility).has_bit(s, o) && rows_list(rows@, rows@.len() as int, o))),
        forall|s: i32, o: int| #[trigger] final(visibility).spec_selected(s, o) == (old(visibility).spec_selected(s, o)
            || (s == space_id.0 && old(visibility).has_bit(s, o) && rows@.len() > 0 && (selected_index matches Some(i)
                && row_lists(rows@[i as int].renderers@, o)))),
{
    if rows.len() == 0 {
        return;
    }
    let ghost start = *visibility;
    let mut r: usize = 0;
    while r < rows.len()
        invariant
            0 <= r <= rows@.len(),
            visibility.wf(),
            visibility.space_slots == start.space_slots,
            visibility.spaces@ == start.spaces@,
            forall|s: i32, o: int| #[trigger] visibility.spec_grouped(s, o) == (start.spec_grouped(s, o)
                || (s == space_id.0 && start.has_bit(s, o) && rows_list(rows@, r as int, o))),
            forall|s: i32, o: int| #[trigger] visibility.spec_selected(s, o) == start.spec_selected(s, o),
        decreases rows@.len() - r,
    {
        let ghost before = *visibility;
        mark_row(visibility, space_id, &rows[r], false);
        proof {
            assert forall|o: int| #[trigger] rows_list(rows@, r as int + 1, o)
                == (rows_list(rows@, r as int, o) || row_lists(rows@[r as int].renderers@, o)) by {
                if rows_list(rows@, r as int + 1, o) {
                    let q = choose|q: int| 0 <= q < r as int + 1 && #[trigger] row_lists(rows@[q].renderers@, o);
                }
            }
            assert forall|s: i32, o: int| #[trigger] before.has_bit(s, o) == start.has_bit(s, o) by {
                LodVisibility::lemma_same_layout(&before, &start, s, o);
            }
        }
        r = r + 1;
    }
    if let Some(i) = selected_index {
        let ghost before = *visibility;
        mark_row(visibility, space_id, &rows[i], true);
        proof {
            assert forall|s: i32, o: int| #[trigger] before.has_bit(s, o) == start.has_bit(s, o) by {
                LodVisibility::lemma_same_layout(&before, &start, s, o);
            }
        }
    }
}

/// Indices of the groups in `group_space_ids[0..n)` that belong to `space`, in order.
pub open spec fn groups_in_space(group_space_ids: Seq<RenderSpaceId>, space: RenderSpaceId, n: int) -> Seq<usize>
    decreases n,
{
    if n <= 0 {
        Seq::empty()
    } else if group_space_ids[n - 1] == space {
        groups_in_space(group_space_ids, space, n - 1).push((n - 1) as usize)
    } else {
        groups_in_space(group_space_ids, space, n - 1)
    }
}

/// Group indices for the first `n` queried spaces, space by space, each in group order.
pub open spec fn prepared_lod_group_work(group_space_ids: Seq<RenderSpaceId>, space_ids: Seq<RenderSpaceId>, n: int) -> Seq<usize>
    decreases n,
{
    if n <= 0 {
        Seq::empty()
    } else {
        prepared_lod_group_work(group_space_ids, space_ids, n - 1)
            + groups_in_space(group_space_ids, space_ids[n - 1], group_space_ids.len() as int)
    }
}

/// Collects the prepared LOD groups (by their owning space) relevant to the queried spaces.
pub fn collect_prepared_lod_group_work(group_space_ids: &[RenderSpaceId], space_ids: &[RenderSpaceId]) -> (work: Vec<usize>)
    ensures
        work@ == prepared_lod_group_work(group_space_ids@, space_ids@, space_ids@.len() as int),
{
    let mut work: Vec<usize> = Vec::new();
    let mut q: usize = 0;
    while q < space_ids.len()
        invariant
            0 <= q <= space_ids@.len(),
            work@ == prepared_lod_group_work(group_space_ids@, space_ids@, q as int),
        decreases space_ids@.len() - q,
    {
        let space = space_ids[q];
        let ghost base = work@;
        let mut g: usize = 0;
        while g < group_space_ids.len()
            invariant
                0 <= g <= group_space_ids@.len(),
                work@ == base + groups_in_space(group_space_ids@, space, g as int),
            decreases group_space_ids@.len() - g,
        {
            if group_space_ids[g] == space {
                work.push(g);
                assert(work@ == base + groups_in_space(group_space_ids@, space, g as int + 1));
            }
            g = g + 1;
        }
        q = q + 1;
    }
    work
}

} // verus!
