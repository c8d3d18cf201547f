//! Dirty tracking of the persistent render-world cache: which render spaces and renderer rows
//! scene changes invalidated, and the retained per-space storage they refer to.
use vstd::prelude::*;

use crate::collections::{
    IdSet, RendererDirtySet, CounterMap, RenderWorldRendererRef, counter_map_contents, id_set_contents,
    renderer_dirty_contents, ref_index_contents,
};
use crate::maintenance::RenderWorldMaintenanceStats;
use crate::prepared_snapshot::FramePreparedRenderables;
use crate::retained::RenderWorldSpace;
use crate::shared::{RenderSpaceId, RenderWorldRendererKind};

verus! {

/// Host render-context tag that material overrides are recorded against.
#[derive(Clone, Copy, Debug, Default, PartialEq, Eq, Structural, Hash)]
pub struct RenderingContext(pub u32);

/// One renderer row that needs its retained templates refreshed.
#[derive(Clone, Copy, Debug, PartialEq, Eq, Structural, Hash)]
pub struct RenderWorldRendererDirty {
    /// Render space of the row.
    pub space_id: RenderSpaceId,
    /// Renderer table of the row.
    pub kind: RenderWorldRendererKind,
    /// Dense row index in that table.
    pub renderable_index: usize,
}

/// One renderer row whose dynamic bounds need refreshing.
#[derive(Clone, Copy, Debug, PartialEq, Eq, Structural, Hash)]
pub struct RenderWorldBoundsDirty {
    /// Render space of the row.
    pub space_id: RenderSpaceId,
    /// Renderer table of the row.
    pub kind: RenderWorldRendererKind,
    /// Dense row index in that table.
    pub renderable_index: usize,
}

/// Transform roots of one render space whose subtrees moved.
#[derive(Clone, Debug, PartialEq, Eq)]
pub struct RenderWorldTransformDirty {
    /// Render space of the roots.
    pub space_id: RenderSpaceId,
    /// Moved root node ids.
    pub root_node_ids: Vec<i32>,
}

/// Renderer row a material override targets.
#[derive(Clone, Copy, Debug, PartialEq, Eq, Structural)]
pub enum MeshRendererOverrideTarget {
    /// Static renderer row (negative when unresolved).
    Static(i32),
    /// Skinned renderer row (negative when unresolved).
    Skinned(i32),
    /// Target could not be resolved.
    Unknown,
}

/// A material override changed for one renderer in one render context.
#[derive(Clone, Copy, Debug, PartialEq, Eq, Structural)]
pub struct RenderWorldMaterialOverrideDirty {
    /// Render space of the renderer.
    pub space_id: RenderSpaceId,
    /// Render context the override applies to.
    pub context: RenderingContext,
    /// Renderer row targeted by the override.
    pub target: MeshRendererOverrideTarget,
}

/// Fine-grained render-world invalidations gathered while applying a scene update.
pub struct RenderWorldDirtyReport {
    /// Spaces that need a full retained rebuild.
    pub full_spaces: Vec<RenderSpaceId>,
    /// Renderer rows that need template refresh.
    pub renderers: Vec<RenderWorldRendererDirty>,
    /// Renderer rows that need bounds refresh.
    pub bounds: Vec<RenderWorldBoundsDirty>,
    /// Transform roots whose subtrees moved.
    pub transform_roots: Vec<RenderWorldTransformDirty>,
    /// Material overrides that changed.
    pub material_overrides: Vec<RenderWorldMaterialOverrideDirty>,
}

impl RenderWorldDirtyReport {
    /// Whether the report carries no fine-grained invalidation.
    pub open spec fn spec_is_empty(&self) -> bool {
        &&& self.full_spaces@.len() == 0
        &&& self.renderers@.len() == 0
        &&& self.bounds@.len() == 0
        &&& self.transform_roots@.len() == 0
        &&& self.material_overrides@.len() == 0
    }

    /// Whether the report carries no fine-grained invalidation.
    pub fn is_empty(&self) -> (r: bool)
        ensures
            r == self.spec_is_empty(),
    {
        self.full_spaces.len() == 0 && self.renderers.len() == 0 && self.bounds.len() == 0
            && self.transform_roots.len() == 0 && self.material_overrides.len() == 0
    }
}

/// Summary of one scene apply as seen by the render world.
pub struct SceneApplyReport {
    /// Host frame index of the update.
    pub frame_index: u64,
    /// Spaces the host submitted.
    pub submitted_spaces: Vec<RenderSpaceId>,
    /// Spaces whose content changed (used when no fine report is available).
    pub changed_spaces: Vec<RenderSpaceId>,
    /// Spaces removed from the scene.
    pub removed_spaces: Vec<RenderSpaceId>,
    /// Fine-grained invalidations.
    pub render_world_dirty: RenderWorldDirtyReport,
}

/// Retained storage keyed by render space, dense in insertion order with swap-removal.
pub struct RetainedSpaceTable {
    /// Space id to storage index.
    pub slots: CounterMap,
    /// Space id of each stored entry.
    pub ids: Vec<i32>,
    /// Stored retained spaces.
    pub store: Vec<RenderWorldSpace>,
}

impl RetainedSpaceTable {
    /// Slots and ids describe the same one-to-one pairing of keys and storage indices.
    pub open spec fn wf(&self) -> bool {
        let slots = counter_map_contents(self.slots);
        &&& self.ids@.len() == self.store@.len()
        &&& forall|k: i32| #[trigger] slots.contains_key(k) ==> slots[k] < self.ids@.len() && self.ids@[slots[k] as int] == k
        &&& forall|i: int| 0 <= i < self.ids@.len() ==> #[trigger] slots.contains_key(self.ids@[i]) && slots[self.ids@[i]] == i
    }

    /// Ids of the stored spaces.
    pub open spec fn spec_ids(&self) -> Set<i32> {
        counter_map_contents(self.slots).dom()
    }

    /// Retained space stored for `id`.
    pub open spec fn spec_get(&self, id: i32) -> RenderWorldSpace {
        self.store@[counter_map_contents(self.slots)[id] as int]
    }

    /// An empty table.
    pub fn new() -> (r: Self)
        ensures
            r.wf(),
            r.spec_ids() == Set::<i32>::empty(),
    {
        RetainedSpaceTable { slots: CounterMap::new(), ids: Vec::new(), store: Vec::new() }
    }

    /// Whether `id` has retained storage.
    pub fn contains_key(&self, id: i32) -> (r: bool)
        ensures
            r == self.spec_ids().contains(id),
    {
        self.slots.get(id).is_some()
    }

    /// Retained storage of `id`, if any.
    pub fn get(&self, id: i32) -> (r: Option<&RenderWorldSpace>)
        requires
            self.wf(),
        ensures
            self.spec_ids().contains(id) ==> r == Some(&self.spec_get(id)),
            !self.spec_ids().contains(id) ==> r.is_none(),
    {
        match self.slots.get(id) {
            Some(i) => Some(&self.store[i]),
            None => None,
        }
    }

    /// Number of stored spaces.
    pub fn len(&self) -> (r: usize)
        requires
            self.wf(),
        ensures
            r == self.ids@.len(),
    {
        self.ids.len()
    }

    /// Id stored at storage index `i`.
    pub fn id_at(&self, i: usize) -> (r: i32)
        requires
            self.wf(),
            i < self.ids@.len(),
        ensures
            r == self.ids@[i as int],
            self.spec_ids().contains(r),
    {
        self.ids[i]
    }

    /// Stores `space` for `id`, replacing earlier storage.
    pub fn insert(&mut self, id: i32, space: RenderWorldSpace)
        requires
            old(self).wf(),
        ensures
            final(self).wf(),
            final(self).spec_ids() == old(self).spec_ids().insert(id),
            final(self).spec_get(id) == space,
            forall|k: i32| k != id && old(self).spec_ids().contains(k) ==> #[trigger] final(self).spec_get(k) == old(self).spec_get(k),
    {
        match self.slots.get(id) {
            Some(i) => {
                self.store.set(i, space);
                assert(self.ids@ == old(self).ids@);
                assert(counter_map_contents(self.slots) == counter_map_contents(old(self).slots));
            },
            None => {
                let i = self.ids.len();
                self.ids.push(id);
                self.store.push(space);
                self.slots.set(id, i);
                proof {
                    let slots = counter_map_contents(self.slots);
                    let old_slots = counter_map_contents(old(self).slots);
                    assert forall|k: i32| #[trigger] slots.contains_key(k) implies slots[k] < self.ids@.len() && self.ids@[slots[k] as int] == k by {
                        if k != id {
                            assert(old_slots.contains_key(k));
                            assert(old(self).ids@[old_slots[k] as int] == k);
                        }
                    }
                    assert forall|j: int| 0 <= j < self.ids@.len() implies #[trigger] slots.contains_key(self.ids@[j]) && slots[self.ids@[j]] == j by {
                        if j < i {
                            assert(old(self).ids@[j] == self.ids@[j]);
                            assert(old_slots.contains_key(old(self).ids@[j]));
                            assert(old(self).ids@[j] != id);
                        }
                    }
                    assert forall|k: i32| k != id && old(self).spec_ids().contains(k) implies #[trigger] self.spec_get(k) == old(self).spec_get(k) by {
                        assert(old_slots[k] < old(self).ids@.len());
                    }
                }
            },
        }
    }

    /// Removes and returns the storage of `id`, moving the last entry into its index.
    pub fn remove(&mut self, id: i32) -> (r: Option<RenderWorldSpace>)
        requires
            old(self).wf(),
        ensures
            final(self).wf(),
            final(self).spec_ids() == old(self).spec_ids().remove(id),
            old(self).spec_ids().contains(id) ==> r == Some(old(self).spec_get(id)),
            !old(self).spec_ids().contains(id) ==> r.is_none(),
            forall|k: i32| k != id && old(self).spec_ids().contains(k) ==> #[trigger] final(self).spec_get(k) == old(self).spec_get(k),
            old(self).spec_ids().contains(id) ==> final(self).ids@ == old(self).ids@.update(
                counter_map_contents(old(self).slots)[id] as int,
                old(self).ids@.last(),
            ).drop_last(),
    {
        match self.slots.get(id) {
            None => None,
            Some(i) => {
                let last = self.ids.len() - 1;
                let moved_id = self.ids[last];
                let ghost old_ids = self.ids@;
                let ghost old_store = self.store@;
                let removed = self.store.swap_remove(i);
                self.ids.swap_remove(i);
                self.slots.remove_key(id);
                if i < last {
                    self.slots.set(moved_id, i);
                }
                proof {
                    let slots = counter_map_contents(self.slots);
                    assert forall|k: i32| #[trigger] slots.contains_key(k) implies slots[k] < self.ids@.len() && self.ids@[slots[k] as int] == k by {
                        if k != moved_id {
                            let j = counter_map_contents(old(self).slots)[k] as int;
                            assert(old_ids[j] == k);
                            assert(j != last as int);
                        }
                    }
                    let old_slots = counter_map_contents(old(self).slots);
                    assert forall|j: int| 0 <= j < self.ids@.len() implies #[trigger] slots.contains_key(self.ids@[j]) && slots[self.ids@[j]] == j by {
                        if j != i as int {
                            assert(self.ids@[j] == old_ids[j]);
                            lemma_table_slot_of_index(*old(self), j);
                            assert(old_slots.contains_key(old_ids[j]) && old_slots[old_ids[j]] == j);
                            assert(old_ids[j] != id);
                            assert(old_ids[j] != moved_id);
                        } else {
                            assert(self.ids@[j] == moved_id);
                        }
                    }
                    assert forall|k: i32| k != id && old(self).spec_ids().contains(k) implies #[trigger] self.spec_get(k) == old(self).spec_get(k) by {
                        let j = counter_map_contents(old(self).slots)[k] as int;
                        assert(old_ids[j] == k);
                    }
                }
                Some(removed)
            },
        }
    }
}

/// The slot of the id stored at index `j` is `j`.
proof fn lemma_table_slot_of_index(t: RetainedSpaceTable, j: int)
    requires
        t.wf(),
        0 <= j < t.ids@.len(),
    ensures
        counter_map_contents(t.slots).contains_key(t.ids@[j]),
        counter_map_contents(t.slots)[t.ids@[j]] == j,
{
    let slots = counter_map_contents(t.slots);
    let k = t.ids@[j];
    assert(slots.contains_key(k));
    assert(slots[k] == j);
}

/// Dirty-set key of a renderer row: `(space id, skinned table, renderable index)`.
pub open spec fn spec_dirty_key(space_id: RenderSpaceId, kind: RenderWorldRendererKind, renderable_index: usize) -> (i32, bool, usize) {
    (space_id.0, kind is Skinned, renderable_index)
}

/// Dirty-set key of a renderer row.
pub fn dirty_key(space_id: RenderSpaceId, kind: RenderWorldRendererKind, renderable_index: usize) -> (r: (i32, bool, usize))
    ensures
        r == spec_dirty_key(space_id, kind, renderable_index),
{
    let skinned = match kind {
        RenderWorldRendererKind::Static => false,
        RenderWorldRendererKind::Skinned => true,
    };
    (space_id.0, skinned, renderable_index)
}

/// Abstract dirty-tracking state of a [`RenderWorld`].
pub struct RenderWorldDirtyModel {
    /// Spaces with retained storage.
    pub spaces: Set<i32>,
    /// Spaces requiring full retained rebuild.
    pub dirty_spaces: Set<i32>,
    /// Renderer rows requiring template refresh.
    pub dirty_renderers: Set<(i32, bool, usize)>,
    /// Renderer rows requiring only bounds refresh.
    pub dirty_bounds: Set<(i32, bool, usize)>,
    /// Deferred transform-root dirties as `(space id, root ids)`.
    pub transform_roots: Seq<(i32, Seq<i32>)>,
    /// Mesh assets whose renderer rows need refresh.
    pub dirty_mesh_assets: Set<i32>,
    /// Generated particle mesh churn requires a snapshot rebuild.
    pub particle_snapshot_dirty: bool,
    /// The next prepare rebuilds every scene space.
    pub full_rebuild_requested: bool,
    /// Mesh-pool mutation generation consumed so far.
    pub mesh_pool_generation: u64,
    /// The cache serves contexts without draw-prep overrides.
    pub context_invariant: bool,
    /// Render context of the prepared snapshot.
    pub render_context: RenderingContext,
    /// Pending topology dirty events.
    pub pending_topology: int,
    /// Pending material dirty events.
    pub pending_material: int,
    /// Pending transform-only dirty events.
    pub pending_transform_only: int,
    /// Pending mesh-asset dirty renderer events.
    pub pending_mesh_asset: int,
    /// The prepared draw snapshot.
    pub prepared: FramePreparedRenderables,
}

/// `count + 1`, clamped to `usize::MAX`.
pub open spec fn sat_inc(count: int) -> int {
    if count + 1 > usize::MAX { usize::MAX as int } else { count + 1 }
}

/// Abstract transform-root dirty.
pub open spec fn transform_dirty_view(d: RenderWorldTransformDirty) -> (i32, Seq<i32>) {
    (d.space_id.0, d.root_node_ids@)
}

/// Transform-root dirties outside `space`, in order.
pub open spec fn transform_roots_outside(s: Seq<(i32, Seq<i32>)>, space: i32) -> Seq<(i32, Seq<i32>)>
    decreases s.len(),
{
    if s.len() == 0 {
        s
    } else if s.last().0 != space {
        transform_roots_outside(s.drop_last(), space).push(s.last())
    } else {
        transform_roots_outside(s.drop_last(), space)
    }
}

/// Records a renderer row dirty unless its whole space is already dirty.
pub open spec fn spec_note_renderer_dirty(m: RenderWorldDirtyModel, key: (i32, bool, usize)) -> RenderWorldDirtyModel {
    if m.dirty_spaces.contains(key.0) {
        m
    } else {
        RenderWorldDirtyModel { dirty_renderers: m.dirty_renderers.insert(key), ..m }
    }
}

/// Records a renderer row for bounds refresh; a space without retained storage is rebuilt whole.
pub open spec fn spec_note_bounds_dirty(m: RenderWorldDirtyModel, key: (i32, bool, usize)) -> RenderWorldDirtyModel {
    if m.dirty_spaces.contains(key.0) {
        m
    } else if !m.spaces.contains(key.0) {
        RenderWorldDirtyModel { dirty_spaces: m.dirty_spaces.insert(key.0), ..m }
    } else {
        RenderWorldDirtyModel { dirty_bounds: m.dirty_bounds.insert(key), ..m }
    }
}

/// Records a material override of this render context: a resolved row becomes renderer-dirty,
/// an unresolved one dirties its whole space.
pub open spec fn spec_note_material_override_dirty(m: RenderWorldDirtyModel, d: RenderWorldMaterialOverrideDirty) -> RenderWorldDirtyModel {
    if m.context_invariant || d.context != m.render_context {
        m
    } else {
        let counted = RenderWorldDirtyModel { pending_material: sat_inc(m.pending_material), ..m };
        match d.target {
            MeshRendererOverrideTarget::Static(index) => if index >= 0 {
                spec_note_renderer_dirty(counted, (d.space_id.0, false, index as usize))
            } else {
                RenderWorldDirtyModel { dirty_spaces: m.dirty_spaces.insert(d.space_id.0), ..counted }
            },
            MeshRendererOverrideTarget::Skinned(index) => if index >= 0 {
                spec_note_renderer_dirty(counted, (d.space_id.0, true, index as usize))
            } else {
                RenderWorldDirtyModel { dirty_spaces: m.dirty_spaces.insert(d.space_id.0), ..counted }
            },
            MeshRendererOverrideTarget::Unknown => RenderWorldDirtyModel {
                dirty_spaces: m.dirty_spaces.insert(d.space_id.0),
                ..counted
            },
        }
    }
}

/// Drops every retained and dirty record of a render space.
pub open spec fn spec_remove_space(m: RenderWorldDirtyModel, id: i32) -> RenderWorldDirtyModel {
    RenderWorldDirtyModel {
        spaces: m.spaces.remove(id),
        dirty_spaces: m.dirty_spaces.remove(id),
        dirty_renderers: m.dirty_renderers.filter(|k: (i32, bool, usize)| k.0 != id),
        dirty_bounds: m.dirty_bounds.filter(|k: (i32, bool, usize)| k.0 != id),
        transform_roots: transform_roots_outside(m.transform_roots, id),
        ..m
    }
}

/// Persistent dirty tracking and retained storage of the render-world cache.
pub struct RenderWorld {
    /// Per-space retained renderer template records.
    pub spaces: RetainedSpaceTable,
    /// Spaces requiring full retained-template rebuild.
    pub dirty_spaces: IdSet,
    /// Individual renderer records requiring retained-template refresh.
    pub dirty_renderers: RendererDirtySet,
    /// Individual renderer records requiring only dynamic bounds refresh.
    pub dirty_bounds_renderers: RendererDirtySet,
    /// Transform-root dirties deferred until world-cache flush has completed.
    pub dirty_transform_roots: Vec<RenderWorldTransformDirty>,
    /// Mesh assets whose referencing renderer records need refresh.
    pub dirty_mesh_assets: IdSet,
    /// Whether generated particle mesh churn requires rebuilding the prepared snapshot.
    pub particle_snapshot_dirty: bool,
    /// Whether the next prepare must rebuild every scene space.
    pub full_rebuild_requested: bool,
    /// Mesh-pool mutation generation consumed by this cache.
    pub mesh_pool_generation: u64,
    /// Whether this cache represents render contexts that have no draw-prep overrides.
    pub context_invariant: bool,
    /// Prepared draw snapshot consumed by per-view collection.
    pub prepared: FramePreparedRenderables,
    /// Pending topology dirty events accumulated since the last maintenance pass.
    pub pending_topology_dirty_count: usize,
    /// Pending material dirty events accumulated since the last maintenance pass.
    pub pending_material_dirty_count: usize,
    /// Pending transform-only dirty events accumulated since the last maintenance pass.
    pub pending_transform_only_dirty_count: usize,
    /// Pending mesh-asset dirty renderer events accumulated since the last maintenance pass.
    pub pending_mesh_asset_dirty_renderer_count: usize,
    /// Most recent maintenance counters.
    pub maintenance_stats: RenderWorldMaintenanceStats,
}

impl View for RenderWorld {
    type V = RenderWorldDirtyModel;

    open spec fn view(&self) -> RenderWorldDirtyModel {
        RenderWorldDirtyModel {
            spaces: self.spaces.spec_ids(),
            dirty_spaces: id_set_contents(self.dirty_spaces),
            dirty_renderers: renderer_dirty_contents(self.dirty_renderers),
            dirty_bounds: renderer_dirty_contents(self.dirty_bounds_renderers),
            transform_roots: self.dirty_transform_roots@.map_values(|d: RenderWorldTransformDirty| transform_dirty_view(d)),
            dirty_mesh_assets: id_set_contents(self.dirty_mesh_assets),
            particle_snapshot_dirty: self.particle_snapshot_dirty,
            full_rebuild_requested: self.full_rebuild_requested,
            mesh_pool_generation: self.mesh_pool_generation,
            context_invariant: self.context_invariant,
            render_context: self.prepared.render_context,
            pending_topology: self.pending_topology_dirty_count as int,
            pending_material: self.pending_material_dirty_count as int,
            pending_transform_only: self.pending_transform_only_dirty_count as int,
            pending_mesh_asset: self.pending_mesh_asset_dirty_renderer_count as int,
            prepared: self.prepared,
        }
    }
}

/// Bounds-dirty rows only name spaces that have retained storage.
pub open spec fn bounds_dirty_have_storage(m: RenderWorldDirtyModel) -> bool {
    forall|k: (i32, bool, usize)| #[trigger] m.dirty_bounds.contains(k) ==> m.spaces.contains(k.0)
}

impl RenderWorld {
    /// Well-formedness depends only on the storage table and the bounds-dirty set.
    proof fn lemma_wf_frame(a: &Self, b: &Self)
        requires
            a.wf(),
            b.spaces == a.spaces,
            b.dirty_bounds_renderers == a.dirty_bounds_renderers,
        ensures
            b.wf(),
    {
        assert forall|k: (i32, bool, usize)| #[trigger] b@.dirty_bounds.contains(k) implies b@.spaces.contains(k.0) by {
            assert(a@.dirty_bounds.contains(k));
        }
    }

    /// Well-formedness depends only on the storage table and the bounds-dirty set.
    pub proof fn lemma_wf_frame_pub(a: &Self, b: &Self)
        requires
            a.wf(),
            b.spaces == a.spaces,
            b.dirty_bounds_renderers == a.dirty_bounds_renderers,
        ensures
            b.wf(),
    {
        Self::lemma_wf_frame(a, b);
    }

    /// Marks one space as needing a full rebuild.
    pub fn mark_space_dirty_for_expansion(&mut self, id: RenderSpaceId)
        requires
            old(self).wf(),
        ensures
            final(self).wf(),
            final(self)@ == (RenderWorldDirtyModel { dirty_spaces: old(self)@.dirty_spaces.insert(id.0), ..old(self)@ }),
            final(self).spaces == old(self).spaces,
            final(self).maintenance_stats == old(self).maintenance_stats,
    {
        self.mark_space_dirty(id);
    }

    /// Storage table is consistent and every bounds-dirty row has retained storage.
    pub open spec fn wf(&self) -> bool {
        &&& self.spaces.wf()
        &&& bounds_dirty_have_storage(self@)
    }

    /// Retained storage is unchanged for every space `other` still stores.
    pub open spec fn storage_kept(&self, other: &Self) -> bool {
        forall|k: i32| #[trigger] self.spaces.spec_ids().contains(k) ==> other.spaces.spec_ids().contains(k)
            && self.spaces.spec_get(k) == other.spaces.spec_get(k)
    }

    /// Creates an empty render-world cache.
    pub fn new(render_context: RenderingContext) -> (r: Self)
        ensures
            r.wf(),
            r@ == spec_new_render_world(r.prepared, false),
            r.prepared.tables_match(),
            r.prepared.render_context == render_context,
            r.prepared.context_invariant == false,
            r.prepared.active_space_ids@.len() == 0,
            r.prepared.draws@.len() == 0,
            r.prepared.previous_draws@.len() == 0,
            r.maintenance_stats == RenderWorldMaintenanceStats::spec_zero(),
    {
        Self::new_with_context_mode(render_context, false)
    }

    /// Creates an empty render-world cache for contexts with no draw-prep overrides.
    pub fn new_context_invariant(render_context: RenderingContext) -> (r: Self)
        ensures
            r.wf(),
            r@ == spec_new_render_world(r.prepared, true),
            r.prepared.tables_match(),
            r.prepared.render_context == render_context,
            r.prepared.context_invariant == true,
            r.prepared.active_space_ids@.len() == 0,
            r.prepared.draws@.len() == 0,
            r.prepared.previous_draws@.len() == 0,
            r.maintenance_stats == RenderWorldMaintenanceStats::spec_zero(),
    {
        Self::new_with_context_mode(render_context, true)
    }

    /// Creates an empty render-world cache with explicit context compatibility.
    fn new_with_context_mode(render_context: RenderingContext, context_invariant: bool) -> (r: Self)
        ensures
            r.wf(),
            r@ == spec_new_render_world(r.prepared, context_invariant),
            r.prepared.tables_match(),
            r.prepared.render_context == render_context,
            r.prepared.context_invariant == context_invariant,
            r.prepared.active_space_ids@.len() == 0,
            r.prepared.draws@.len() == 0,
            r.prepared.previous_draws@.len() == 0,
            r.maintenance_stats == RenderWorldMaintenanceStats::spec_zero(),
    {
        let r = RenderWorld {
            spaces: RetainedSpaceTable::new(),
            dirty_spaces: IdSet::new(),
            dirty_renderers: RendererDirtySet::new(),
            dirty_bounds_renderers: RendererDirtySet::new(),
            dirty_transform_roots: Vec::new(),
            dirty_mesh_assets: IdSet::new(),
            particle_snapshot_dirty: false,
            full_rebuild_requested: true,
            mesh_pool_generation: 0,
            context_invariant,
            prepared: if context_invariant {
                FramePreparedRenderables::empty_context_invariant(render_context)
            } else {
                FramePreparedRenderables::empty(render_context)
            },
            pending_topology_dirty_count: 0,
            pending_material_dirty_count: 0,
            pending_transform_only_dirty_count: 0,
            pending_mesh_asset_dirty_renderer_count: 0,
            maintenance_stats: RenderWorldMaintenanceStats::zero(),
        };
        proof {
            assert(r@.dirty_renderers =~= Set::<(i32, bool, usize)>::empty());
            assert(r@.dirty_bounds =~= Set::<(i32, bool, usize)>::empty());
            assert(r@.transform_roots =~= Seq::<(i32, Seq<i32>)>::empty());
        }
        r
    }

    /// Maintenance counters from the most recent maintenance pass.
    pub fn maintenance_stats(&self) -> (r: RenderWorldMaintenanceStats)
        ensures
            r == self.maintenance_stats,
    {
        self.maintenance_stats
    }

    /// Removes all retained state and dirty records of a render space.
    pub fn remove_space(&mut self, id: RenderSpaceId)
        requires
            old(self).wf(),
        ensures
            final(self).wf(),
            final(self)@ == spec_remove_space(old(self)@, id.0),
            final(self).storage_kept(old(self)),
            final(self).maintenance_stats == old(self).maintenance_stats,
    {
        self.spaces.remove(id.0);
        self.dirty_spaces.remove(id.0);
        self.dirty_renderers.retain_outside_space(id.0);
        self.dirty_bounds_renderers.retain_outside_space(id.0);
        let mut taken: Vec<RenderWorldTransformDirty> = Vec::new();
        std::mem::swap(&mut taken, &mut self.dirty_transform_roots);
        let ghost taken_roots = taken@;
        let mut kept: Vec<RenderWorldTransformDirty> = Vec::new();
        for d in it: taken.into_iter()
            invariant
                it.seq() == taken_roots,
                kept@.map_values(|x: RenderWorldTransformDirty| transform_dirty_view(x))
                    == transform_roots_outside(taken_roots.take(it.index() as int).map_values(|x: RenderWorldTransformDirty| transform_dirty_view(x)), id.0),
        {
            let ghost n = it.index() as int;
            assert(d == taken_roots[n]);
            let ghost before = kept@;
            if d.space_id.0 != id.0 {
                kept.push(d);
            }
            proof {
                let vprev = taken_roots.take(n).map_values(|x: RenderWorldTransformDirty| transform_dirty_view(x));
                let vnext = taken_roots.take(n + 1).map_values(|x: RenderWorldTransformDirty| transform_dirty_view(x));
                assert(vnext.drop_last() =~= vprev);
                assert(vnext.last() == transform_dirty_view(d));
                assert(kept@.map_values(|x: RenderWorldTransformDirty| transform_dirty_view(x))
                    =~= if d.space_id.0 != id.0 {
                        before.map_values(|x: RenderWorldTransformDirty| transform_dirty_view(x)).push(transform_dirty_view(d))
                    } else {
                        before.map_values(|x: RenderWorldTransformDirty| transform_dirty_view(x))
                    });
            }
        }
        proof {
            assert(taken_roots.take(taken_roots.len() as int) =~= taken_roots);
        }
        self.dirty_transform_roots = kept;
        proof {
            assert forall|k: (i32, bool, usize)| #[trigger] self@.dirty_bounds.contains(k) implies self@.spaces.contains(k.0) by {
                assert(old(self)@.dirty_bounds.contains(k));
            }
            assert(self@.dirty_renderers =~= spec_remove_space(old(self)@, id.0).dirty_renderers);
            assert(self@.dirty_bounds =~= spec_remove_space(old(self)@, id.0).dirty_bounds);
            assert(self@.transform_roots =~= spec_remove_space(old(self)@, id.0).transform_roots);
        }
    }

    /// Records one renderer row dirty unless its whole space is already dirty.
    pub fn note_renderer_dirty(&mut self, dirty: RenderWorldRendererDirty)
        requires
            old(self).wf(),
        ensures
            final(self).wf(),
            final(self)@ == spec_note_renderer_dirty(old(self)@, spec_dirty_key(dirty.space_id, dirty.kind, dirty.renderable_index)),
            final(self).spaces == old(self).spaces,
            final(self).maintenance_stats == old(self).maintenance_stats,
    {
        if self.dirty_spaces.contains(dirty.space_id.0) {
            return;
        }
        let key = dirty_key(dirty.space_id, dirty.kind, dirty.renderable_index);
        self.dirty_renderers.insert(key);
        proof {
            Self::lemma_wf_frame(old(self), self);
        }
    }

    /// Records one renderer row for bounds refresh unless its whole space is already dirty; a
    /// space without retained storage is queued for a full rebuild instead.
    pub fn note_bounds_dirty(&mut self, dirty: RenderWorldBoundsDirty)
        requires
            old(self).wf(),
        ensures
            final(self).wf(),
            final(self)@ == spec_note_bounds_dirty(old(self)@, spec_dirty_key(dirty.space_id, dirty.kind, dirty.renderable_index)),
            final(self).spaces == old(self).spaces,
            final(self).maintenance_stats == old(self).maintenance_stats,
    {
        if self.dirty_spaces.contains(dirty.space_id.0) {
            return;
        }
        if !self.spaces.contains_key(dirty.space_id.0) {
            self.dirty_spaces.insert(dirty.space_id.0);
            proof {
                Self::lemma_wf_frame(old(self), self);
            }
            return;
        }
        let key = dirty_key(dirty.space_id, dirty.kind, dirty.renderable_index);
        self.dirty_bounds_renderers.insert(key);
        proof {
            assert forall|k: (i32, bool, usize)| #[trigger] self@.dirty_bounds.contains(k) implies self@.spaces.contains(k.0) by {
                if k != key {
                    assert(old(self)@.dirty_bounds.contains(k));
                }
            }
        }
    }

    /// Records a material override dirty event for this render context.
    pub fn note_material_override_dirty(&mut self, dirty: RenderWorldMaterialOverrideDirty)
        requires
            old(self).wf(),
        ensures
            final(self).wf(),
            final(self)@ == spec_note_material_override_dirty(old(self)@, dirty),
            final(self).spaces == old(self).spaces,
            final(self).maintenance_stats == old(self).maintenance_stats,
    {
        if self.context_invariant {
            return;
        }
        if dirty.context != self.prepared.render_context() {
            return;
        }
        self.pending_material_dirty_count = self.pending_material_dirty_count.saturating_add(1);
        proof {
            Self::lemma_wf_frame(old(self), self);
        }
        match dirty.target {
            MeshRendererOverrideTarget::Static(index) => {
                if index >= 0 {
                    self.note_renderer_dirty(RenderWorldRendererDirty {
                        space_id: dirty.space_id,
                        kind: RenderWorldRendererKind::Static,
                        renderable_index: index as usize,
                    });
                } else {
                    self.dirty_spaces.insert(dirty.space_id.0);
                    proof {
                        Self::lemma_wf_frame(old(self), self);
                    }
                }
            },
            MeshRendererOverrideTarget::Skinned(index) => {
                if index >= 0 {
                    self.note_renderer_dirty(RenderWorldRendererDirty {
                        space_id: dirty.space_id,
                        kind: RenderWorldRendererKind::Skinned,
                        renderable_index: index as usize,
                    });
                } else {
                    self.dirty_spaces.insert(dirty.space_id.0);
                    proof {
                        Self::lemma_wf_frame(old(self), self);
                    }
                }
            },
            MeshRendererOverrideTarget::Unknown => {
                self.dirty_spaces.insert(dirty.space_id.0);
                proof {
                    Self::lemma_wf_frame(old(self), self);
                }
            },
        }
    }
}

impl Default for RenderWorld {
    /// An empty render world for the default render context.
    fn default() -> (r: Self)
        ensures
            r.wf(),
            r@ == spec_new_render_world(r.prepared, false),
            r.prepared.tables_match(),
            r.prepared.render_context == RenderingContext(0),
            !r.prepared.context_invariant,
            r.prepared.draws@.len() == 0,
    {
        Self::new(RenderingContext(0))
    }
}

/// State of a freshly created render world.
pub open spec fn spec_new_render_world(prepared: FramePreparedRenderables, context_invariant: bool) -> RenderWorldDirtyModel {
    RenderWorldDirtyModel {
        spaces: Set::empty(),
        dirty_spaces: Set::empty(),
        dirty_renderers: Set::empty(),
        dirty_bounds: Set::empty(),
        transform_roots: Seq::empty(),
        dirty_mesh_assets: Set::empty(),
        particle_snapshot_dirty: false,
        full_rebuild_requested: true,
        mesh_pool_generation: 0,
        context_invariant,
        render_context: prepared.render_context,
        pending_topology: 0,
        pending_material: 0,
        pending_transform_only: 0,
        pending_mesh_asset: 0,
        prepared,
    }
}

/// Marks `ids[0..n)` as needing a full rebuild.
pub open spec fn fold_mark_spaces(m: RenderWorldDirtyModel, ids: Seq<RenderSpaceId>, n: int) -> RenderWorldDirtyModel
    decreases n,
{
    if n <= 0 {
        m
    } else {
        let p = fold_mark_spaces(m, ids, n - 1);
        RenderWorldDirtyModel { dirty_spaces: p.dirty_spaces.insert(ids[n - 1].0), ..p }
    }
}

/// Records `ds[0..n)` as renderer dirties, counting each as a topology event.
pub open spec fn fold_renderer_dirties(m: RenderWorldDirtyModel, ds: Seq<RenderWorldRendererDirty>, n: int) -> RenderWorldDirtyModel
    decreases n,
{
    if n <= 0 {
        m
    } else {
        let p = fold_renderer_dirties(m, ds, n - 1);
        let d = ds[n - 1];
        let q = spec_note_renderer_dirty(p, spec_dirty_key(d.space_id, d.kind, d.renderable_index));
        RenderWorldDirtyModel { pending_topology: sat_inc(q.pending_topology), ..q }
    }
}

/// Records `ds[0..n)` as bounds dirties, counting each as a transform-only event.
pub open spec fn fold_bounds_dirties(m: RenderWorldDirtyModel, ds: Seq<RenderWorldBoundsDirty>, n: int) -> RenderWorldDirtyModel
    decreases n,
{
    if n <= 0 {
        m
    } else {
        let p = fold_bounds_dirties(m, ds, n - 1);
        let d = ds[n - 1];
        let q = spec_note_bounds_dirty(p, spec_dirty_key(d.space_id, d.kind, d.renderable_index));
        RenderWorldDirtyModel { pending_transform_only: sat_inc(q.pending_transform_only), ..q }
    }
}

/// Records the material override dirties `ds[0..n)`.
pub open spec fn fold_material_dirties(m: RenderWorldDirtyModel, ds: Seq<RenderWorldMaterialOverrideDirty>, n: int) -> RenderWorldDirtyModel
    decreases n,
{
    if n <= 0 {
        m
    } else {
        spec_note_material_override_dirty(fold_material_dirties(m, ds, n - 1), ds[n - 1])
    }
}

/// Removes the spaces `ids[0..n)`.
pub open spec fn fold_remove_spaces(m: RenderWorldDirtyModel, ids: Seq<RenderSpaceId>, n: int) -> RenderWorldDirtyModel
    decreases n,
{
    if n <= 0 {
        m
    } else {
        spec_remove_space(fold_remove_spaces(m, ids, n - 1), ids[n - 1].0)
    }
}

/// Dirty state after one scene apply: the fine report when it carries anything (full spaces,
/// renderer rows, bounds rows, deferred transform roots, material overrides, in that order),
/// else the changed spaces; then removed spaces are dropped and, if any, a full rebuild is requested.
pub open spec fn spec_note_scene_apply_report(m: RenderWorldDirtyModel, r: SceneApplyReport) -> RenderWorldDirtyModel {
    let fine = r.render_world_dirty;
    let marked = if !fine.spec_is_empty() {
        let a = fold_mark_spaces(m, fine.full_spaces@, fine.full_spaces@.len() as int);
        let b = fold_renderer_dirties(a, fine.renderers@, fine.renderers@.len() as int);
        let c = fold_bounds_dirties(b, fine.bounds@, fine.bounds@.len() as int);
        let d = RenderWorldDirtyModel {
            transform_roots: c.transform_roots + fine.transform_roots@.map_values(|x: RenderWorldTransformDirty| transform_dirty_view(x)),
            ..c
        };
        fold_material_dirties(d, fine.material_overrides@, fine.material_overrides@.len() as int)
    } else {
        fold_mark_spaces(m, r.changed_spaces@, r.changed_spaces@.len() as int)
    };
    let removed = fold_remove_spaces(marked, r.removed_spaces@, r.removed_spaces@.len() as int);
    if r.removed_spaces@.len() > 0 {
        RenderWorldDirtyModel { full_rebuild_requested: true, ..removed }
    } else {
        removed
    }
}

/// Copies a transform-root dirty record.
pub fn clone_transform_dirty(d: &RenderWorldTransformDirty) -> (r: RenderWorldTransformDirty)
    ensures
        transform_dirty_view(r) == transform_dirty_view(*d),
{
    let roots = d.root_node_ids.clone();
    assert(roots@ =~= d.root_node_ids@);
    RenderWorldTransformDirty { space_id: d.space_id, root_node_ids: roots }
}

impl RenderWorld {
    /// Marks one space as needing a full rebuild.
    fn mark_space_dirty(&mut self, id: RenderSpaceId)
        requires
            old(self).wf(),
        ensures
            final(self).wf(),
            final(self)@ == (RenderWorldDirtyModel { dirty_spaces: old(self)@.dirty_spaces.insert(id.0), ..old(self)@ }),
            final(self).spaces == old(self).spaces,
            final(self).maintenance_stats == old(self).maintenance_stats,
    {
        self.dirty_spaces.insert(id.0);
        proof {
            Self::lemma_wf_frame(old(self), self);
        }
    }

    /// Marks spaces or renderer records touched by a scene apply as needing maintenance.
    pub fn note_scene_apply_report(&mut self, report: &SceneApplyReport)
        requires
            old(self).wf(),
        ensures
            final(self).wf(),
            final(self)@ == spec_note_scene_apply_report(old(self)@, *report),
            final(self).storage_kept(old(self)),
            final(self).maintenance_stats == old(self).maintenance_stats,
    {
        let fine = &report.render_world_dirty;
        if !fine.is_empty() {
            let mut i: usize = 0;
            while i < fine.full_spaces.len()
                invariant
                    0 <= i <= fine.full_spaces@.len(),
                    self.wf(),
                    self@ == fold_mark_spaces(old(self)@, fine.full_spaces@, i as int),
                    self.spaces == old(self).spaces,
                    self.maintenance_stats == old(self).maintenance_stats,
                decreases fine.full_spaces@.len() - i,
            {
                self.mark_space_dirty(fine.full_spaces[i]);
                i = i + 1;
            }
            let ghost a = self@;
            let mut i: usize = 0;
            while i < fine.renderers.len()
                invariant
                    0 <= i <= fine.renderers@.len(),
                    self.wf(),
                    self@ == fold_renderer_dirties(a, fine.renderers@, i as int),
                    self.spaces == old(self).spaces,
                    self.maintenance_stats == old(self).maintenance_stats,
                decreases fine.renderers@.len() - i,
            {
                self.note_renderer_dirty(fine.renderers[i]);
                let ghost after_note = *self;
                self.pending_topology_dirty_count = self.pending_topology_dirty_count.saturating_add(1);
                proof {
                    Self::lemma_wf_frame(&after_note, self);
                }
                i = i + 1;
            }
            let ghost b = self@;
            let mut i: usize = 0;
            while i < fine.bounds.len()
                invariant
                    0 <= i <= fine.bounds@.len(),
                    self.wf(),
                    self@ == fold_bounds_dirties(b, fine.bounds@, i as int),
                    self.spaces == old(self).spaces,
                    self.maintenance_stats == old(self).maintenance_stats,
                decreases fine.bounds@.len() - i,
            {
                let ghost before = *self;
                self.note_bounds_dirty(fine.bounds[i]);
                let ghost after_note = *self;
                self.pending_transform_only_dirty_count = self.pending_transform_only_dirty_count.saturating_add(1);
                proof {
                    Self::lemma_wf_frame(&after_note, self);
                }
                i = i + 1;
            }
            let ghost c = self@;
            let mut i: usize = 0;
            while i < fine.transform_roots.len()
                invariant
                    0 <= i <= fine.transform_roots@.len(),
                    self.wf(),
                    self@ == (RenderWorldDirtyModel {
                        transform_roots: c.transform_roots + fine.transform_roots@.take(i as int).map_values(
                            |x: RenderWorldTransformDirty| transform_dirty_view(x),
                        ),
                        ..c
                    }),
                    self.spaces == old(self).spaces,
                    self.maintenance_stats == old(self).maintenance_stats,
                decreases fine.transform_roots@.len() - i,
            {
                let copy = clone_transform_dirty(&fine.transform_roots[i]);
                let ghost before = *self;
                self.dirty_transform_roots.push(copy);
                proof {
                    Self::lemma_wf_frame(&before, self);
                    let vprev = fine.transform_roots@.take(i as int).map_values(|x: RenderWorldTransformDirty| transform_dirty_view(x));
                    let vnext = fine.transform_roots@.take(i as int + 1).map_values(|x: RenderWorldTransformDirty| transform_dirty_view(x));
                    assert(vnext =~= vprev.push(transform_dirty_view(fine.transform_roots@[i as int])));
                    assert(self.dirty_transform_roots@.map_values(|x: RenderWorldTransformDirty| transform_dirty_view(x))
                        =~= before.dirty_transform_roots@.map_values(|x: RenderWorldTransformDirty| transform_dirty_view(x)).push(transform_dirty_view(copy)));
                    assert(self@.transform_roots =~= c.transform_roots + vnext);
                }
                i = i + 1;
            }
            proof {
                assert(fine.transform_roots@.take(fine.transform_roots@.len() as int) =~= fine.transform_roots@);
            }
            let ghost d = self@;
            let mut i: usize = 0;
            while i < fine.material_overrides.len()
                invariant
                    0 <= i <= fine.material_overrides@.len(),
                    self.wf(),
                    self@ == fold_material_dirties(d, fine.material_overrides@, i as int),
                    self.spaces == old(self).spaces,
                    self.maintenance_stats == old(self).maintenance_stats,
                decreases fine.material_overrides@.len() - i,
            {
                self.note_material_override_dirty(fine.material_overrides[i]);
                i = i + 1;
            }
        } else {
            let mut i: usize = 0;
            while i < report.changed_spaces.len()
                invariant
                    0 <= i <= report.changed_spaces@.len(),
                    self.wf(),
                    self@ == fold_mark_spaces(old(self)@, report.changed_spaces@, i as int),
                    self.spaces == old(self).spaces,
                    self.maintenance_stats == old(self).maintenance_stats,
                decreases report.changed_spaces@.len() - i,
            {
                self.mark_space_dirty(report.changed_spaces[i]);
                i = i + 1;
            }
        }
        let ghost marked = self@;
        let ghost marked_world = *self;
        let mut i: usize = 0;
        while i < report.removed_spaces.len()
            invariant
                0 <= i <= report.removed_spaces@.len(),
                self.wf(),
                self@ == fold_remove_spaces(marked, report.removed_spaces@, i as int),
                self.storage_kept(&marked_world),
                marked_world.spaces == old(self).spaces,
                self.maintenance_stats == old(self).maintenance_stats,
            decreases report.removed_spaces@.len() - i,
        {
            let ghost before = *self;
            self.remove_space(report.removed_spaces[i]);
            proof {
                assert forall|k: i32| #[trigger] self.spaces.spec_ids().contains(k) implies marked_world.spaces.spec_ids().contains(k)
                    && self.spaces.spec_get(k) == marked_world.spaces.spec_get(k) by {
                    assert(before.spaces.spec_ids().contains(k));
                }
            }
            i = i + 1;
        }
        if report.removed_spaces.len() > 0 {
            let ghost before = *self;
            self.full_rebuild_requested = true;
            proof {
                Self::lemma_wf_frame(&before, self);
            }
        }
    }

    /// Observes world-cache flushes after scene apply; flushes no longer dirty whole spaces.
    pub fn note_cache_flush_report(&self, report: &SceneCacheFlushReport) {
    }
}

/// Spaces whose world caches were flushed after a scene apply.
pub struct SceneCacheFlushReport {
    /// Flushed render spaces.
    pub flushed_spaces: Vec<RenderSpaceId>,
}

/// One mesh asset changed in the mesh pool.
#[derive(Clone, Copy, Debug, PartialEq, Eq, Structural)]
pub struct ChangedMeshAsset {
    /// Asset id.
    pub asset_id: i32,
    /// Whether the asset is a generated particle mesh, which only affects the prepared snapshot.
    pub is_generated_particle_mesh: bool,
}

/// Mesh-pool mutations since a consumer's last observed generation.
pub struct MeshPoolMutationDelta {
    /// Current mutation generation of the pool.
    pub current_generation: u64,
    /// The mutation log no longer covers the consumer's generation.
    pub requires_full_rebuild: bool,
    /// Assets changed since the consumer's generation.
    pub changed_assets: Vec<ChangedMeshAsset>,
}

/// Consumes `assets[0..n)`: generated particle meshes dirty the snapshot, other assets are
/// queued for reverse-index expansion.
pub open spec fn fold_changed_assets(m: RenderWorldDirtyModel, assets: Seq<ChangedMeshAsset>, n: int) -> RenderWorldDirtyModel
    decreases n,
{
    if n <= 0 {
        m
    } else {
        let p = fold_changed_assets(m, assets, n - 1);
        let a = assets[n - 1];
        if a.is_generated_particle_mesh {
            RenderWorldDirtyModel { particle_snapshot_dirty: true, ..p }
        } else {
            RenderWorldDirtyModel { dirty_mesh_assets: p.dirty_mesh_assets.insert(a.asset_id), ..p }
        }
    }
}

/// Dirty state after consuming a mesh-pool delta: nothing when the generation is unchanged, a full
/// rebuild when the log was truncated, else per-asset dirties.
pub open spec fn spec_note_mesh_pool_delta(m: RenderWorldDirtyModel, delta: MeshPoolMutationDelta) -> RenderWorldDirtyModel {
    if delta.current_generation == m.mesh_pool_generation {
        m
    } else if delta.requires_full_rebuild {
        RenderWorldDirtyModel { mesh_pool_generation: delta.current_generation, full_rebuild_requested: true, ..m }
    } else {
        fold_changed_assets(
            RenderWorldDirtyModel { mesh_pool_generation: delta.current_generation, ..m },
            delta.changed_assets@,
            delta.changed_assets@.len() as int,
        )
    }
}

/// Dirty state after a full rebuild request: storage kept only for scene spaces, every scene space
/// dirty, all finer dirty records dropped.
pub open spec fn spec_mark_all_scene_spaces_dirty(m: RenderWorldDirtyModel, scene: Set<i32>) -> RenderWorldDirtyModel {
    RenderWorldDirtyModel {
        spaces: m.spaces.intersect(scene),
        dirty_spaces: m.dirty_spaces.union(scene),
        dirty_renderers: Set::empty(),
        dirty_bounds: Set::empty(),
        transform_roots: Seq::empty(),
        dirty_mesh_assets: Set::empty(),
        ..m
    }
}

/// Ids of `ids[0..n)`.
pub open spec fn space_id_set(ids: Seq<RenderSpaceId>, n: int) -> Set<i32> {
    Set::new(|k: i32| exists|j: int| 0 <= j < n && (#[trigger] ids[j]).0 == k)
}

impl RenderWorld {
    /// Consumes mesh-pool mutations into mesh-asset dirty records or a full-rebuild request, and
    /// counts the consumed asset ids in `stats`.
    pub fn note_mesh_pool_delta(&mut self, delta: &MeshPoolMutationDelta, stats: &mut RenderWorldMaintenanceStats)
        requires
            old(self).wf(),
            old(stats).mesh_asset_invalidation_count + delta.changed_assets@.len() <= usize::MAX,
        ensures
            final(self).wf(),
            final(self)@ == spec_note_mesh_pool_delta(old(self)@, *delta),
            final(self).spaces == old(self).spaces,
            final(self).maintenance_stats == old(self).maintenance_stats,
            *final(stats) == (if delta.current_generation == old(self).mesh_pool_generation || delta.requires_full_rebuild {
                *old(stats)
            } else {
                RenderWorldMaintenanceStats {
                    mesh_asset_invalidation_count: (old(stats).mesh_asset_invalidation_count + delta.changed_assets@.len()) as usize,
                    ..*old(stats)
                }
            }),
    {
        if delta.current_generation == self.mesh_pool_generation {
            return;
        }
        let ghost start = *self;
        self.mesh_pool_generation = delta.current_generation;
        if delta.requires_full_rebuild {
            self.full_rebuild_requested = true;
            proof {
                Self::lemma_wf_frame(&start, self);
            }
            return;
        }
        stats.mesh_asset_invalidation_count = stats.mesh_asset_invalidation_count + delta.changed_assets.len();
        proof {
            Self::lemma_wf_frame(&start, self);
        }
        let ghost base = self@;
        let mut i: usize = 0;
        while i < delta.changed_assets.len()
            invariant
                0 <= i <= delta.changed_assets@.len(),
                self.wf(),
                self@ == fold_changed_assets(base, delta.changed_assets@, i as int),
                self.spaces == start.spaces,
                self.maintenance_stats == start.maintenance_stats,
            decreases delta.changed_assets@.len() - i,
        {
            let asset = delta.changed_assets[i];
            let ghost before = *self;
            if asset.is_generated_particle_mesh {
                self.particle_snapshot_dirty = true;
            } else {
                self.dirty_mesh_assets.insert(asset.asset_id);
            }
            proof {
                Self::lemma_wf_frame(&before, self);
            }
            i = i + 1;
        }
    }

    /// Marks every live scene space dirty for a full rebuild, dropping retained storage of spaces
    /// the scene no longer has and every finer dirty record.
    pub fn mark_all_scene_spaces_dirty(&mut self, scene_space_ids: &[RenderSpaceId])
        requires
            old(self).wf(),
        ensures
            final(self).wf(),
            final(self)@ == spec_mark_all_scene_spaces_dirty(old(self)@, space_id_set(scene_space_ids@, scene_space_ids@.len() as int)),
            final(self).storage_kept(old(self)),
            final(self).maintenance_stats == old(self).maintenance_stats,
    {
        let ghost scene = space_id_set(scene_space_ids@, scene_space_ids@.len() as int);
        let mut scene_set = IdSet::new();
        insert_space_ids(&mut scene_set, scene_space_ids);
        assert(id_set_contents(scene_set) =~= scene);
        let ghost start = *self;
        self.spaces.retain_in(&scene_set);
        insert_space_ids(&mut self.dirty_spaces, scene_space_ids);
        self.dirty_renderers.clear();
        self.dirty_bounds_renderers.clear();
        self.dirty_transform_roots.clear();
        self.dirty_mesh_assets.clear();
        proof {
            assert(self@.dirty_renderers =~= Set::<(i32, bool, usize)>::empty());
            assert(self@.dirty_bounds =~= Set::<(i32, bool, usize)>::empty());
            assert(self@.transform_roots =~= Seq::<(i32, Seq<i32>)>::empty());
        }
    }
}

/// Adds the ids of `ids` to `set`.
fn insert_space_ids(set: &mut IdSet, ids: &[RenderSpaceId])
    ensures
        id_set_contents(*final(set)) == id_set_contents(*old(set)).union(space_id_set(ids@, ids@.len() as int)),
{
    let mut q: usize = 0;
    while q < ids.len()
        invariant
            0 <= q <= ids@.len(),
            id_set_contents(*set) == id_set_contents(*old(set)).union(space_id_set(ids@, q as int)),
        decreases ids@.len() - q,
    {
        let ghost prev = id_set_contents(*set);
        set.insert(ids[q].0);
        proof {
            assert(id_set_contents(*set) =~= id_set_contents(*old(set)).union(space_id_set(ids@, q as int + 1))) by {
                assert forall|k: i32| #[trigger] space_id_set(ids@, q as int + 1).contains(k)
                    implies id_set_contents(*set).contains(k) by {
                    let j = choose|j: int| 0 <= j < q as int + 1 && (#[trigger] ids@[j]).0 == k;
                    if j < q {
                        assert(space_id_set(ids@, q as int).contains(k));
                    }
                }
                assert forall|k: i32| #[trigger] id_set_contents(*set).contains(k) && !id_set_contents(*old(set)).contains(k)
                    implies space_id_set(ids@, q as int + 1).contains(k) by {
                    if k != ids@[q as int].0 {
                        assert(prev.contains(k));
                        assert(space_id_set(ids@, q as int).contains(k));
                        let j = choose|j: int| 0 <= j < q as int && (#[trigger] ids@[j]).0 == k;
                    }
                }
            }
        }
        q = q + 1;
    }
}

impl RetainedSpaceTable {
    /// Drops the storage of every space not in `keep`.
    pub fn retain_in(&mut self, keep: &IdSet)
        requires
            old(self).wf(),
        ensures
            final(self).wf(),
            final(self).spec_ids() == old(self).spec_ids().intersect(id_set_contents(*keep)),
            forall|k: i32| #[trigger] final(self).spec_ids().contains(k) ==> final(self).spec_get(k) == old(self).spec_get(k),
    {
        let ghost keep_set = id_set_contents(*keep);
        let mut i: usize = self.len();
        while i > 0
            invariant
                0 <= i <= self.ids@.len(),
                self.wf(),
                keep_set == id_set_contents(*keep),
                forall|k: i32| #[trigger] self.spec_ids().contains(k) ==> old(self).spec_ids().contains(k)
                    && self.spec_get(k) == old(self).spec_get(k),
                forall|k: i32| old(self).spec_ids().contains(k) && keep_set.contains(k) ==> #[trigger] self.spec_ids().contains(k),
                forall|j: int| i <= j < self.ids@.len() ==> keep_set.contains(#[trigger] self.ids@[j]),
            decreases i,
        {
            i = i - 1;
            let id = self.id_at(i);
            if !keep.contains(id) {
                let ghost before = *self;
                let ghost slot = counter_map_contents(before.slots)[id];
                assert(slot == i);
                self.remove(id);
                proof {
                    assert forall|j: int| i <= j < self.ids@.len() implies keep_set.contains(#[trigger] self.ids@[j]) by {
                        if j == i as int {
                            assert(self.ids@[j] == before.ids@.last());
                            assert(keep_set.contains(before.ids@[before.ids@.len() - 1]));
                        } else {
                            assert(self.ids@[j] == before.ids@[j]);
                        }
                    }
                    assert forall|k: i32| #[trigger] self.spec_ids().contains(k) implies old(self).spec_ids().contains(k)
                        && self.spec_get(k) == old(self).spec_get(k) by {
                        assert(before.spec_ids().contains(k));
                    }
                }
            }
        }
        proof {
            assert forall|k: i32| #[trigger] self.spec_ids().contains(k) implies keep_set.contains(k) by {
                let j = counter_map_contents(self.slots)[k] as int;
                assert(self.ids@[j] == k);
            }
            assert(self.spec_ids() =~= old(self).spec_ids().intersect(keep_set));
        }
    }
}

/// No retained storage, dirty record or deferred transform root names space `s`.
pub open spec fn space_absent(m: RenderWorldDirtyModel, s: i32) -> bool {
    &&& !m.spaces.contains(s)
    &&& !m.dirty_spaces.contains(s)
    &&& forall|k: (i32, bool, usize)| #[trigger] m.dirty_renderers.contains(k) ==> k.0 != s
    &&& forall|k: (i32, bool, usize)| #[trigger] m.dirty_bounds.contains(k) ==> k.0 != s
    &&& forall|e: (i32, Seq<i32>)| #[trigger] m.transform_roots.contains(e) ==> e.0 != s
}

/// Filtering transform roots keeps only elements of the input outside the space.
proof fn lemma_transform_roots_outside(t: Seq<(i32, Seq<i32>)>, id: i32)
    ensures
        forall|e: (i32, Seq<i32>)| #[trigger] transform_roots_outside(t, id).contains(e) ==> t.contains(e) && e.0 != id,
    decreases t.len(),
{
    if t.len() > 0 {
        lemma_transform_roots_outside(t.drop_last(), id);
        let rest = transform_roots_outside(t.drop_last(), id);
        assert forall|e: (i32, Seq<i32>)| #[trigger] transform_roots_outside(t, id).contains(e) implies t.contains(e) && e.0 != id by {
            if rest.contains(e) {
                let j = choose|j: int| 0 <= j < t.drop_last().len() && t.drop_last()[j] == e;
                assert(t[j] == e);
            } else {
                assert(e == t.last());
                assert(t[t.len() - 1] == e);
            }
        }
    }
}

/// Removing a space leaves it absent, and keeps every other space absent that already was.
proof fn lemma_remove_space_absent(m: RenderWorldDirtyModel, id: i32, s: i32)
    requires
        id == s || space_absent(m, s),
    ensures
        space_absent(spec_remove_space(m, id), s),
{
    lemma_transform_roots_outside(m.transform_roots, id);
    let r = spec_remove_space(m, id);
    assert forall|e: (i32, Seq<i32>)| #[trigger] r.transform_roots.contains(e) implies e.0 != s by {
        assert(m.transform_roots.contains(e));
    }
}

/// After removing `ids[0..n)`, each of those spaces is absent.
proof fn lemma_fold_remove_absent(m: RenderWorldDirtyModel, ids: Seq<RenderSpaceId>, n: int, s: i32)
    requires
        exists|j: int| 0 <= j < n && (#[trigger] ids[j]).0 == s,
    ensures
        space_absent(fold_remove_spaces(m, ids, n), s),
    decreases n,
{
    let p = fold_remove_spaces(m, ids, n - 1);
    if ids[n - 1].0 != s {
        lemma_fold_remove_absent(m, ids, n - 1, s);
    }
    lemma_remove_space_absent(p, ids[n - 1].0, s);
}

/// A space removed by a scene apply is gone from the render world afterwards, whatever else the
/// same report says about it, and a full rebuild is requested.
pub proof fn lemma_removed_space_wins(m: RenderWorldDirtyModel, r: SceneApplyReport, s: RenderSpaceId)
    requires
        r.removed_spaces@.contains(s),
    ensures
        space_absent(spec_note_scene_apply_report(m, r), s.0),
        spec_note_scene_apply_report(m, r).full_rebuild_requested,
{
    let j = choose|j: int| 0 <= j < r.removed_spaces@.len() && r.removed_spaces@[j] == s;
    let fine = r.render_world_dirty;
    let marked = if !fine.spec_is_empty() {
        let a = fold_mark_spaces(m, fine.full_spaces@, fine.full_spaces@.len() as int);
        let b = fold_renderer_dirties(a, fine.renderers@, fine.renderers@.len() as int);
        let c = fold_bounds_dirties(b, fine.bounds@, fine.bounds@.len() as int);
        let d = RenderWorldDirtyModel {
            transform_roots: c.transform_roots + fine.transform_roots@.map_values(|x: RenderWorldTransformDirty| transform_dirty_view(x)),
            ..c
        };
        fold_material_dirties(d, fine.material_overrides@, fine.material_overrides@.len() as int)
    } else {
        fold_mark_spaces(m, r.changed_spaces@, r.changed_spaces@.len() as int)
    };
    assert(r.removed_spaces@[j].0 == s.0);
    lemma_fold_remove_absent(marked, r.removed_spaces@, r.removed_spaces@.len() as int, s.0);
}

/// Marking spaces dirty makes each of them dirty.
proof fn lemma_fold_mark_contains(m: RenderWorldDirtyModel, ids: Seq<RenderSpaceId>, n: int, s: i32)
    requires
        exists|j: int| 0 <= j < n && (#[trigger] ids[j]).0 == s,
    ensures
        fold_mark_spaces(m, ids, n).dirty_spaces.contains(s),
    decreases n,
{
    if ids[n - 1].0 != s {
        lemma_fold_mark_contains(m, ids, n - 1, s);
    }
}

/// Removing spaces other than `s` keeps `s` dirty.
proof fn lemma_fold_remove_keeps_dirty(m: RenderWorldDirtyModel, ids: Seq<RenderSpaceId>, n: int, s: i32)
    requires
        m.dirty_spaces.contains(s),
        forall|j: int| 0 <= j < n ==> (#[trigger] ids[j]).0 != s,
    ensures
        fold_remove_spaces(m, ids, n).dirty_spaces.contains(s),
    decreases n,
{
    if n > 0 {
        lemma_fold_remove_keeps_dirty(m, ids, n - 1, s);
    }
}

/// Without a fine-grained report, every changed space that the same report does not remove is
/// marked for a full rebuild.
pub proof fn lemma_changed_space_marked_without_fine_report(m: RenderWorldDirtyModel, r: SceneApplyReport, s: RenderSpaceId)
    requires
        r.render_world_dirty.spec_is_empty(),
        r.changed_spaces@.contains(s),
        !r.removed_spaces@.contains(s),
    ensures
        spec_note_scene_apply_report(m, r).dirty_spaces.contains(s.0),
{
    let j = choose|j: int| 0 <= j < r.changed_spaces@.len() && r.changed_spaces@[j] == s;
    assert(r.changed_spaces@[j].0 == s.0);
    lemma_fold_mark_contains(m, r.changed_spaces@, r.changed_spaces@.len() as int, s.0);
    let marked = fold_mark_spaces(m, r.changed_spaces@, r.changed_spaces@.len() as int);
    assert forall|q: int| 0 <= q < r.removed_spaces@.len() implies (#[trigger] r.removed_spaces@[q]).0 != s.0 by {
        if r.removed_spaces@[q].0 == s.0 {
            assert(r.removed_spaces@[q] == s);
        }
    }
    lemma_fold_remove_keeps_dirty(marked, r.removed_spaces@, r.removed_spaces@.len() as int, s.0);
}

/// With a fine-grained report, the coarse list of changed spaces has no effect.
pub proof fn lemma_fine_report_ignores_changed_spaces(m: RenderWorldDirtyModel, r1: SceneApplyReport, r2: SceneApplyReport)
    requires
        !r1.render_world_dirty.spec_is_empty(),
        r1.render_world_dirty.full_spaces@ == r2.render_world_dirty.full_spaces@,
        r1.render_world_dirty.renderers@ == r2.render_world_dirty.renderers@,
        r1.render_world_dirty.bounds@ == r2.render_world_dirty.bounds@,
        r1.render_world_dirty.transform_roots@ == r2.render_world_dirty.transform_roots@,
        r1.render_world_dirty.material_overrides@ == r2.render_world_dirty.material_overrides@,
        r1.removed_spaces@ == r2.removed_spaces@,
    ensures
        spec_note_scene_apply_report(m, r1) == spec_note_scene_apply_report(m, r2),
{
}

} // verus!
