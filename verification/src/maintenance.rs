//! Retained render-world maintenance counters and the fan-out admission rules of its passes.
use vstd::prelude::*;

use crate::parallel::{admits_parallel, FrameCpuWorkload, FrameParallelPolicy, ParallelAdmission};

verus! {

/// Transform-root dirty records assigned to one expansion worker.
pub const DIRTY_ROOT_EXPANSION_PARALLEL_CHUNK_ITEMS: usize = 1;
/// Retained node-index entries required before one root expansion scans in parallel.
pub const DIRTY_ROOT_NODE_SCAN_PARALLEL_MIN_NODES: usize = 128;
/// Retained node-index entries assigned to one root-expansion scan task.
pub const DIRTY_ROOT_NODE_SCAN_PARALLEL_CHUNK_NODES: usize = 64;
/// Render spaces assigned to one mesh-asset dirty expansion worker.
pub const MESH_ASSET_DIRTY_EXPANSION_PARALLEL_CHUNK_SPACES: usize = 1;
/// Dirty render spaces assigned to one retained-cache refresh worker.
pub const DIRTY_SPACE_REFRESH_PARALLEL_CHUNK_SPACES: usize = 1;
/// Prepared-snapshot copy tasks assigned to one rebuild worker.
pub const SNAPSHOT_REBUILD_PARALLEL_CHUNK_TASKS: usize = 1;
/// Estimated dirty renderer/template work required before retained cache refresh fans out.
pub const DIRTY_SPACE_REFRESH_PARALLEL_MIN_WORK_UNITS: usize = 64;
/// Retained draw templates targeted for one prepared-snapshot rebuild task.
pub const SNAPSHOT_REBUILD_PARALLEL_TARGET_CHUNK_TEMPLATES: usize = 256;
/// Retained draw-template count required before snapshot rebuild fan-out is considered.
pub const SNAPSHOT_REBUILD_PARALLEL_MIN_DRAWS: usize = 512;

/// Admission for transform-root dirty expansion: one root per task.
pub fn transform_root_expansion_admission(policy: FrameParallelPolicy, root_count: usize) -> (r: ParallelAdmission)
    ensures
        r == (if admits_parallel(policy.worker_count as int, root_count as int, DIRTY_ROOT_EXPANSION_PARALLEL_CHUNK_ITEMS as int) {
            ParallelAdmission::Parallel { chunk_size: DIRTY_ROOT_EXPANSION_PARALLEL_CHUNK_ITEMS }
        } else {
            ParallelAdmission::Serial
        }),
{
    policy.admit_independent_items(FrameCpuWorkload::independent_items(root_count), DIRTY_ROOT_EXPANSION_PARALLEL_CHUNK_ITEMS)
}

/// Admission for a retained node-index scan: serial below the node floor, else 64 nodes per task.
pub fn transform_root_node_scan_admission(policy: FrameParallelPolicy, node_count: usize) -> (r: ParallelAdmission)
    ensures
        r == (if node_count >= DIRTY_ROOT_NODE_SCAN_PARALLEL_MIN_NODES && admits_parallel(
            policy.worker_count as int,
            node_count as int,
            DIRTY_ROOT_NODE_SCAN_PARALLEL_CHUNK_NODES as int,
        ) {
            ParallelAdmission::Parallel { chunk_size: DIRTY_ROOT_NODE_SCAN_PARALLEL_CHUNK_NODES }
        } else {
            ParallelAdmission::Serial
        }),
{
    if node_count < DIRTY_ROOT_NODE_SCAN_PARALLEL_MIN_NODES {
        return ParallelAdmission::Serial;
    }
    policy.admit_independent_items(FrameCpuWorkload::independent_items(node_count), DIRTY_ROOT_NODE_SCAN_PARALLEL_CHUNK_NODES)
}

/// Admission for mesh-asset dirty expansion: one space per task.
pub fn mesh_asset_expansion_admission(policy: FrameParallelPolicy, space_count: usize) -> (r: ParallelAdmission)
    ensures
        r == (if admits_parallel(policy.worker_count as int, space_count as int, MESH_ASSET_DIRTY_EXPANSION_PARALLEL_CHUNK_SPACES as int) {
            ParallelAdmission::Parallel { chunk_size: MESH_ASSET_DIRTY_EXPANSION_PARALLEL_CHUNK_SPACES }
        } else {
            ParallelAdmission::Serial
        }),
{
    policy.admit_independent_items(FrameCpuWorkload::independent_items(space_count), MESH_ASSET_DIRTY_EXPANSION_PARALLEL_CHUNK_SPACES)
}

/// Admission for dirty retained-cache refresh: serial below the work floor, else one space per task.
pub fn dirty_refresh_admission(policy: FrameParallelPolicy, space_count: usize, estimated_work_units: usize) -> (r: ParallelAdmission)
    ensures
        r == (if estimated_work_units >= DIRTY_SPACE_REFRESH_PARALLEL_MIN_WORK_UNITS && admits_parallel(
            policy.worker_count as int,
            space_count as int,
            DIRTY_SPACE_REFRESH_PARALLEL_CHUNK_SPACES as int,
        ) {
            ParallelAdmission::Parallel { chunk_size: DIRTY_SPACE_REFRESH_PARALLEL_CHUNK_SPACES }
        } else {
            ParallelAdmission::Serial
        }),
{
    if estimated_work_units < DIRTY_SPACE_REFRESH_PARALLEL_MIN_WORK_UNITS {
        return ParallelAdmission::Serial;
    }
    policy.admit_independent_items(FrameCpuWorkload::new(0, estimated_work_units, space_count), DIRTY_SPACE_REFRESH_PARALLEL_CHUNK_SPACES)
}

/// Admission for retained prepared-snapshot rebuild: serial below the draw floor, else one task per worker task.
pub fn snapshot_rebuild_admission(policy: FrameParallelPolicy, task_count: usize, retained_draw_count: usize) -> (r: ParallelAdmission)
    ensures
        r == (if retained_draw_count >= SNAPSHOT_REBUILD_PARALLEL_MIN_DRAWS && admits_parallel(
            policy.worker_count as int,
            task_count as int,
            SNAPSHOT_REBUILD_PARALLEL_CHUNK_TASKS as int,
        ) {
            ParallelAdmission::Parallel { chunk_size: SNAPSHOT_REBUILD_PARALLEL_CHUNK_TASKS }
        } else {
            ParallelAdmission::Serial
        }),
{
    if retained_draw_count < SNAPSHOT_REBUILD_PARALLEL_MIN_DRAWS {
        return ParallelAdmission::Serial;
    }
    policy.admit_independent_items(FrameCpuWorkload::new(0, retained_draw_count, task_count), SNAPSHOT_REBUILD_PARALLEL_CHUNK_TASKS)
}

/// Maintenance counters for backend-owned retained render-world caches.
#[derive(Clone, Copy, Debug, Default, PartialEq, Eq, Structural)]
pub struct RenderWorldMaintenanceStats {
    /// Renderer records dirtied by topology or renderer-state changes this frame.
    pub topology_dirty_count: usize,
    /// Renderer records dirtied by material override changes this frame.
    pub material_dirty_count: usize,
    /// Renderer records dirtied only by transform or bounds changes this frame.
    pub transform_only_dirty_count: usize,
    /// Unique transform-root node ids consumed while expanding deferred scene changes.
    pub transform_root_dirty_count: usize,
    /// Retained node-index entries scanned while expanding transform-root dirties.
    pub transform_root_scanned_node_count: usize,
    /// Renderer records found by transform-root dirty expansion.
    pub transform_root_expanded_renderer_count: usize,
    /// Transform-root dirties that covered an entire retained render space.
    pub transform_root_full_space_count: usize,
    /// Renderer records dirtied by mesh-asset mutations this frame.
    pub mesh_asset_dirty_renderer_count: usize,
    /// Renderer records whose retained templates were requested dirty this frame.
    pub dirty_renderer_count: usize,
    /// Renderer records whose retained bounds were requested dirty this frame.
    pub bounds_dirty_renderer_count: usize,
    /// Renderer records whose retained bounds were refreshed this frame.
    pub bounds_refreshed_renderer_count: usize,
    /// Renderer records actually refreshed this frame.
    pub refreshed_renderer_count: usize,
    /// Draw templates regenerated while refreshing dirty renderer records.
    pub refreshed_template_count: usize,
    /// Mesh asset ids consumed from the mesh-pool mutation log this frame.
    pub mesh_asset_invalidation_count: usize,
    /// Render spaces rebuilt through the full-space fallback this frame.
    pub full_space_rebuild_count: usize,
    /// Full render-world rebuild requests processed this frame.
    pub full_world_rebuild_count: usize,
    /// Prepared snapshots rebuilt only because generated particle meshes changed.
    pub particle_snapshot_rebuild_count: usize,
    /// Prepared-snapshot copy tasks built while rebuilding retained templates.
    pub snapshot_rebuild_task_count: usize,
    /// Retained draw templates considered while rebuilding prepared snapshots.
    pub snapshot_retained_draw_count: usize,
    /// Render spaces reused from the previous prepared snapshot during a partial rebuild.
    pub snapshot_reused_space_count: usize,
    /// Prepared spatial indexes rebuilt because run membership changed.
    pub spatial_rebuild_count: usize,
    /// Prepared spatial indexes refit because dynamic bounds changed.
    pub spatial_refit_count: usize,
    /// Retained draw templates currently cached after maintenance.
    pub retained_template_count: usize,
    /// Render-world caches serving contexts with no draw-prep overrides.
    pub context_invariant_count: usize,
    /// Frames where this render world proved its retained snapshot did not need rebuilding.
    pub steady_state_skip_count: usize,
}

impl RenderWorldMaintenanceStats {
    /// All counters zero.
    pub open spec fn spec_zero() -> Self {
        RenderWorldMaintenanceStats {
            topology_dirty_count: 0,
            material_dirty_count: 0,
            transform_only_dirty_count: 0,
            transform_root_dirty_count: 0,
            transform_root_scanned_node_count: 0,
            transform_root_expanded_renderer_count: 0,
            transform_root_full_space_count: 0,
            mesh_asset_dirty_renderer_count: 0,
            dirty_renderer_count: 0,
            bounds_dirty_renderer_count: 0,
            bounds_refreshed_renderer_count: 0,
            refreshed_renderer_count: 0,
            refreshed_template_count: 0,
            mesh_asset_invalidation_count: 0,
            full_space_rebuild_count: 0,
            full_world_rebuild_count: 0,
            particle_snapshot_rebuild_count: 0,
            snapshot_rebuild_task_count: 0,
            snapshot_retained_draw_count: 0,
            snapshot_reused_space_count: 0,
            spatial_rebuild_count: 0,
            spatial_refit_count: 0,
            retained_template_count: 0,
            context_invariant_count: 0,
            steady_state_skip_count: 0,
        }
    }

    /// Builds a zeroed counter set.
    pub fn zero() -> (r: Self)
        ensures
            r == Self::spec_zero(),
    {
        RenderWorldMaintenanceStats {
            topology_dirty_count: 0,
            material_dirty_count: 0,
            transform_only_dirty_count: 0,
            transform_root_dirty_count: 0,
            transform_root_scanned_node_count: 0,
            transform_root_expanded_renderer_count: 0,
            transform_root_full_space_count: 0,
            mesh_asset_dirty_renderer_count: 0,
            dirty_renderer_count: 0,
            bounds_dirty_renderer_count: 0,
            bounds_refreshed_renderer_count: 0,
            refreshed_renderer_count: 0,
            refreshed_template_count: 0,
            mesh_asset_invalidation_count: 0,
            full_space_rebuild_count: 0,
            full_world_rebuild_count: 0,
            particle_snapshot_rebuild_count: 0,
            snapshot_rebuild_task_count: 0,
            snapshot_retained_draw_count: 0,
            snapshot_reused_space_count: 0,
            spatial_rebuild_count: 0,
            spatial_refit_count: 0,
            retained_template_count: 0,
            context_invariant_count: 0,
            steady_state_skip_count: 0,
        }
    }
}


/// Profiling sample emitted for retained render-world maintenance.
#[derive(Clone, Copy, Debug, Default, PartialEq, Eq, Structural)]
pub struct RenderWorldMaintenanceProfileSample {
    /// Renderer records dirtied by topology or renderer-state changes this frame.
    pub topology_dirty_count: usize,
    /// Renderer records dirtied by material override changes this frame.
    pub material_dirty_count: usize,
    /// Renderer records dirtied only by transform or bounds changes this frame.
    pub transform_only_dirty_count: usize,
    /// Unique transform-root node ids consumed while expanding deferred scene changes.
    pub transform_root_dirty_count: usize,
    /// Retained node-index entries scanned while expanding transform-root dirties.
    pub transform_root_scanned_node_count: usize,
    /// Renderer records found by transform-root dirty expansion.
    pub transform_root_expanded_renderer_count: usize,
    /// Transform-root dirties that covered an entire retained render space.
    pub transform_root_full_space_count: usize,
    /// Renderer records dirtied by mesh-asset mutations this frame.
    pub mesh_asset_dirty_renderer_count: usize,
    /// Renderer records whose retained templates were requested dirty this frame.
    pub dirty_renderer_count: usize,
    /// Renderer records whose retained bounds were requested dirty this frame.
    pub bounds_dirty_renderer_count: usize,
    /// Renderer records whose retained bounds were refreshed this frame.
    pub bounds_refreshed_renderer_count: usize,
    /// Renderer records actually refreshed this frame.
    pub refreshed_renderer_count: usize,
    /// Draw templates regenerated while refreshing dirty renderer records.
    pub refreshed_template_count: usize,
    /// Mesh asset ids consumed from the mesh-pool mutation log this frame.
    pub mesh_asset_invalidation_count: usize,
    /// Full render-world rebuild requests processed this frame.
    pub full_world_rebuild_count: usize,
    /// Prepared snapshots rebuilt only because generated particle meshes changed.
    pub particle_snapshot_rebuild_count: usize,
    /// Prepared-snapshot copy tasks built while rebuilding retained templates.
    pub snapshot_rebuild_task_count: usize,
    /// Retained draw templates considered while rebuilding prepared snapshots.
    pub snapshot_retained_draw_count: usize,
    /// Render spaces reused from the previous prepared snapshot during a partial rebuild.
    pub snapshot_reused_space_count: usize,
    /// Prepared spatial indexes rebuilt because run membership changed.
    pub spatial_rebuild_count: usize,
    /// Prepared spatial indexes refit because dynamic bounds changed.
    pub spatial_refit_count: usize,
    /// Retained draw templates currently cached after maintenance.
    pub retained_template_count: usize,
    /// Render-world caches serving contexts with no draw-prep overrides.
    pub context_invariant_count: usize,
    /// Frames where this render world proved its retained snapshot did not need rebuilding.
    pub steady_state_skip_count: usize,
}

/// Field-wise sums of `a` and `b` fit in `usize`.
pub open spec fn accumulate_fits(a: RenderWorldMaintenanceStats, b: RenderWorldMaintenanceStats) -> bool {
    &&& a.topology_dirty_count + b.topology_dirty_count <= usize::MAX
    &&& a.material_dirty_count + b.material_dirty_count <= usize::MAX
    &&& a.transform_only_dirty_count + b.transform_only_dirty_count <= usize::MAX
    &&& a.transform_root_dirty_count + b.transform_root_dirty_count <= usize::MAX
    &&& a.transform_root_scanned_node_count + b.transform_root_scanned_node_count <= usize::MAX
    &&& a.transform_root_expanded_renderer_count + b.transform_root_expanded_renderer_count <= usize::MAX
    &&& a.transform_root_full_space_count + b.transform_root_full_space_count <= usize::MAX
    &&& a.mesh_asset_dirty_renderer_count + b.mesh_asset_dirty_renderer_count <= usize::MAX
    &&& a.dirty_renderer_count + b.dirty_renderer_count <= usize::MAX
    &&& a.bounds_dirty_renderer_count + b.bounds_dirty_renderer_count <= usize::MAX
    &&& a.bounds_refreshed_renderer_count + b.bounds_refreshed_renderer_count <= usize::MAX
    &&& a.refreshed_renderer_count + b.refreshed_renderer_count <= usize::MAX
    &&& a.refreshed_template_count + b.refreshed_template_count <= usize::MAX
    &&& a.mesh_asset_invalidation_count + b.mesh_asset_invalidation_count <= usize::MAX
    &&& a.full_space_rebuild_count + b.full_space_rebuild_count <= usize::MAX
    &&& a.full_world_rebuild_count + b.full_world_rebuild_count <= usize::MAX
    &&& a.particle_snapshot_rebuild_count + b.particle_snapshot_rebuild_count <= usize::MAX
    &&& a.snapshot_rebuild_task_count + b.snapshot_rebuild_task_count <= usize::MAX
    &&& a.snapshot_retained_draw_count + b.snapshot_retained_draw_count <= usize::MAX
    &&& a.snapshot_reused_space_count + b.snapshot_reused_space_count <= usize::MAX
    &&& a.spatial_rebuild_count + b.spatial_rebuild_count <= usize::MAX
    &&& a.spatial_refit_count + b.spatial_refit_count <= usize::MAX
    &&& a.retained_template_count + b.retained_template_count <= usize::MAX
    &&& a.context_invariant_count + b.context_invariant_count <= usize::MAX
    &&& a.steady_state_skip_count + b.steady_state_skip_count <= usize::MAX
}

/// `r` holds the field-wise sums of `a` and `b`.
pub open spec fn is_fieldwise_sum(r: RenderWorldMaintenanceStats, a: RenderWorldMaintenanceStats, b: RenderWorldMaintenanceStats) -> bool {
    &&& r.topology_dirty_count == a.topology_dirty_count + b.topology_dirty_count
    &&& r.material_dirty_count == a.material_dirty_count + b.material_dirty_count
    &&& r.transform_only_dirty_count == a.transform_only_dirty_count + b.transform_only_dirty_count
    &&& r.transform_root_dirty_count == a.transform_root_dirty_count + b.transform_root_dirty_count
    &&& r.transform_root_scanned_node_count == a.transform_root_scanned_node_count + b.transform_root_scanned_node_count
    &&& r.transform_root_expanded_renderer_count == a.transform_root_expanded_renderer_count + b.transform_root_expanded_renderer_count
    &&& r.transform_root_full_space_count == a.transform_root_full_space_count + b.transform_root_full_space_count
    &&& r.mesh_asset_dirty_renderer_count == a.mesh_asset_dirty_renderer_count + b.mesh_asset_dirty_renderer_count
    &&& r.dirty_renderer_count == a.dirty_renderer_count + b.dirty_renderer_count
    &&& r.bounds_dirty_renderer_count == a.bounds_dirty_renderer_count + b.bounds_dirty_renderer_count
    &&& r.bounds_refreshed_renderer_count == a.bounds_refreshed_renderer_count + b.bounds_refreshed_renderer_count
    &&& r.refreshed_renderer_count == a.refreshed_renderer_count + b.refreshed_renderer_count
    &&& r.refreshed_template_count == a.refreshed_template_count + b.refreshed_template_count
    &&& r.mesh_asset_invalidation_count == a.mesh_asset_invalidation_count + b.mesh_asset_invalidation_count
    &&& r.full_space_rebuild_count == a.full_space_rebuild_count + b.full_space_rebuild_count
    &&& r.full_world_rebuild_count == a.full_world_rebuild_count + b.full_world_rebuild_count
    &&& r.particle_snapshot_rebuild_count == a.particle_snapshot_rebuild_count + b.particle_snapshot_rebuild_count
    &&& r.snapshot_rebuild_task_count == a.snapshot_rebuild_task_count + b.snapshot_rebuild_task_count
    &&& r.snapshot_retained_draw_count == a.snapshot_retained_draw_count + b.snapshot_retained_draw_count
    &&& r.snapshot_reused_space_count == a.snapshot_reused_space_count + b.snapshot_reused_space_count
    &&& r.spatial_rebuild_count == a.spatial_rebuild_count + b.spatial_rebuild_count
    &&& r.spatial_refit_count == a.spatial_refit_count + b.spatial_refit_count
    &&& r.retained_template_count == a.retained_template_count + b.retained_template_count
    &&& r.context_invariant_count == a.context_invariant_count + b.context_invariant_count
    &&& r.steady_state_skip_count == a.steady_state_skip_count + b.steady_state_skip_count
}

impl RenderWorldMaintenanceStats {
    /// Builds the profiling sample emitted for retained render-world maintenance.
    pub fn profile_sample(self) -> (r: RenderWorldMaintenanceProfileSample)
        ensures
            r.topology_dirty_count == self.topology_dirty_count,
            r.material_dirty_count == self.material_dirty_count,
            r.transform_only_dirty_count == self.transform_only_dirty_count,
            r.transform_root_dirty_count == self.transform_root_dirty_count,
            r.transform_root_scanned_node_count == self.transform_root_scanned_node_count,
            r.transform_root_expanded_renderer_count == self.transform_root_expanded_renderer_count,
            r.transform_root_full_space_count == self.transform_root_full_space_count,
            r.mesh_asset_dirty_renderer_count == self.mesh_asset_dirty_renderer_count,
            r.dirty_renderer_count == self.dirty_renderer_count,
            r.bounds_dirty_renderer_count == self.bounds_dirty_renderer_count,
            r.bounds_refreshed_renderer_count == self.bounds_refreshed_renderer_count,
            r.refreshed_renderer_count == self.refreshed_renderer_count,
            r.refreshed_template_count == self.refreshed_template_count,
            r.mesh_asset_invalidation_count == self.mesh_asset_invalidation_count,
            r.full_world_rebuild_count == self.full_world_rebuild_count,
            r.particle_snapshot_rebuild_count == self.particle_snapshot_rebuild_count,
            r.snapshot_rebuild_task_count == self.snapshot_rebuild_task_count,
            r.snapshot_retained_draw_count == self.snapshot_retained_draw_count,
            r.snapshot_reused_space_count == self.snapshot_reused_space_count,
            r.spatial_rebuild_count == self.spatial_rebuild_count,
            r.spatial_refit_count == self.spatial_refit_count,
            r.retained_template_count == self.retained_template_count,
            r.context_invariant_count == self.context_invariant_count,
            r.steady_state_skip_count == self.steady_state_skip_count,
    {
        RenderWorldMaintenanceProfileSample {
            topology_dirty_count: self.topology_dirty_count,
            material_dirty_count: self.material_dirty_count,
            transform_only_dirty_count: self.transform_only_dirty_count,
            transform_root_dirty_count: self.transform_root_dirty_count,
            transform_root_scanned_node_count: self.transform_root_scanned_node_count,
            transform_root_expanded_renderer_count: self.transform_root_expanded_renderer_count,
            transform_root_full_space_count: self.transform_root_full_space_count,
            mesh_asset_dirty_renderer_count: self.mesh_asset_dirty_renderer_count,
            dirty_renderer_count: self.dirty_renderer_count,
            bounds_dirty_renderer_count: self.bounds_dirty_renderer_count,
            bounds_refreshed_renderer_count: self.bounds_refreshed_renderer_count,
            refreshed_renderer_count: self.refreshed_renderer_count,
            refreshed_template_count: self.refreshed_template_count,
            mesh_asset_invalidation_count: self.mesh_asset_invalidation_count,
            full_world_rebuild_count: self.full_world_rebuild_count,
            particle_snapshot_rebuild_count: self.particle_snapshot_rebuild_count,
            snapshot_rebuild_task_count: self.snapshot_rebuild_task_count,
            snapshot_retained_draw_count: self.snapshot_retained_draw_count,
            snapshot_reused_space_count: self.snapshot_reused_space_count,
            spatial_rebuild_count: self.spatial_rebuild_count,
            spatial_refit_count: self.spatial_refit_count,
            retained_template_count: self.retained_template_count,
            context_invariant_count: self.context_invariant_count,
            steady_state_skip_count: self.steady_state_skip_count,
        }
    }

    /// Adds another render world's counters into this aggregate.
    pub fn accumulate(&mut self, other: Self)
        requires
            accumulate_fits(*old(self), other),
        ensures
            is_fieldwise_sum(*final(self), *old(self), other),
    {
        self.topology_dirty_count = self.topology_dirty_count + other.topology_dirty_count;
        self.material_dirty_count = self.material_dirty_count + other.material_dirty_count;
        self.transform_only_dirty_count = self.transform_only_dirty_count + other.transform_only_dirty_count;
        self.transform_root_dirty_count = self.transform_root_dirty_count + other.transform_root_dirty_count;
        self.transform_root_scanned_node_count = self.transform_root_scanned_node_count + other.transform_root_scanned_node_count;
        self.transform_root_expanded_renderer_count = self.transform_root_expanded_renderer_count + other.transform_root_expanded_renderer_count;
        self.transform_root_full_space_count = self.transform_root_full_space_count + other.transform_root_full_space_count;
        self.mesh_asset_dirty_renderer_count = self.mesh_asset_dirty_renderer_count + other.mesh_asset_dirty_renderer_count;
        self.dirty_renderer_count = self.dirty_renderer_count + other.dirty_renderer_count;
        self.bounds_dirty_renderer_count = self.bounds_dirty_renderer_count + other.bounds_dirty_renderer_count;
        self.bounds_refreshed_renderer_count = self.bounds_refreshed_renderer_count + other.bounds_refreshed_renderer_count;
        self.refreshed_renderer_count = self.refreshed_renderer_count + other.refreshed_renderer_count;
        self.refreshed_template_count = self.refreshed_template_count + other.refreshed_template_count;
        self.mesh_asset_invalidation_count = self.mesh_asset_invalidation_count + other.mesh_asset_invalidation_count;
        self.full_space_rebuild_count = self.full_space_rebuild_count + other.full_space_rebuild_count;
        self.full_world_rebuild_count = self.full_world_rebuild_count + other.full_world_rebuild_count;
        self.particle_snapshot_rebuild_count = self.particle_snapshot_rebuild_count + other.particle_snapshot_rebuild_count;
        self.snapshot_rebuild_task_count = self.snapshot_rebuild_task_count + other.snapshot_rebuild_task_count;
        self.snapshot_retained_draw_count = self.snapshot_retained_draw_count + other.snapshot_retained_draw_count;
        self.snapshot_reused_space_count = self.snapshot_reused_space_count + other.snapshot_reused_space_count;
        self.spatial_rebuild_count = self.spatial_rebuild_count + other.spatial_rebuild_count;
        self.spatial_refit_count = self.spatial_refit_count + other.spatial_refit_count;
        self.retained_template_count = self.retained_template_count + other.retained_template_count;
        self.context_invariant_count = self.context_invariant_count + other.context_invariant_count;
        self.steady_state_skip_count = self.steady_state_skip_count + other.steady_state_skip_count;
    }
}

/// Accumulation is order-independent: summing `b` then `c` equals summing `c` then `b`.
pub proof fn lemma_accumulate_commutes(
    a: RenderWorldMaintenanceStats,
    b: RenderWorldMaintenanceStats,
    c: RenderWorldMaintenanceStats,
    ab: RenderWorldMaintenanceStats,
    abc: RenderWorldMaintenanceStats,
    ac: RenderWorldMaintenanceStats,
    acb: RenderWorldMaintenanceStats,
)
    requires
        is_fieldwise_sum(ab, a, b),
        is_fieldwise_sum(abc, ab, c),
        is_fieldwise_sum(ac, a, c),
        is_fieldwise_sum(acb, ac, b),
    ensures
        abc == acb,
{
}

} // verus!
