use renderide_prep::dirty_expansion::{
    cached_renderer_dirties_for_space, coalesce_transform_dirty_roots, SceneSpaceNodes, SceneSpaceTable,
};
use renderide_prep::maintenance::{
    dirty_refresh_admission, snapshot_rebuild_admission, RenderWorldMaintenanceStats,
    DIRTY_SPACE_REFRESH_PARALLEL_MIN_WORK_UNITS, SNAPSHOT_REBUILD_PARALLEL_MIN_DRAWS,
};
use renderide_prep::parallel::{FrameParallelPolicy, ParallelAdmission};
use renderide_prep::collections::RenderWorldRendererRef;
use renderide_prep::render_world::{
    ChangedMeshAsset, MeshPoolMutationDelta, MeshRendererOverrideTarget, RenderWorld, RenderWorldBoundsDirty,
    RenderWorldDirtyReport, RenderWorldMaterialOverrideDirty, RenderWorldRendererDirty, RenderWorldTransformDirty,
    RenderingContext, SceneApplyReport, SceneCacheFlushReport,
};
use renderide_prep::retained::{RenderWorldRendererTemplate, RenderWorldSpace};
use renderide_prep::shared::{RenderSpaceId, RenderWorldRendererKind};
use renderide_prep::transform_tree::transform_roots_cover_space;

fn empty_dirty_report() -> RenderWorldDirtyReport {
    RenderWorldDirtyReport {
        full_spaces: Vec::new(),
        renderers: Vec::new(),
        bounds: Vec::new(),
        transform_roots: Vec::new(),
        material_overrides: Vec::new(),
    }
}

fn report(changed: Vec<RenderSpaceId>, removed: Vec<RenderSpaceId>) -> SceneApplyReport {
    SceneApplyReport {
        frame_index: 7,
        submitted_spaces: changed.clone(),
        changed_spaces: changed,
        removed_spaces: removed,
        render_world_dirty: empty_dirty_report(),
    }
}

fn dirty_static(space_id: RenderSpaceId, renderable_index: usize) -> RenderWorldRendererDirty {
    RenderWorldRendererDirty { space_id, kind: RenderWorldRendererKind::Static, renderable_index }
}

fn static_ref(index: usize) -> RenderWorldRendererRef {
    RenderWorldRendererRef { kind: RenderWorldRendererKind::Static, index }
}

fn template(node_id: i32, mesh_asset_id: i32) -> RenderWorldRendererTemplate {
    RenderWorldRendererTemplate { node_id, mesh_asset_id, ..Default::default() }
}

#[test]
fn apply_report_marks_changed_spaces_dirty_without_fine_report() {
    let mut world = RenderWorld::default();
    world.note_scene_apply_report(&report(vec![RenderSpaceId(1), RenderSpaceId(2)], Vec::new()));

    assert!(world.dirty_spaces.contains(1));
    assert!(world.dirty_spaces.contains(2));
}

#[test]
fn apply_report_uses_fine_renderer_dirty_instead_of_changed_space() {
    let mut world = RenderWorld::default();
    let mut r = report(vec![RenderSpaceId(1)], Vec::new());
    r.render_world_dirty.renderers.push(dirty_static(RenderSpaceId(1), 3));
    world.note_scene_apply_report(&r);

    assert!(!world.dirty_spaces.contains(1));
    assert!(world.dirty_renderers.contains((1, false, 3)));
    assert_eq!(world.pending_topology_dirty_count, 1);
}

#[test]
fn removed_space_evicts_cached_rows_and_requests_snapshot_rebuild() {
    let mut world = RenderWorld::default();
    world.full_rebuild_requested = false;
    world.spaces.insert(3, RenderWorldSpace::new(true));
    world.dirty_spaces.insert(3);

    world.note_scene_apply_report(&report(Vec::new(), vec![RenderSpaceId(3)]));

    assert!(!world.spaces.contains_key(3));
    assert!(!world.dirty_spaces.contains(3));
    assert!(world.full_rebuild_requested);
}

#[test]
fn cache_flush_no_longer_marks_whole_space_dirty() {
    let world = RenderWorld::default();
    world.note_cache_flush_report(&SceneCacheFlushReport { flushed_spaces: vec![RenderSpaceId(9)] });

    assert!(!world.dirty_spaces.contains(9));
}

#[test]
fn removed_space_wins_over_changed_space_in_apply_report() {
    let mut world = RenderWorld::default();
    world.spaces.insert(5, RenderWorldSpace::new(true));

    world.note_scene_apply_report(&report(vec![RenderSpaceId(5)], vec![RenderSpaceId(5)]));

    assert!(!world.spaces.contains_key(5));
    assert!(!world.dirty_spaces.contains(5));
    assert!(world.full_rebuild_requested);
}

#[test]
fn mark_all_scene_spaces_dirty_retain_only_existing_scene_spaces() {
    let keep = RenderSpaceId(10);
    let mut world = RenderWorld::default();
    world.spaces.insert(keep.0, RenderWorldSpace::new(true));
    world.spaces.insert(11, RenderWorldSpace::new(true));
    world.dirty_renderers.insert((10, false, 0));

    world.mark_all_scene_spaces_dirty(&[keep]);

    assert!(world.spaces.contains_key(keep.0));
    assert!(!world.spaces.contains_key(11));
    assert!(world.dirty_spaces.contains(keep.0));
    assert!(world.dirty_renderers.is_empty());
}

#[test]
fn transform_roots_expand_to_descendant_renderer_records() {
    let space_id = RenderSpaceId(30);
    let scene = SceneSpaceTable::from_spaces(vec![SceneSpaceNodes { space_id, node_parents: vec![-1, 0] }]);
    let mut world = RenderWorld::default();
    let mut cached = RenderWorldSpace::new(true);
    cached.static_renderers.push(template(1, -1));
    cached.push_reverse_indexes_for_ref(static_ref(0));
    world.spaces.insert(space_id.0, cached);
    world.dirty_transform_roots.push(RenderWorldTransformDirty { space_id, root_node_ids: vec![0] });

    let stats = world.expand_dirty_transform_roots(&scene);

    assert!(world.dirty_renderers.is_empty());
    assert!(world.dirty_bounds_renderers.contains((30, false, 0)));
    assert!(world.dirty_transform_roots.is_empty());
    assert_eq!(stats.root_count, 1);
    assert_eq!(stats.full_space_root_count, 1);
    assert_eq!(stats.expanded_renderer_count, 1);
    assert_eq!(world.pending_transform_only_dirty_count, 1);
}

#[test]
fn transform_roots_of_subtree_scan_node_index() {
    let space_id = RenderSpaceId(31);
    let scene = SceneSpaceTable::from_spaces(vec![SceneSpaceNodes { space_id, node_parents: vec![-1, 0, 0, 1] }]);
    let mut world = RenderWorld::default();
    let mut cached = RenderWorldSpace::new(true);
    cached.static_renderers.push(template(3, -1));
    cached.static_renderers.push(template(2, -1));
    cached.push_reverse_indexes_for_ref(static_ref(0));
    cached.push_reverse_indexes_for_ref(static_ref(1));
    world.spaces.insert(space_id.0, cached);
    world.dirty_transform_roots.push(RenderWorldTransformDirty { space_id, root_node_ids: vec![1] });

    let stats = world.expand_dirty_transform_roots(&scene);

    assert!(world.dirty_bounds_renderers.contains((31, false, 0)));
    assert!(!world.dirty_bounds_renderers.contains((31, false, 1)));
    assert_eq!(stats.full_space_root_count, 0);
    assert_eq!(stats.scanned_node_count, 2);
    assert_eq!(stats.expanded_renderer_count, 1);
}

#[test]
fn transform_roots_of_removed_or_uncached_spaces_fall_back() {
    let live = RenderSpaceId(32);
    let scene = SceneSpaceTable::from_spaces(vec![SceneSpaceNodes { space_id: live, node_parents: vec![-1] }]);
    let mut world = RenderWorld::default();
    world.spaces.insert(33, RenderWorldSpace::new(true));
    world.dirty_transform_roots.push(RenderWorldTransformDirty { space_id: live, root_node_ids: vec![0] });
    world.dirty_transform_roots.push(RenderWorldTransformDirty { space_id: RenderSpaceId(33), root_node_ids: vec![0] });

    world.expand_dirty_transform_roots(&scene);

    assert!(world.dirty_spaces.contains(32));
    assert!(!world.spaces.contains_key(33));
}

#[test]
fn transform_root_space_cover_requires_single_scene_root() {
    assert!(transform_roots_cover_space(&[-1, 0, 1], &[0]));
    assert!(!transform_roots_cover_space(&[-1, -1], &[0]));
}

#[test]
fn mesh_asset_dirties_use_reverse_index() {
    let space_id = RenderSpaceId(40);
    let mut world = RenderWorld::default();
    let mut cached = RenderWorldSpace::new(true);
    cached.static_renderers.push(template(-1, 55));
    cached.push_reverse_indexes_for_ref(static_ref(0));
    world.spaces.insert(space_id.0, cached);
    world.dirty_mesh_assets.insert(55);

    world.expand_dirty_mesh_assets();

    assert!(world.dirty_renderers.contains((40, false, 0)));
    assert!(world.dirty_mesh_assets.is_empty());
    assert_eq!(world.pending_mesh_asset_dirty_renderer_count, 1);
}

#[test]
fn mesh_asset_dirties_skip_fully_dirty_spaces() {
    let mut world = RenderWorld::default();
    let mut cached = RenderWorldSpace::new(true);
    cached.static_renderers.push(template(-1, 55));
    cached.push_reverse_indexes_for_ref(static_ref(0));
    world.spaces.insert(41, cached);
    world.dirty_spaces.insert(41);
    world.dirty_mesh_assets.insert(55);

    world.expand_dirty_mesh_assets();

    assert!(world.dirty_renderers.is_empty());
    assert_eq!(world.pending_mesh_asset_dirty_renderer_count, 0);
}

#[test]
fn generated_particle_mesh_delta_marks_only_snapshot_dirty() {
    let mut world = RenderWorld::default();
    world.full_rebuild_requested = false;
    let mut stats = RenderWorldMaintenanceStats::zero();
    let delta = MeshPoolMutationDelta {
        current_generation: 1,
        requires_full_rebuild: false,
        changed_assets: vec![ChangedMeshAsset { asset_id: 44, is_generated_particle_mesh: true }],
    };

    world.note_mesh_pool_delta(&delta, &mut stats);

    assert_eq!(stats.mesh_asset_invalidation_count, 1);
    assert!(world.particle_snapshot_dirty);
    assert!(!world.full_rebuild_requested);
    assert!(world.dirty_mesh_assets.is_empty());
    assert_eq!(world.mesh_pool_generation, 1);
}

#[test]
fn mesh_pool_delta_queues_assets_or_requests_full_rebuild() {
    let mut world = RenderWorld::default();
    world.full_rebuild_requested = false;
    let mut stats = RenderWorldMaintenanceStats::zero();
    let unchanged = MeshPoolMutationDelta { current_generation: 0, requires_full_rebuild: true, changed_assets: Vec::new() };
    world.note_mesh_pool_delta(&unchanged, &mut stats);
    assert!(!world.full_rebuild_requested);

    let changed = MeshPoolMutationDelta {
        current_generation: 2,
        requires_full_rebuild: false,
        changed_assets: vec![ChangedMeshAsset { asset_id: 55, is_generated_particle_mesh: false }],
    };
    world.note_mesh_pool_delta(&changed, &mut stats);
    assert!(world.dirty_mesh_assets.contains(55));
    assert!(!world.particle_snapshot_dirty);

    let truncated = MeshPoolMutationDelta { current_generation: 3, requires_full_rebuild: true, changed_assets: Vec::new() };
    world.note_mesh_pool_delta(&truncated, &mut stats);
    assert!(world.full_rebuild_requested);
    assert_eq!(world.mesh_pool_generation, 3);
    assert_eq!(stats.mesh_asset_invalidation_count, 1);
}

#[test]
fn bounds_dirty_for_uncached_space_rebuilds_the_space() {
    let mut world = RenderWorld::default();
    world.spaces.insert(6, RenderWorldSpace::new(true));
    world.note_bounds_dirty(RenderWorldBoundsDirty { space_id: RenderSpaceId(6), kind: RenderWorldRendererKind::Skinned, renderable_index: 2 });
    world.note_bounds_dirty(RenderWorldBoundsDirty { space_id: RenderSpaceId(7), kind: RenderWorldRendererKind::Static, renderable_index: 0 });

    assert!(world.dirty_bounds_renderers.contains((6, true, 2)));
    assert!(!world.dirty_bounds_renderers.contains((7, false, 0)));
    assert!(world.dirty_spaces.contains(7));
}

#[test]
fn material_override_dirties_follow_render_context() {
    let mut world = RenderWorld::new(RenderingContext(1));
    let resolved = RenderWorldMaterialOverrideDirty {
        space_id: RenderSpaceId(8),
        context: RenderingContext(1),
        target: MeshRendererOverrideTarget::Skinned(4),
    };
    let other_context = RenderWorldMaterialOverrideDirty { context: RenderingContext(2), ..resolved };
    let unresolved = RenderWorldMaterialOverrideDirty { target: MeshRendererOverrideTarget::Static(-1), ..resolved };

    world.note_material_override_dirty(other_context);
    assert_eq!(world.pending_material_dirty_count, 0);
    world.note_material_override_dirty(resolved);
    assert!(world.dirty_renderers.contains((8, true, 4)));
    world.note_material_override_dirty(unresolved);
    assert!(world.dirty_spaces.contains(8));
    assert_eq!(world.pending_material_dirty_count, 2);

    let mut invariant = RenderWorld::new_context_invariant(RenderingContext(1));
    invariant.note_material_override_dirty(resolved);
    assert_eq!(invariant.pending_material_dirty_count, 0);
    assert!(invariant.dirty_renderers.is_empty());
}

#[test]
fn renderer_dirty_is_dropped_for_fully_dirty_space() {
    let mut world = RenderWorld::default();
    world.dirty_spaces.insert(9);
    world.note_renderer_dirty(dirty_static(RenderSpaceId(9), 0));
    assert!(world.dirty_renderers.is_empty());
}

#[test]
fn remove_space_drops_its_deferred_transform_roots() {
    let mut world = RenderWorld::default();
    world.dirty_transform_roots.push(RenderWorldTransformDirty { space_id: RenderSpaceId(1), root_node_ids: vec![0] });
    world.dirty_transform_roots.push(RenderWorldTransformDirty { space_id: RenderSpaceId(2), root_node_ids: vec![3] });
    world.dirty_bounds_renderers.insert((2, false, 1));
    world.spaces.insert(2, RenderWorldSpace::new(true));

    world.remove_space(RenderSpaceId(2));

    assert_eq!(world.dirty_transform_roots.len(), 1);
    assert_eq!(world.dirty_transform_roots[0].space_id, RenderSpaceId(1));
    assert!(world.dirty_bounds_renderers.is_empty());
}

#[test]
fn coalesce_groups_roots_by_space_in_first_seen_order() {
    let roots = vec![
        RenderWorldTransformDirty { space_id: RenderSpaceId(2), root_node_ids: vec![5, 1] },
        RenderWorldTransformDirty { space_id: RenderSpaceId(1), root_node_ids: vec![4] },
        RenderWorldTransformDirty { space_id: RenderSpaceId(2), root_node_ids: vec![1, 7, 5] },
    ];

    let out = coalesce_transform_dirty_roots(roots);

    assert_eq!(out.len(), 2);
    assert_eq!(out[0].space_id, RenderSpaceId(2));
    assert_eq!(out[0].root_node_ids, vec![5, 1, 7]);
    assert_eq!(out[1].space_id, RenderSpaceId(1));
    assert_eq!(out[1].root_node_ids, vec![4]);
}

#[test]
fn cached_renderer_dirties_skip_detached_rows() {
    let mut cached = RenderWorldSpace::new(true);
    cached.static_renderers.push(template(0, 1));
    cached.static_renderers.push(template(-1, 1));
    cached.skinned_renderers.push(template(2, 1));

    let dirties = cached_renderer_dirties_for_space(RenderSpaceId(3), &cached);

    assert_eq!(
        dirties,
        vec![
            dirty_static(RenderSpaceId(3), 0),
            RenderWorldRendererDirty { space_id: RenderSpaceId(3), kind: RenderWorldRendererKind::Skinned, renderable_index: 0 },
        ]
    );
}

#[test]
fn dirty_refresh_parallelism_requires_enough_spaces_and_work_units() {
    let policy = FrameParallelPolicy::new(2);

    assert_eq!(
        dirty_refresh_admission(policy, 2, DIRTY_SPACE_REFRESH_PARALLEL_MIN_WORK_UNITS - 1),
        ParallelAdmission::Serial
    );
    assert_eq!(dirty_refresh_admission(policy, 1, DIRTY_SPACE_REFRESH_PARALLEL_MIN_WORK_UNITS), ParallelAdmission::Serial);
    assert!(dirty_refresh_admission(policy, 2, DIRTY_SPACE_REFRESH_PARALLEL_MIN_WORK_UNITS).is_parallel());
}

#[test]
fn snapshot_rebuild_parallelism_requires_enough_tasks_and_draws() {
    let policy = FrameParallelPolicy::new(2);

    assert_eq!(
        snapshot_rebuild_admission(policy, 2, SNAPSHOT_REBUILD_PARALLEL_MIN_DRAWS - 1),
        ParallelAdmission::Serial
    );
    assert_eq!(snapshot_rebuild_admission(policy, 1, SNAPSHOT_REBUILD_PARALLEL_MIN_DRAWS), ParallelAdmission::Serial);
    assert!(snapshot_rebuild_admission(policy, 2, SNAPSHOT_REBUILD_PARALLEL_MIN_DRAWS).is_parallel());
}
