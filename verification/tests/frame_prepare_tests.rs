use renderide_prep::collections::{IdSet, RenderWorldRendererRef};
use renderide_prep::dirty_expansion::SceneSpaceTable;
use renderide_prep::frame_maintenance::estimate_full_space_refresh_work;
use renderide_prep::frame_prepare::SceneFrameInputs;
use renderide_prep::prepared::FramePreparedDraw;
use renderide_prep::render_world::{MeshPoolMutationDelta, RenderWorld, RenderingContext};
use renderide_prep::retained::{RenderWorldRendererTemplate, RenderWorldSpace};
use renderide_prep::retained_refresh::{
    refresh_render_world_space, should_parallel_scan_dirty_records, SceneRendererRow, SceneSpaceRenderers,
    RENDER_WORLD_DIRTY_SCAN_MIN_DENSITY_DIVISOR, RENDER_WORLD_PARALLEL_MIN_RENDERERS,
};
use renderide_prep::shared::{
    MeshRendererInstanceId, RenderSpaceId, RenderWorldRendererKind, ShadowCastMode, StaticMeshRenderer,
};

const USER_VIEW: RenderingContext = RenderingContext(1);
const RENDER_TO_ASSET: RenderingContext = RenderingContext(3);

fn static_ref(index: usize) -> RenderWorldRendererRef {
    RenderWorldRendererRef { kind: RenderWorldRendererKind::Static, index }
}

fn prepared_draw(space_id: RenderSpaceId, renderable_index: usize) -> FramePreparedDraw {
    FramePreparedDraw {
        space_id,
        renderable_index,
        instance_id: MeshRendererInstanceId(0),
        renderer_ordinal: 0,
        node_id: -1,
        mesh_asset_id: 1,
        is_overlay: false,
        is_hidden: false,
        sorting_order: 0,
        shadow_cast_mode: ShadowCastMode::On,
        skinned: false,
        world_space_deformed: false,
        blendshape_deformed: false,
        tangent_blendshape_deform_active: false,
        slot_index: 0,
        material_stack_order: None,
        first_index: 0,
        index_count: 3,
        material_asset_id: 1,
        property_block_id: None,
    }
}

fn space_with_draw(draw: FramePreparedDraw) -> RenderWorldSpace {
    let mut space = RenderWorldSpace::new(true);
    space.static_renderers.push(RenderWorldRendererTemplate { draws: vec![draw], ..Default::default() });
    space
}

fn scene_space(id: RenderSpaceId) -> SceneSpaceRenderers {
    SceneSpaceRenderers { id, active: true, static_rows: Vec::new(), skinned_rows: Vec::new() }
}

fn empty_frame_inputs() -> SceneFrameInputs {
    SceneFrameInputs {
        space_ids: Vec::new(),
        nodes: SceneSpaceTable::from_spaces(Vec::new()),
        renderers: Vec::new(),
        particles: Vec::new(),
    }
}

#[test]
fn rebuild_prepared_snapshot_skips_inactive_cached_spaces() {
    let active = RenderSpaceId(20);
    let inactive = RenderSpaceId(21);
    let mut world = RenderWorld::default();
    world.spaces.insert(active.0, RenderWorldSpace::new(true));
    world.spaces.insert(inactive.0, RenderWorldSpace::new(false));
    let scene = vec![scene_space(active), scene_space(inactive)];

    world.rebuild_prepared_snapshot(&[active, inactive], &scene, &[], RENDER_TO_ASSET, None);

    assert_eq!(world.prepared.render_context(), RENDER_TO_ASSET);
    assert_eq!(world.prepared.active_space_ids(), &[active]);
    assert!(world.prepared.draws().is_empty());
}

#[test]
fn full_space_refresh_builds_reverse_indexes_while_refreshing_records() {
    let space_id = RenderSpaceId(41);
    let scene = SceneSpaceRenderers {
        id: space_id,
        active: true,
        static_rows: vec![SceneRendererRow {
            renderer: StaticMeshRenderer { node_id: 7, mesh_asset_id: 88, ..Default::default() },
            expansion: None,
        }],
        skinned_rows: Vec::new(),
    };
    let mut cached = RenderWorldSpace::new(false);

    let outcome = refresh_render_world_space(&mut cached, Some(&scene), space_id);

    assert_eq!(outcome.full_space_count, 1);
    assert_eq!(cached.mesh_asset_index.get(88), Some(vec![static_ref(0)]));
    assert_eq!(cached.node_index.get(7), Some(vec![static_ref(0)]));
}

#[test]
fn particle_snapshot_dirty_rebuilds_snapshot_without_static_refresh() {
    let scene = empty_frame_inputs();
    let delta = MeshPoolMutationDelta { current_generation: 0, requires_full_rebuild: false, changed_assets: Vec::new() };
    let mut world = RenderWorld::default();
    world.full_rebuild_requested = false;
    world.particle_snapshot_dirty = true;
    let render_context = world.prepared.render_context();

    world.prepare_for_frame(&scene, &delta, render_context);

    let stats = world.maintenance_stats();
    assert_eq!(stats.particle_snapshot_rebuild_count, 1);
    assert_eq!(stats.full_world_rebuild_count, 0);
    assert_eq!(stats.full_space_rebuild_count, 0);
    assert!(!world.particle_snapshot_dirty);
}

#[test]
fn prepared_snapshot_reuses_unchanged_space_draw_ranges() {
    let first_space = RenderSpaceId(51);
    let second_space = RenderSpaceId(52);
    let scene_ids = [first_space, second_space];
    let scene = vec![scene_space(first_space), scene_space(second_space)];
    let mut world = RenderWorld::default();
    let mut first_draw = prepared_draw(first_space, 0);
    first_draw.material_asset_id = 11;
    let mut second_draw = prepared_draw(second_space, 0);
    second_draw.material_asset_id = 22;
    world.spaces.insert(first_space.0, space_with_draw(first_draw));
    world.spaces.insert(second_space.0, space_with_draw(second_draw));
    world.rebuild_prepared_snapshot(&scene_ids, &scene, &[], USER_VIEW, None);

    first_draw.material_asset_id = 33;
    second_draw.material_asset_id = 44;
    world.spaces.insert(first_space.0, space_with_draw(first_draw));
    world.spaces.insert(second_space.0, space_with_draw(second_draw));
    let mut dirty_spaces = IdSet::new();
    dirty_spaces.insert(first_space.0);

    let stats = world.rebuild_prepared_snapshot(&scene_ids, &scene, &[], USER_VIEW, Some(&dirty_spaces));

    assert_eq!(world.prepared.active_space_ids(), &[first_space, second_space]);
    assert_eq!(world.prepared.draws()[0].material_asset_id, 33);
    assert_eq!(world.prepared.draws()[1].material_asset_id, 22);
    assert_eq!(stats.reused_space_count, 1);
    assert_eq!(stats.retained_draw_count, 1);
    assert_eq!(stats.task_count, 1);
}

#[test]
fn dirty_scan_parallelism_requires_threshold_and_density() {
    assert!(!should_parallel_scan_dirty_records(
        RENDER_WORLD_PARALLEL_MIN_RENDERERS - 1,
        RENDER_WORLD_PARALLEL_MIN_RENDERERS,
    ));
    assert!(!should_parallel_scan_dirty_records(
        RENDER_WORLD_PARALLEL_MIN_RENDERERS,
        RENDER_WORLD_PARALLEL_MIN_RENDERERS * (RENDER_WORLD_DIRTY_SCAN_MIN_DENSITY_DIVISOR + 1),
    ));
    assert!(should_parallel_scan_dirty_records(
        RENDER_WORLD_PARALLEL_MIN_RENDERERS,
        RENDER_WORLD_PARALLEL_MIN_RENDERERS * RENDER_WORLD_DIRTY_SCAN_MIN_DENSITY_DIVISOR,
    ));
}

#[test]
fn steady_state_frame_skips_snapshot_rebuild() {
    let scene = empty_frame_inputs();
    let delta = MeshPoolMutationDelta { current_generation: 0, requires_full_rebuild: false, changed_assets: Vec::new() };
    let mut world = RenderWorld::default();
    world.full_rebuild_requested = false;
    let render_context = world.prepared.render_context();

    let refit = world.prepare_for_frame(&scene, &delta, render_context);

    assert!(refit.is_empty());
    let stats = world.maintenance_stats();
    assert_eq!(stats.steady_state_skip_count, 1);
    assert_eq!(stats.particle_snapshot_rebuild_count, 0);
    assert_eq!(stats.spatial_rebuild_count, 0);
}

#[test]
fn full_rebuild_frame_refreshes_every_scene_space_and_prepares_draws() {
    let space_id = RenderSpaceId(60);
    let renderer = StaticMeshRenderer {
        instance_id: MeshRendererInstanceId(5),
        node_id: 0,
        mesh_asset_id: 9,
        primary_material_asset_id: Some(70),
        ..Default::default()
    };
    let expansion = renderide_prep::renderer_expand::RenderableExpansion {
        submeshes: vec![(0, 6)],
        world_space_deformed: false,
        blendshape_deformed: false,
        tangent_blendshape_deform_active: false,
        node_in_overlay_layer: false,
        node_in_hidden_layer: false,
        material_overrides: Vec::new(),
    };
    let scene = SceneFrameInputs {
        space_ids: vec![space_id],
        nodes: SceneSpaceTable::from_spaces(Vec::new()),
        renderers: vec![SceneSpaceRenderers {
            id: space_id,
            active: true,
            static_rows: vec![SceneRendererRow { renderer, expansion: Some(expansion) }],
            skinned_rows: Vec::new(),
        }],
        particles: Vec::new(),
    };
    let delta = MeshPoolMutationDelta { current_generation: 0, requires_full_rebuild: false, changed_assets: Vec::new() };
    let mut world = RenderWorld::default();

    world.prepare_for_frame(&scene, &delta, USER_VIEW);

    let stats = world.maintenance_stats();
    assert_eq!(stats.full_world_rebuild_count, 1);
    assert_eq!(stats.full_space_rebuild_count, 1);
    assert!(!world.full_rebuild_requested);
    assert_eq!(world.prepared.render_context(), USER_VIEW);
    assert_eq!(world.prepared.active_space_ids(), &[space_id]);
    let draws = world.prepared.draws();
    assert_eq!(draws.len(), 1);
    assert_eq!(draws[0].material_asset_id, 70);
    assert_eq!(draws[0].index_count, 6);
    assert_eq!(draws[0].instance_id, MeshRendererInstanceId(5));
}

#[test]
fn full_space_refresh_work_takes_larger_of_cached_and_scene_rows() {
    let mut cached = RenderWorldSpace::new(true);
    cached.static_renderers.push(RenderWorldRendererTemplate::default());
    let scene = SceneSpaceRenderers {
        id: RenderSpaceId(1),
        active: true,
        static_rows: vec![
            SceneRendererRow { renderer: StaticMeshRenderer::default(), expansion: None },
            SceneRendererRow { renderer: StaticMeshRenderer::default(), expansion: None },
        ],
        skinned_rows: vec![SceneRendererRow { renderer: StaticMeshRenderer::default(), expansion: None }],
    };

    assert_eq!(estimate_full_space_refresh_work(&cached, Some(&scene)), 3);
    assert_eq!(estimate_full_space_refresh_work(&cached, None), 1);
}
