use renderide_prep::lod::{
    collect_prepared_lod_group_work, first_non_empty_prepared_lod, lod_group_chunk_capacity, mark_prepared_group_lod,
    FramePreparedLodRenderer, FramePreparedLodRow, LodSpaceRenderers, LodVisibility,
};
use renderide_prep::material_slots::WorldMeshVisibilityStats;
use renderide_prep::prepared::FramePreparedRun;
use renderide_prep::shared::{MeshRendererInstanceId, RenderSpaceId};
use renderide_prep::spatial::{
    gather_spatial_candidate_runs, gather_spatial_candidate_runs_dense, gather_spatial_candidate_runs_sparse,
    record_spatial_frustum_reject, should_gather_spatial_candidates_dense, space_uses_bvh, PreparedSpatialQueryOutput,
};

fn runs4() -> [FramePreparedRun; 4] {
    [
        FramePreparedRun { start: 0, end: 1 },
        FramePreparedRun { start: 1, end: 2 },
        FramePreparedRun { start: 2, end: 3 },
        FramePreparedRun { start: 3, end: 4 },
    ]
}

fn row(ordinals: &[usize]) -> FramePreparedLodRow {
    FramePreparedLodRow {
        renderers: ordinals.iter().map(|&renderer_ordinal| FramePreparedLodRenderer { renderer_ordinal }).collect(),
    }
}

#[test]
fn spatial_candidate_gather_switches_to_dense_for_high_density() {
    assert!(!should_gather_spatial_candidates_dense(1, 3));
    assert!(should_gather_spatial_candidates_dense(2, 3));
}

#[test]
fn sparse_candidate_gather_preserves_prepared_order_and_dedups() {
    let runs = runs4();
    let mut candidate_indices = vec![2, 0, 2];

    let gathered = gather_spatial_candidate_runs_sparse(&runs, &mut candidate_indices);

    assert_eq!(gathered, vec![FramePreparedRun { start: 0, end: 1 }, FramePreparedRun { start: 2, end: 3 }]);
    assert_eq!(candidate_indices, vec![0, 2]);
}

#[test]
fn dense_and_sparse_gathers_agree() {
    let runs = runs4();
    let marks = vec![3, 1, 3, 9, 1];
    let dense = gather_spatial_candidate_runs_dense(&runs, &marks);
    let mut sparse_marks = marks.clone();
    let sparse = gather_spatial_candidate_runs_sparse(&runs, &mut sparse_marks);
    assert_eq!(dense, sparse);
    assert_eq!(dense, vec![FramePreparedRun { start: 1, end: 2 }, FramePreparedRun { start: 3, end: 4 }]);
    let mut dispatch_marks = marks;
    assert_eq!(gather_spatial_candidate_runs(&runs, &mut dispatch_marks), dense);
}

#[test]
fn frustum_reject_counts_slots_and_runs() {
    let mut stats = (1usize, 2usize, 3usize);
    let mut visibility = WorldMeshVisibilityStats::zero();
    record_spatial_frustum_reject(&mut stats, &mut visibility, 2, 5);
    assert_eq!(stats, (6, 7, 3));
    assert_eq!(visibility.broadphase_culled_runs, 2);
    assert_eq!(visibility.broadphase_culled_draws, 5);
    record_spatial_frustum_reject(&mut stats, &mut visibility, usize::MAX, 1);
    assert_eq!(visibility.broadphase_culled_runs, usize::MAX);
}

#[test]
fn query_output_counts_duplicate_marks() {
    let runs = runs4();
    let mut out = PreparedSpatialQueryOutput::new();
    out.note_space_counts(3, 1, 2);
    out.mark_candidate_run(2);
    out.mark_candidate_run(0);
    out.mark_candidate_run(2);
    out.record_reject(1, 4);
    let candidates = out.into_candidates(&runs);
    assert_eq!(candidates.runs, vec![FramePreparedRun { start: 0, end: 1 }, FramePreparedRun { start: 2, end: 3 }]);
    assert_eq!(candidates.cull_stats, (4, 4, 0));
    assert_eq!(candidates.visibility.candidate_runs, 2);
    assert_eq!(candidates.visibility.raw_candidate_marks, 3);
    assert_eq!(candidates.visibility.duplicate_candidate_marks, 1);
    assert_eq!(candidates.visibility.indexed_runs, 3);
    assert_eq!(candidates.visibility.fallback_runs, 1);
    assert_eq!(candidates.visibility.linear_fallback_runs, 2);
    assert_eq!(candidates.visibility.broadphase_culled_runs, 1);
}

#[test]
fn small_spaces_stay_linear() {
    assert!(!space_uses_bvh(64));
    assert!(space_uses_bvh(65));
}

#[test]
fn lod_group_chunk_capacity_scales_refs_by_chunk_size() {
    assert_eq!(lod_group_chunk_capacity(0, 8, 4), 0);
    assert_eq!(lod_group_chunk_capacity(17, 8, 4), 12);
    assert_eq!(lod_group_chunk_capacity(17, 8, 0), 0);
}

#[test]
fn lod_group_chunk_capacity_saturates() {
    assert_eq!(lod_group_chunk_capacity(16, 8, 4), 8);
    assert_eq!(lod_group_chunk_capacity(usize::MAX, 1, 2), usize::MAX);
}

#[test]
fn lod_visibility_keeps_ungrouped_renderers_visible() {
    let visibility = LodVisibility::new();

    assert!(visibility.renderer_visible_by_instance(RenderSpaceId(1), MeshRendererInstanceId(42)));
}

#[test]
fn lod_visibility_hides_grouped_unselected_renderers() {
    let grouped = MeshRendererInstanceId(1);
    let selected = MeshRendererInstanceId(2);
    let space_id = RenderSpaceId(1);
    let mut visibility = LodVisibility::for_spaces(&[LodSpaceRenderers {
        space_id,
        is_active: true,
        static_instance_ids: vec![grouped, selected],
        skinned_instance_ids: Vec::new(),
    }]);
    visibility.mark_grouped(space_id, grouped);
    visibility.mark_grouped(space_id, selected);
    visibility.mark_selected(space_id, selected);

    assert!(!visibility.renderer_visible_by_instance(space_id, grouped));
    assert!(visibility.renderer_visible_by_instance(space_id, selected));
    assert!(visibility.renderer_visible(space_id, 1));
    assert!(!visibility.renderer_visible(space_id, 0));
}

#[test]
fn lod_visibility_ignores_inactive_spaces_and_unknown_ordinals() {
    let mut visibility = LodVisibility::for_spaces(&[
        LodSpaceRenderers {
            space_id: RenderSpaceId(1),
            is_active: false,
            static_instance_ids: vec![MeshRendererInstanceId(1)],
            skinned_instance_ids: Vec::new(),
        },
        LodSpaceRenderers {
            space_id: RenderSpaceId(2),
            is_active: true,
            static_instance_ids: vec![MeshRendererInstanceId(1)],
            skinned_instance_ids: vec![MeshRendererInstanceId(7)],
        },
    ]);
    visibility.mark_grouped_ordinal(RenderSpaceId(1), 0);
    visibility.mark_grouped_ordinal(RenderSpaceId(2), 5);
    visibility.mark_grouped(RenderSpaceId(2), MeshRendererInstanceId(7));

    assert!(visibility.renderer_visible(RenderSpaceId(1), 0));
    assert!(visibility.renderer_visible(RenderSpaceId(2), 5));
    assert!(visibility.renderer_visible(RenderSpaceId(2), 0));
    assert!(!visibility.renderer_visible(RenderSpaceId(2), 1));
}

#[test]
fn prepared_group_selection_marks_rows() {
    let space_id = RenderSpaceId(3);
    let ids: Vec<MeshRendererInstanceId> = (0..4).map(MeshRendererInstanceId).collect();
    let mut visibility = LodVisibility::for_spaces(&[LodSpaceRenderers {
        space_id,
        is_active: true,
        static_instance_ids: ids,
        skinned_instance_ids: Vec::new(),
    }]);
    let rows = vec![row(&[0, 1]), row(&[]), row(&[2])];

    assert_eq!(first_non_empty_prepared_lod(&rows), Some(0));
    mark_prepared_group_lod(&mut visibility, space_id, &rows, Some(2));

    assert!(!visibility.renderer_visible(space_id, 0));
    assert!(!visibility.renderer_visible(space_id, 1));
    assert!(visibility.renderer_visible(space_id, 2));
    assert!(visibility.renderer_visible(space_id, 3));
}

#[test]
fn first_non_empty_lod_falls_back_when_bounds_are_unavailable() {
    let rows = vec![row(&[]), row(&[2])];
    assert_eq!(first_non_empty_prepared_lod(&rows), Some(1));
    assert_eq!(first_non_empty_prepared_lod(&[row(&[])]), None);
}

#[test]
fn prepared_lod_group_work_follows_query_order() {
    let groups = [RenderSpaceId(1), RenderSpaceId(2), RenderSpaceId(1)];
    let work = collect_prepared_lod_group_work(&groups, &[RenderSpaceId(2), RenderSpaceId(1), RenderSpaceId(9)]);
    assert_eq!(work, vec![1, 0, 2]);
}
