use renderide_prep::layer_policy::{
    apply_overlay_layer_depth_policy, MaterialDepthCompareOverride, MaterialRenderStateOverrides, ViewLayerPolicy,
    ViewRenderSpaceScope,
};
use renderide_prep::parallel::{prepared_collect_admission, ParallelAdmission, RENDER_COMMAND_CHUNK_DRAWS};
use renderide_prep::shared::{LayerType, RenderSpaceId};

/// Special-layer visibility of a view without a selective camera transform filter.
fn special_layer_visibility_without_filter(layer_policy: ViewLayerPolicy, special_layer: Option<LayerType>) -> bool {
    layer_policy.shows_special_layer(special_layer, false)
}

#[test]
fn camera_layer_policy_hides_hidden_and_overlay_without_selective_roots() {
    assert!(!special_layer_visibility_without_filter(ViewLayerPolicy::camera(false), Some(LayerType::Hidden)));
    assert!(!special_layer_visibility_without_filter(ViewLayerPolicy::camera(false), Some(LayerType::Overlay)));
}

#[test]
fn desktop_overlay_layer_policy_includes_only_overlay_layer() {
    assert!(special_layer_visibility_without_filter(ViewLayerPolicy::DesktopOverlay, Some(LayerType::Overlay)));
    assert!(!special_layer_visibility_without_filter(ViewLayerPolicy::DesktopOverlay, Some(LayerType::Hidden)));
    assert!(!special_layer_visibility_without_filter(ViewLayerPolicy::DesktopOverlay, None));
}

#[test]
fn all_active_camera_scope_respects_render_private_ui_for_private_spaces() {
    assert!(!ViewLayerPolicy::camera(false).shows_private_render_space(false));
    assert!(ViewLayerPolicy::camera(true).shows_private_render_space(false));
}

#[test]
fn prepared_collect_parallelism_requires_draw_heavy_work_and_multiple_tasks() {
    let threshold = RENDER_COMMAND_CHUNK_DRAWS * 2;

    assert_eq!(prepared_collect_admission(2, threshold - 1, 2), ParallelAdmission::Serial);
    assert_eq!(prepared_collect_admission(1, threshold, 2), ParallelAdmission::Serial);
    assert!(prepared_collect_admission(2, threshold, 2).is_parallel());
    assert_eq!(prepared_collect_admission(2, threshold, 1), ParallelAdmission::Serial);
}

#[test]
fn camera_layer_policy_shows_special_layers_for_selective_roots() {
    assert!(ViewLayerPolicy::camera(false).shows_special_layer(Some(LayerType::Hidden), true));
    assert!(ViewLayerPolicy::MainView.shows_special_layer(Some(LayerType::Overlay), true));
    assert!(ViewLayerPolicy::MainView.shows_special_layer(None, false));
    assert!(ViewLayerPolicy::camera(false).shows_private_render_space(true));
    assert!(ViewLayerPolicy::MainView.shows_private_render_space(false));
}

#[test]
fn single_scope_includes_only_its_space() {
    let scope = ViewRenderSpaceScope::single(RenderSpaceId(4));
    assert!(scope.includes(RenderSpaceId(4)));
    assert!(!scope.includes(RenderSpaceId(5)));
    assert_eq!(scope.single_space(), Some(RenderSpaceId(4)));
    assert!(ViewRenderSpaceScope::AllActive.includes(RenderSpaceId(5)));
    assert_eq!(ViewRenderSpaceScope::AllActive.single_space(), None);
}

#[test]
fn overlay_draws_ignore_world_depth() {
    let state = MaterialRenderStateOverrides {
        depth_write: Some(true),
        depth_compare: Some(MaterialDepthCompareOverride::LessEqual),
    };
    let overlay = apply_overlay_layer_depth_policy(state, true);
    assert_eq!(overlay.depth_write, Some(false));
    assert_eq!(overlay.depth_compare, Some(MaterialDepthCompareOverride::Always));
    assert_eq!(apply_overlay_layer_depth_policy(state, false), state);
}

#[test]
fn effective_overlay_follows_layer_policy() {
    assert!(ViewLayerPolicy::DesktopOverlay.effective_overlay(true));
    assert!(ViewLayerPolicy::MainView.effective_overlay(true));
    assert!(!ViewLayerPolicy::MainView.effective_overlay(false));
    assert!(!ViewLayerPolicy::camera(true).effective_overlay(true));
}

/// A camera transform filter is selective when it names at least one `only` root.
fn has_selective_roots(only: Option<&[i32]>) -> bool {
    only.is_some_and(|roots| !roots.is_empty())
}

#[test]
fn camera_layer_policy_shows_hidden_and_overlay_for_selective_roots() {
    let exclude_only = has_selective_roots(None);
    let empty_selective = has_selective_roots(Some(&[]));
    let selective = has_selective_roots(Some(&[1]));

    assert!(!ViewLayerPolicy::camera(false).shows_special_layer(Some(LayerType::Hidden), exclude_only));
    assert!(!ViewLayerPolicy::camera(false).shows_special_layer(Some(LayerType::Hidden), empty_selective));
    assert!(ViewLayerPolicy::camera(false).shows_special_layer(Some(LayerType::Hidden), selective));
    assert!(ViewLayerPolicy::camera(false).shows_special_layer(Some(LayerType::Overlay), selective));
}

#[test]
fn main_view_layer_policy_excludes_special_layers_unless_selective() {
    let selective = has_selective_roots(Some(&[1]));

    assert!(!special_layer_visibility_without_filter(ViewLayerPolicy::MainView, Some(LayerType::Hidden)));
    assert!(!special_layer_visibility_without_filter(ViewLayerPolicy::MainView, Some(LayerType::Overlay)));
    assert!(ViewLayerPolicy::MainView.shows_special_layer(Some(LayerType::Hidden), selective));
    assert!(ViewLayerPolicy::MainView.shows_special_layer(Some(LayerType::Overlay), selective));
}

#[test]
fn desktop_overlay_layer_policy_ignores_selective_camera_roots() {
    let selective = has_selective_roots(Some(&[1]));

    assert!(ViewLayerPolicy::DesktopOverlay.shows_special_layer(Some(LayerType::Overlay), selective));
    assert!(!ViewLayerPolicy::DesktopOverlay.shows_special_layer(Some(LayerType::Hidden), selective));
    assert!(!ViewLayerPolicy::DesktopOverlay.shows_special_layer(None, selective));
}

#[test]
fn camera_layer_policy_filters_private_spaces_without_private_ui() {
    let selective = has_selective_roots(Some(&[0]));

    assert!(!ViewLayerPolicy::camera(false).shows_private_render_space(false));
    assert!(ViewLayerPolicy::camera(true).shows_private_render_space(false));
    assert!(ViewLayerPolicy::camera(false).shows_private_render_space(selective));
}
