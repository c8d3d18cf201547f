//! View-local render-space and layer visibility policy for world-mesh collection.
use vstd::prelude::*;

use crate::shared::{LayerType, RenderSpaceId};

verus! {

/// Unity layer visibility behavior applied while collecting draws for one view.
#[derive(Clone, Copy, Debug, Default, PartialEq, Eq, Structural)]
pub enum ViewLayerPolicy {
    /// Regular world rendering. Hidden and overlay roots are excluded unless a selective camera
    /// transform filter explicitly exposes them.
    #[default]
    MainView,
    /// Host camera rendering with camera culling masks and private-UI opt-in.
    Camera {
        /// Whether private render spaces are visible to a non-selective camera.
        render_private_ui: bool,
    },
    /// Desktop overlay camera rendering. Only overlay roots are included.
    DesktopOverlay,
}

impl ViewLayerPolicy {
    /// Whether private render spaces are visible.
    pub open spec fn spec_shows_private_render_space(self, has_selective_roots: bool) -> bool {
        match self {
            ViewLayerPolicy::MainView => true,
            ViewLayerPolicy::Camera { render_private_ui } => has_selective_roots || render_private_ui,
            ViewLayerPolicy::DesktopOverlay => true,
        }
    }

    /// Whether a renderer under `special_layer` is visible.
    pub open spec fn spec_shows_special_layer(self, special_layer: Option<LayerType>, has_selective_roots: bool) -> bool {
        match self {
            ViewLayerPolicy::DesktopOverlay => special_layer == Some(LayerType::Overlay),
            _ => match special_layer {
                Some(_) => has_selective_roots,
                None => true,
            },
        }
    }

    /// Builds a camera layer policy from the host camera's `renderPrivateUI` flag.
    pub fn camera(render_private_ui: bool) -> (r: Self)
        ensures
            r == (ViewLayerPolicy::Camera { render_private_ui }),
    {
        ViewLayerPolicy::Camera { render_private_ui }
    }

    /// Returns whether this layer policy includes private render spaces.
    pub fn shows_private_render_space(self, has_selective_roots: bool) -> (r: bool)
        ensures
            r == self.spec_shows_private_render_space(has_selective_roots),
    {
        match self {
            ViewLayerPolicy::MainView => true,
            ViewLayerPolicy::Camera { render_private_ui } => has_selective_roots || render_private_ui,
            ViewLayerPolicy::DesktopOverlay => true,
        }
    }

    /// Returns whether a renderer under `special_layer` is visible for this view.
    pub fn shows_special_layer(self, special_layer: Option<LayerType>, has_selective_roots: bool) -> (r: bool)
        ensures
            r == self.spec_shows_special_layer(special_layer, has_selective_roots),
    {
        match self {
            ViewLayerPolicy::MainView => match special_layer {
                Some(LayerType::Hidden) | Some(LayerType::Overlay) => has_selective_roots,
                None => true,
            },
            ViewLayerPolicy::Camera { .. } => match special_layer {
                Some(LayerType::Hidden) | Some(LayerType::Overlay) => has_selective_roots,
                None => true,
            },
            ViewLayerPolicy::DesktopOverlay => matches!(special_layer, Some(LayerType::Overlay)),
        }
    }

    /// Returns the overlay draw flag to emit for a visible renderer in this view.
    pub fn effective_overlay(self, is_overlay: bool) -> (r: bool)
        ensures
            r == (is_overlay && !(self is Camera)),
    {
        is_overlay && !matches!(self, ViewLayerPolicy::Camera { .. })
    }
}

/// Render-space scope applied while collecting draws for one planned view.
#[derive(Clone, Copy, Debug, Default, PartialEq, Eq, Structural)]
pub enum ViewRenderSpaceScope {
    /// Draw all active render spaces that pass the view's layer policy.
    #[default]
    AllActive,
    /// Draw only the specified render space if it passes the view's layer policy.
    Single(RenderSpaceId),
}

impl ViewRenderSpaceScope {
    /// Builds a scope for one render space.
    pub fn single(space_id: RenderSpaceId) -> (r: Self)
        ensures
            r == ViewRenderSpaceScope::Single(space_id),
    {
        ViewRenderSpaceScope::Single(space_id)
    }

    /// Returns whether `space_id` is inside this scope before layer-policy filtering.
    pub fn includes(self, space_id: RenderSpaceId) -> (r: bool)
        ensures
            r == match self {
                ViewRenderSpaceScope::AllActive => true,
                ViewRenderSpaceScope::Single(scoped) => scoped == space_id,
            },
    {
        match self {
            ViewRenderSpaceScope::AllActive => true,
            ViewRenderSpaceScope::Single(scoped_id) => scoped_id.0 == space_id.0,
        }
    }

    /// Returns the single scoped render space, when this scope is fixed to one space.
    pub fn single_space(self) -> (r: Option<RenderSpaceId>)
        ensures
            r == match self {
                ViewRenderSpaceScope::AllActive => None::<RenderSpaceId>,
                ViewRenderSpaceScope::Single(scoped) => Some(scoped),
            },
    {
        match self {
            ViewRenderSpaceScope::AllActive => None,
            ViewRenderSpaceScope::Single(space_id) => Some(space_id),
        }
    }
}

/// Depth state a material batch is drawn with.
#[derive(Clone, Copy, Debug, PartialEq, Eq, Structural)]
pub enum MaterialDepthCompareOverride {
    /// Never passes.
    Never,
    /// Passes when nearer.
    Less,
    /// Passes when equal.
    Equal,
    /// Passes when nearer or equal.
    LessEqual,
    /// Passes when farther.
    Greater,
    /// Passes when different.
    NotEqual,
    /// Passes when farther or equal.
    GreaterEqual,
    /// Always passes.
    Always,
}

/// Render-state overrides carried by a material batch key.
#[derive(Clone, Copy, Debug, Default, PartialEq, Eq, Structural)]
pub struct MaterialRenderStateOverrides {
    /// Depth-write override, if any.
    pub depth_write: Option<bool>,
    /// Depth-compare override, if any.
    pub depth_compare: Option<MaterialDepthCompareOverride>,
}

/// Overlay-layer meshes bypass the world depth buffer: depth writes off, depth test always passes.
/// Other draws keep their render state.
pub fn apply_overlay_layer_depth_policy(state: MaterialRenderStateOverrides, is_overlay: bool) -> (r: MaterialRenderStateOverrides)
    ensures
        is_overlay ==> r == (MaterialRenderStateOverrides {
            depth_write: Some(false),
            depth_compare: Some(MaterialDepthCompareOverride::Always),
        }),
        !is_overlay ==> r == state,
{
    let mut state = state;
    if is_overlay {
        state.depth_write = Some(false);
        state.depth_compare = Some(MaterialDepthCompareOverride::Always);
    }
    state
}

} // verus!
