//! Identifier and classification types shared by the scene-facing planning modules.
use vstd::prelude::*;

verus! {

/// Host render-space identifier.
#[derive(Clone, Copy, Debug, Default, PartialEq, Eq, Structural, Hash, PartialOrd, Ord)]
pub struct RenderSpaceId(pub i32);

/// Renderer-local identity that survives dense renderer-table reindexing.
#[derive(Clone, Copy, Debug, Default, PartialEq, Eq, Structural, Hash, PartialOrd, Ord)]
pub struct MeshRendererInstanceId(pub u64);

/// Special Unity layers that change renderer visibility.
#[derive(Clone, Copy, Debug, PartialEq, Eq, Structural, Hash)]
pub enum LayerType {
    /// Hidden layer: only visible through selective camera roots.
    Hidden,
    /// Overlay layer: drawn through the overlay camera stack.
    Overlay,
}

/// Host shadow-caster mode of a mesh renderer.
#[derive(Clone, Copy, Debug, Default, PartialEq, Eq, Structural, Hash)]
pub enum ShadowCastMode {
    /// Casts no shadows.
    Off,
    /// Casts shadows and draws color.
    #[default]
    On,
    /// Only casts shadows; no visible color draws.
    ShadowOnly,
    /// Casts two-sided shadows and draws color.
    DoubleSided,
}

/// Primitive topology of one mesh submesh.
#[derive(Clone, Copy, Debug, PartialEq, Eq, Structural, Hash)]
pub enum RasterPrimitiveTopology {
    /// Point list.
    PointList,
    /// Line list.
    LineList,
    /// Line strip.
    LineStrip,
    /// Triangle list (the safe default).
    TriangleList,
    /// Triangle strip.
    TriangleStrip,
}

/// Renderer table that holds a renderer row.
#[derive(Clone, Copy, Debug, PartialEq, Eq, Structural, Hash)]
pub enum RenderWorldRendererKind {
    /// Static mesh renderer table.
    Static,
    /// Skinned mesh renderer table.
    Skinned,
}

/// One material slot on a mesh renderer.
#[derive(Clone, Copy, Debug, Default, PartialEq, Eq, Structural, Hash)]
pub struct MeshMaterialSlot {
    /// Material asset id bound to the slot.
    pub material_asset_id: i32,
    /// Optional per-slot property block id.
    pub property_block_id: Option<i32>,
}

/// The scene fields of a static mesh renderer row that draw preparation reads.
#[derive(Clone, Debug, Default)]
pub struct StaticMeshRenderer {
    /// Renderer-local stable identity.
    pub instance_id: MeshRendererInstanceId,
    /// Scene node id, or negative when detached.
    pub node_id: i32,
    /// Resident mesh asset id, or negative when unset.
    pub mesh_asset_id: i32,
    /// Host sorting order.
    pub sorting_order: i32,
    /// Host shadow-caster mode.
    pub shadow_cast_mode: ShadowCastMode,
    /// Explicit material slots.
    pub material_slots: Vec<MeshMaterialSlot>,
    /// Primary material used when no explicit slots are present.
    pub primary_material_asset_id: Option<i32>,
    /// Property block paired with the primary material.
    pub primary_property_block_id: Option<i32>,
}

impl StaticMeshRenderer {
    /// Whether this renderer produces visible color draws (shadow-only renderers do not).
    pub open spec fn spec_emits_visible_color_draws(&self) -> bool {
        self.shadow_cast_mode != ShadowCastMode::ShadowOnly
    }

    /// Returns whether this renderer produces visible color draws.
    pub fn emits_visible_color_draws(&self) -> (r: bool)
        ensures
            r == self.spec_emits_visible_color_draws(),
    {
        !matches!(self.shadow_cast_mode, ShadowCastMode::ShadowOnly)
    }
}

} // verus!
