//! Per-frame maintenance of the render-world cache: refreshing the retained records that scene
//! and mesh-pool changes invalidated, and rebuilding the prepared snapshot from them.
use vstd::prelude::*;

use crate::collections::{counter_map_contents, id_set_contents, index_set_contents, renderer_dirty_contents, CounterMap, IdSet};
use crate::render_world::{RenderWorld, RenderWorldDirtyModel};
use crate::retained::RenderWorldSpace;
use crate::render_world::{fold_remove_spaces, RenderWorldRendererDirty};
use crate::retained_refresh::{
    no_outcome, refresh_dirty_bounds_work, refresh_dirty_renderer_work, refresh_render_world_space, renderer_work_done, sat_sum, space_refreshed,
    DirtyRendererSet, RefreshOutcome, SceneSpaceRenderers,
};
use crate::shared::RenderWorldRendererKind;
use crate::collections::ref_index_contents;
use crate::shared::RenderSpaceId;

verus! {

/// The scene's renderer tables of space `id`: the first entry with that id.
pub open spec fn scene_space_of(scene: Seq<SceneSpaceRenderers>, id: i32) -> Option<SceneSpaceRenderers>
    decreases scene.len(),
{
    if scene.len() == 0 {
        None
    } else if scene[0].id.0 == id {
        Some(scene[0])
    } else {
        scene_space_of(scene.drop_first(), id)
    }
}

/// The scene's renderer tables of space `id`, if the scene has that space.
pub fn scene_space(scene: &[SceneSpaceRenderers], id: i32) -> (r: Option<&SceneSpaceRenderers>)
    ensures
        match r {
            Some(s) => scene_space_of(scene@, id) == Some(*s),
            None => scene_space_of(scene@, id) is None,
        },
{
    let mut i: usize = 0;
    assert(scene@.subrange(0, scene@.len() as int) =~= scene@);
    while i < scene.len()
        invariant
            i <= scene@.len(),
            scene_space_of(scene@, id) == scene_space_of(scene@.subrange(i as int, scene@.len() as int), id),
        decreases scene@.len() - i,
    {
        let ghost rest = scene@.subrange(i as int, scene@.len() as int);
        assert(rest[0] == scene@[i as int]);
        if scene[i].id.0 == id {
            return Some(&scene[i]);
        }
        assert(rest.drop_first() =~= scene@.subrange(i + 1, scene@.len() as int));
        i += 1;
    }
    None
}

/// Renderer rows of a space's static and skinned tables, saturating at `usize::MAX`.
pub open spec fn sat_rows(static_rows: nat, skinned_rows: nat) -> int {
    if static_rows + skinned_rows > usize::MAX { usize::MAX as int } else { (static_rows + skinned_rows) as int }
}

/// Estimated work of a full-space refresh: the larger of the cached record count and the scene's
/// renderer count (zero for a missing scene space).
pub open spec fn spec_full_space_refresh_work(cached: RenderWorldSpace, scene_space: Option<SceneSpaceRenderers>) -> int {
    let cached_rows = sat_rows(cached.static_renderers@.len(), cached.skinned_renderers@.len());
    let scene_rows = match scene_space {
        Some(s) => sat_rows(s.static_rows@.len(), s.skinned_rows@.len()),
        None => 0,
    };
    if cached_rows >= scene_rows { cached_rows } else { scene_rows }
}

/// Estimates full-space retained-refresh work from cached and current scene renderer counts.
pub fn estimate_full_space_refresh_work(cached: &RenderWorldSpace, scene_space: Option<&SceneSpaceRenderers>) -> (r: usize)
    ensures
        r == spec_full_space_refresh_work(*cached, match scene_space { Some(s) => Some(*s), None => None }),
{
    let cached_rows = cached.static_renderers.len().saturating_add(cached.skinned_renderers.len());
    let scene_rows = match scene_space {
        Some(s) => s.static_rows.len().saturating_add(s.skinned_rows.len()),
        None => 0,
    };
    if cached_rows >= scene_rows { cached_rows } else { scene_rows }
}

/// Field-wise saturating sum of two outcomes.
pub open spec fn add_outcomes(a: RefreshOutcome, b: RefreshOutcome) -> RefreshOutcome {
    RefreshOutcome {
        renderer_count: sat_sum(a.renderer_count as int, b.renderer_count as int) as usize,
        template_count: sat_sum(a.template_count as int, b.template_count as int) as usize,
        full_space_count: sat_sum(a.full_space_count as int, b.full_space_count as int) as usize,
        spatial_refit_count: sat_sum(a.spatial_refit_count as int, b.spatial_refit_count as int) as usize,
    }
}

/// Saturating sum of the first `k` outcomes.
pub open spec fn sum_outcomes(outcomes: Seq<RefreshOutcome>, k: int) -> RefreshOutcome
    decreases k,
{
    if k <= 0 {
        RefreshOutcome { renderer_count: 0, template_count: 0, full_space_count: 0, spatial_refit_count: 0 }
    } else {
        add_outcomes(sum_outcomes(outcomes, k - 1), outcomes[k - 1])
    }
}

/// Field-wise saturating sum of two outcomes.
fn add_outcome(a: RefreshOutcome, b: RefreshOutcome) -> (r: RefreshOutcome)
    ensures
        r == add_outcomes(a, b),
{
    RefreshOutcome {
        renderer_count: a.renderer_count.saturating_add(b.renderer_count),
        template_count: a.template_count.saturating_add(b.template_count),
        full_space_count: a.full_space_count.saturating_add(b.full_space_count),
        spatial_refit_count: a.spatial_refit_count.saturating_add(b.spatial_refit_count),
    }
}

/// Outcome of fully refreshing a space that ends up as `space`.
pub open spec fn full_refresh_outcome(space: RenderWorldSpace) -> RefreshOutcome {
    RefreshOutcome {
        renderer_count: sat_sum(space.static_renderers@.len() as int, space.skinned_renderers@.len() as int) as usize,
        template_count: if space.spec_retained_template_count() > usize::MAX {
            usize::MAX
        } else {
            space.spec_retained_template_count() as usize
        },
        full_space_count: 1,
        spatial_refit_count: 0,
    }
}

/// `prior` is the storage a refresh of `id` starts from: the retained storage when `table` has
/// one, else an empty inactive space.
pub open spec fn refresh_prior(had: bool, stored: RenderWorldSpace, prior: RenderWorldSpace) -> bool {
    &&& had ==> prior == stored
    &&& !had ==> {
        &&& !prior.active
        &&& prior.static_renderers@.len() == 0
        &&& prior.skinned_renderers@.len() == 0
        &&& ref_index_contents(prior.mesh_asset_index).dom() == Set::<i32>::empty()
        &&& ref_index_contents(prior.node_index).dom() == Set::<i32>::empty()
    }
}

/// `post` is `pre` after the full refresh of its dirty spaces, processed in `order` (each dirty
/// space once): the dirty spaces and their finer dirty rows are consumed; each dirty space the
/// scene still has is refreshed from the scene tables (starting from its retained storage, or
/// from an empty space) and stored, each other dirty space loses its storage; every other
/// space's storage and every other field is unchanged.
pub open spec fn dirty_spaces_refreshed(pre: RenderWorld, post: RenderWorld, scene: Seq<SceneSpaceRenderers>, order: Seq<i32>) -> bool {
    let dirty = pre@.dirty_spaces;
    &&& order.to_set() == dirty
    &&& order.no_duplicates()
    &&& post@ == (RenderWorldDirtyModel {
        spaces: pre@.spaces.difference(dirty).union(dirty.filter(|id: i32| scene_space_of(scene, id) is Some)),
        dirty_spaces: Set::empty(),
        dirty_renderers: pre@.dirty_renderers.filter(|k: (i32, bool, usize)| !dirty.contains(k.0)),
        dirty_bounds: pre@.dirty_bounds.filter(|k: (i32, bool, usize)| !dirty.contains(k.0)),
        ..pre@
    })
    &&& forall|id: i32| #[trigger] post.spaces.spec_ids().contains(id) && !dirty.contains(id)
        ==> post.spaces.spec_get(id) == pre.spaces.spec_get(id)
    &&& forall|id: i32| #[trigger] dirty.contains(id) && scene_space_of(scene, id) is Some ==> exists|prior: RenderWorldSpace| {
        &&& refresh_prior(pre.spaces.spec_ids().contains(id), pre.spaces.spec_get(id), prior)
        &&& space_refreshed(prior, post.spaces.spec_get(id), scene_space_of(scene, id), RenderSpaceId(id))
    }
    &&& post.maintenance_stats == pre.maintenance_stats
}

/// Outcome of refreshing dirty space `id`: the full-refresh outcome of its new storage when the
/// scene still has it, else nothing.
pub open spec fn dirty_space_outcome(post: RenderWorld, scene: Seq<SceneSpaceRenderers>, id: i32) -> RefreshOutcome {
    if scene_space_of(scene, id) is Some {
        full_refresh_outcome(post.spaces.spec_get(id))
    } else {
        RefreshOutcome { renderer_count: 0, template_count: 0, full_space_count: 0, spatial_refit_count: 0 }
    }
}

/// A sum depends only on the summed prefix.
pub proof fn lemma_sum_outcomes_prefix(a: Seq<RefreshOutcome>, b: Seq<RefreshOutcome>, k: int)
    requires
        0 <= k <= a.len(),
        k <= b.len(),
        forall|j: int| 0 <= j < k ==> a[j] == b[j],
    ensures
        sum_outcomes(a, k) == sum_outcomes(b, k),
    decreases k,
{
    if k > 0 {
        lemma_sum_outcomes_prefix(a, b, k - 1);
    }
}

/// Indices of table `skinned` that `rows` marks dirty in space `space`.
pub open spec fn dirty_indices(rows: Set<(i32, bool, usize)>, space: i32, skinned: bool) -> Set<usize> {
    Set::new(|i: usize| rows.contains((space, skinned, i)))
}

/// `groups` holds one dirty set per space of `rows`, each space once, with exactly that space's
/// dirty indices of each table.
pub open spec fn grouped_by_space(rows: Set<(i32, bool, usize)>, groups: Seq<(RenderSpaceId, DirtyRendererSet)>) -> bool {
    &&& forall|i: int, j: int| 0 <= i < j < groups.len() ==> (#[trigger] groups[i]).0 != (#[trigger] groups[j]).0
    &&& forall|j: int| 0 <= j < groups.len() ==> {
        &&& index_set_contents((#[trigger] groups[j]).1.static_indices) == dirty_indices(rows, groups[j].0.0, false)
        &&& index_set_contents(groups[j].1.skinned_indices) == dirty_indices(rows, groups[j].0.0, true)
        &&& exists|k: (i32, bool, usize)| rows.contains(k) && k.0 == groups[j].0.0
    }
    &&& forall|k: (i32, bool, usize)| #[trigger] rows.contains(k) ==> exists|j: int| 0 <= j < groups.len() && (#[trigger] groups[j]).0.0 == k.0
}

/// Adding a row of an already grouped space grows that space's group.
proof fn lemma_group_existing(
    pre: Set<(i32, bool, usize)>,
    row: (i32, bool, usize),
    old_groups: Seq<(RenderSpaceId, DirtyRendererSet)>,
    groups: Seq<(RenderSpaceId, DirtyRendererSet)>,
    g: int,
)
    requires
        grouped_by_space(pre, old_groups),
        0 <= g < old_groups.len(),
        old_groups[g].0.0 == row.0,
        groups.len() == old_groups.len(),
        forall|j: int| 0 <= j < groups.len() && j != g ==> #[trigger] groups[j] == old_groups[j],
        groups[g].0 == old_groups[g].0,
        !row.1 ==> index_set_contents(groups[g].1.static_indices) == index_set_contents(old_groups[g].1.static_indices).insert(row.2)
            && groups[g].1.skinned_indices == old_groups[g].1.skinned_indices,
        row.1 ==> index_set_contents(groups[g].1.skinned_indices) == index_set_contents(old_groups[g].1.skinned_indices).insert(row.2)
            && groups[g].1.static_indices == old_groups[g].1.static_indices,
    ensures
        grouped_by_space(pre.insert(row), groups),
{
    let post = pre.insert(row);
    assert forall|i: int, j: int| 0 <= i < j < groups.len() implies (#[trigger] groups[i]).0 != (#[trigger] groups[j]).0 by {
        assert(old_groups[i].0 != old_groups[j].0);
    }
    assert forall|j: int| 0 <= j < groups.len() implies {
        &&& index_set_contents((#[trigger] groups[j]).1.static_indices) == dirty_indices(post, groups[j].0.0, false)
        &&& index_set_contents(groups[j].1.skinned_indices) == dirty_indices(post, groups[j].0.0, true)
        &&& exists|q: (i32, bool, usize)| post.contains(q) && q.0 == groups[j].0.0
    } by {
        assert(index_set_contents(old_groups[j].1.static_indices) == dirty_indices(pre, old_groups[j].0.0, false));
        let w = choose|q: (i32, bool, usize)| pre.contains(q) && q.0 == old_groups[j].0.0;
        assert(post.contains(w));
        if j == g {
            assert(index_set_contents(groups[j].1.static_indices) =~= dirty_indices(post, groups[j].0.0, false));
            assert(index_set_contents(groups[j].1.skinned_indices) =~= dirty_indices(post, groups[j].0.0, true));
        } else {
            assert(old_groups[j].0 != old_groups[g].0);
            assert(dirty_indices(post, groups[j].0.0, false) =~= dirty_indices(pre, groups[j].0.0, false));
            assert(dirty_indices(post, groups[j].0.0, true) =~= dirty_indices(pre, groups[j].0.0, true));
        }
    }
    assert forall|q: (i32, bool, usize)| #[trigger] post.contains(q) implies exists|j: int| 0 <= j < groups.len() && (#[trigger] groups[j]).0.0 == q.0 by {
        if q == row {
            assert(groups[g].0.0 == q.0);
        } else {
            let j = choose|j: int| 0 <= j < old_groups.len() && (#[trigger] old_groups[j]).0.0 == q.0;
            assert(groups[j].0.0 == q.0);
        }
    }
}

/// Adding a row of a new space appends a group holding just that row.
proof fn lemma_group_new(
    pre: Set<(i32, bool, usize)>,
    row: (i32, bool, usize),
    old_groups: Seq<(RenderSpaceId, DirtyRendererSet)>,
    groups: Seq<(RenderSpaceId, DirtyRendererSet)>,
)
    requires
        grouped_by_space(pre, old_groups),
        forall|j: int| 0 <= j < old_groups.len() ==> (#[trigger] old_groups[j]).0.0 != row.0,
        groups.len() == old_groups.len() + 1,
        forall|j: int| 0 <= j < old_groups.len() ==> #[trigger] groups[j] == old_groups[j],
        groups[old_groups.len() as int].0 == RenderSpaceId(row.0),
        !row.1 ==> index_set_contents(groups[old_groups.len() as int].1.static_indices) == Set::<usize>::empty().insert(row.2)
            && index_set_contents(groups[old_groups.len() as int].1.skinned_indices) == Set::<usize>::empty(),
        row.1 ==> index_set_contents(groups[old_groups.len() as int].1.skinned_indices) == Set::<usize>::empty().insert(row.2)
            && index_set_contents(groups[old_groups.len() as int].1.static_indices) == Set::<usize>::empty(),
    ensures
        grouped_by_space(pre.insert(row), groups),
{
    let post = pre.insert(row);
    let g = old_groups.len() as int;
    assert forall|q: (i32, bool, usize)| pre.contains(q) implies q.0 != row.0 by {
        let j = choose|j: int| 0 <= j < old_groups.len() && (#[trigger] old_groups[j]).0.0 == q.0;
    }
    assert forall|i: int, j: int| 0 <= i < j < groups.len() implies (#[trigger] groups[i]).0 != (#[trigger] groups[j]).0 by {
        if j < g {
            assert(old_groups[i].0 != old_groups[j].0);
        } else {
            assert(old_groups[i].0.0 != row.0);
        }
    }
    assert forall|j: int| 0 <= j < groups.len() implies {
        &&& index_set_contents((#[trigger] groups[j]).1.static_indices) == dirty_indices(post, groups[j].0.0, false)
        &&& index_set_contents(groups[j].1.skinned_indices) == dirty_indices(post, groups[j].0.0, true)
        &&& exists|q: (i32, bool, usize)| post.contains(q) && q.0 == groups[j].0.0
    } by {
        if j == g {
            assert(post.contains(row));
            assert(index_set_contents(groups[j].1.static_indices) =~= dirty_indices(post, groups[j].0.0, false));
            assert(index_set_contents(groups[j].1.skinned_indices) =~= dirty_indices(post, groups[j].0.0, true));
        } else {
            let w = choose|q: (i32, bool, usize)| pre.contains(q) && q.0 == old_groups[j].0.0;
            assert(post.contains(w));
            assert(dirty_indices(post, groups[j].0.0, false) =~= dirty_indices(pre, groups[j].0.0, false));
            assert(dirty_indices(post, groups[j].0.0, true) =~= dirty_indices(pre, groups[j].0.0, true));
        }
    }
    assert forall|q: (i32, bool, usize)| #[trigger] post.contains(q) implies exists|j: int| 0 <= j < groups.len() && (#[trigger] groups[j]).0.0 == q.0 by {
        if q == row {
            assert(groups[g].0.0 == q.0);
        } else {
            let j = choose|j: int| 0 <= j < old_groups.len() && (#[trigger] old_groups[j]).0.0 == q.0;
            assert(groups[j].0.0 == q.0);
        }
    }
}

/// Groups dirty renderer rows by render space, spaces in first-seen order.
pub fn group_dirty_rows_by_space(rows: &Vec<(i32, bool, usize)>) -> (groups: Vec<(RenderSpaceId, DirtyRendererSet)>)
    ensures
        grouped_by_space(rows@.to_set(), groups@),
{
    let mut groups: Vec<(RenderSpaceId, DirtyRendererSet)> = Vec::new();
    let mut slots = CounterMap::new();
    let mut k: usize = 0;
    proof {
        assert(rows@.subrange(0, 0).to_set() =~= Set::<(i32, bool, usize)>::empty());
    }
    while k < rows.len()
        invariant
            k <= rows@.len(),
            grouped_by_space(rows@.subrange(0, k as int).to_set(), groups@),
            forall|j: int| 0 <= j < groups@.len() ==> counter_map_contents(slots).contains_key((#[trigger] groups@[j]).0.0)
                && counter_map_contents(slots)[groups@[j].0.0] == j,
            forall|s: i32| #[trigger] counter_map_contents(slots).contains_key(s) ==> counter_map_contents(slots)[s] < groups@.len()
                && groups@[counter_map_contents(slots)[s] as int].0.0 == s,
        decreases rows@.len() - k,
    {
        let row = rows[k];
        let ghost pre = rows@.subrange(0, k as int).to_set();
        proof {
            assert(rows@.subrange(0, k + 1) =~= rows@.subrange(0, k as int).push(row));
            rows@.subrange(0, k as int).lemma_push_to_set_commute(row);
        }
        let kind = if row.1 { RenderWorldRendererKind::Skinned } else { RenderWorldRendererKind::Static };
        let ghost old_groups = groups@;
        match slots.get(row.0) {
            Some(g) => {
                groups[g].1.insert(kind, row.2);
                proof {
                    lemma_group_existing(pre, row, old_groups, groups@, g as int);
                }
            },
            None => {
                let mut set = DirtyRendererSet::new();
                set.insert(kind, row.2);
                let g = groups.len();
                groups.push((RenderSpaceId(row.0), set));
                slots.set(row.0, g);
                proof {
                    assert forall|j: int| 0 <= j < old_groups.len() implies (#[trigger] old_groups[j]).0.0 != row.0 by {}
                    lemma_group_new(pre, row, old_groups, groups@);
                }
            },
        }
        k += 1;
    }
    proof {
        assert(rows@.subrange(0, rows@.len() as int) =~= rows@);
    }
    groups
}

/// Ids of the first `k` groups the scene no longer has, in group order.
pub open spec fn missing_groups(groups: Seq<(RenderSpaceId, DirtyRendererSet)>, scene: Seq<SceneSpaceRenderers>, k: int) -> Seq<RenderSpaceId>
    decreases k,
{
    if k <= 0 {
        Seq::empty()
    } else if scene_space_of(scene, groups[k - 1].0.0) is None {
        missing_groups(groups, scene, k - 1).push(groups[k - 1].0)
    } else {
        missing_groups(groups, scene, k - 1)
    }
}

/// Ids of the first `k` groups the scene still has, in group order.
pub open spec fn present_groups(groups: Seq<(RenderSpaceId, DirtyRendererSet)>, scene: Seq<SceneSpaceRenderers>, k: int) -> Seq<i32>
    decreases k,
{
    if k <= 0 {
        Seq::empty()
    } else if scene_space_of(scene, groups[k - 1].0.0) is Some {
        present_groups(groups, scene, k - 1).push(groups[k - 1].0.0)
    } else {
        present_groups(groups, scene, k - 1)
    }
}

/// Present group ids are distinct group ids.
proof fn lemma_present_groups_distinct(groups: Seq<(RenderSpaceId, DirtyRendererSet)>, scene: Seq<SceneSpaceRenderers>, k: int)
    requires
        0 <= k <= groups.len(),
        forall|i: int, j: int| 0 <= i < j < groups.len() ==> (#[trigger] groups[i]).0 != (#[trigger] groups[j]).0,
    ensures
        present_groups(groups, scene, k).no_duplicates(),
        forall|q: int| 0 <= q < present_groups(groups, scene, k).len() ==> exists|i: int| 0 <= i < k && (#[trigger] groups[i]).0.0 == #[trigger] present_groups(groups, scene, k)[q],
    decreases k,
{
    if k > 0 {
        lemma_present_groups_distinct(groups, scene, k - 1);
        let prev = present_groups(groups, scene, k - 1);
        if scene_space_of(scene, groups[k - 1].0.0) is Some {
            assert forall|q: int| 0 <= q < prev.len() implies prev[q] != groups[k - 1].0.0 by {
                let i = choose|i: int| 0 <= i < k - 1 && (#[trigger] groups[i]).0.0 == prev[q];
                assert(groups[i].0 != groups[k - 1].0);
            }
            let cur = present_groups(groups, scene, k);
            assert forall|q: int| 0 <= q < cur.len() implies exists|i: int| 0 <= i < k && (#[trigger] groups[i]).0.0 == #[trigger] cur[q] by {
                if q == prev.len() {
                    assert(groups[k - 1].0.0 == cur[q]);
                } else {
                    assert(cur[q] == prev[q]);
                }
            }
        }
    }
}

/// Space `id` of `post` (with outcome `out`) is the partial refresh, for `pre`'s dirty rows of
/// that space, of its storage in `pre` (or of an empty space).
pub open spec fn space_rows_refreshed(pre: RenderWorld, post: RenderWorld, scene: Seq<SceneSpaceRenderers>, id: i32, out: RefreshOutcome) -> bool {
    exists|prior: RenderWorldSpace| {
        &&& refresh_prior(pre.spaces.spec_ids().contains(id), pre.spaces.spec_get(id), prior)
        &&& #[trigger] renderer_work_done(
            prior,
            post.spaces.spec_get(id),
            dirty_indices(pre@.dirty_renderers, id, false),
            dirty_indices(pre@.dirty_renderers, id, true),
            scene_space_of(scene, id),
            RenderSpaceId(id),
            out,
        )
    }
}

/// `post` (with per-space outcomes `outs`) is `pre` after refreshing its dirty renderer rows,
/// grouped by space in `groups`: the dirty rows are consumed and supersede their bounds
/// dirties; spaces the scene lacks are removed in group order; each other dirty space is
/// refreshed for its dirty rows, starting from its retained storage (or an empty space), and
/// stored; every other storage is unchanged.
pub open spec fn dirty_renderers_refreshed(
    pre: RenderWorld,
    post: RenderWorld,
    scene: Seq<SceneSpaceRenderers>,
    groups: Seq<(RenderSpaceId, DirtyRendererSet)>,
    outs: Seq<RefreshOutcome>,
) -> bool {
    let dirty = pre@.dirty_renderers;
    let m0 = RenderWorldDirtyModel {
        dirty_renderers: Set::empty(),
        dirty_bounds: pre@.dirty_bounds.difference(dirty),
        ..pre@
    };
    let missing = missing_groups(groups, scene, groups.len() as int);
    let present = present_groups(groups, scene, groups.len() as int);
    let m1 = fold_remove_spaces(m0, missing, missing.len() as int);
    &&& grouped_by_space(dirty, groups)
    &&& post@ == (RenderWorldDirtyModel { spaces: m1.spaces.union(present.to_set()), ..m1 })
    &&& outs.len() == present.len()
    &&& forall|q: int| 0 <= q < present.len() ==> #[trigger] space_rows_refreshed(pre, post, scene, present[q], outs[q])
    &&& forall|id: i32| #[trigger] post.spaces.spec_ids().contains(id) && !present.contains(id) ==> post.spaces.spec_get(id) == pre.spaces.spec_get(id)
    &&& post.maintenance_stats == pre.maintenance_stats
}

/// A fold of removals depends only on the removed prefix.
proof fn lemma_fold_remove_prefix(m: RenderWorldDirtyModel, a: Seq<RenderSpaceId>, b: Seq<RenderSpaceId>, n: int)
    requires
        0 <= n <= a.len(),
        n <= b.len(),
        forall|j: int| 0 <= j < n ==> a[j] == b[j],
    ensures
        fold_remove_spaces(m, a, n) == fold_remove_spaces(m, b, n),
    decreases n,
{
    if n > 0 {
        lemma_fold_remove_prefix(m, a, b, n - 1);
    }
}

/// Removing spaces drops exactly their ids from the retained-space set.
proof fn lemma_fold_remove_spaces_set(m: RenderWorldDirtyModel, ids: Seq<RenderSpaceId>, n: int)
    requires
        0 <= n <= ids.len(),
    ensures
        forall|s: i32| #[trigger] fold_remove_spaces(m, ids, n).spaces.contains(s)
            <==> (m.spaces.contains(s) && forall|j: int| 0 <= j < n ==> (#[trigger] ids[j]).0 != s),
    decreases n,
{
    if n > 0 {
        lemma_fold_remove_spaces_set(m, ids, n - 1);
        let prev = fold_remove_spaces(m, ids, n - 1);
        let cur = fold_remove_spaces(m, ids, n);
        assert(cur.spaces == prev.spaces.remove(ids[n - 1].0));
        assert forall|s: i32| #[trigger] cur.spaces.contains(s)
            <==> (m.spaces.contains(s) && forall|j: int| 0 <= j < n ==> (#[trigger] ids[j]).0 != s) by {
            if cur.spaces.contains(s) {
                assert(prev.spaces.contains(s));
                assert(ids[n - 1].0 != s);
                assert forall|j: int| 0 <= j < n implies (#[trigger] ids[j]).0 != s by {
                    if j < n - 1 {
                        assert(ids[j].0 != s);
                    }
                }
            }
            if m.spaces.contains(s) && forall|j: int| 0 <= j < n ==> (#[trigger] ids[j]).0 != s {
                assert(ids[n - 1].0 != s);
                assert(forall|j: int| 0 <= j < n - 1 ==> (#[trigger] ids[j]).0 != s);
                assert(prev.spaces.contains(s));
            }
        }
    }
}

/// Every missing group id is absent from the scene.
proof fn lemma_missing_groups_absent_from_scene(groups: Seq<(RenderSpaceId, DirtyRendererSet)>, scene: Seq<SceneSpaceRenderers>, k: int)
    ensures
        forall|j: int| 0 <= j < missing_groups(groups, scene, k).len() ==> scene_space_of(scene, (#[trigger] missing_groups(groups, scene, k)[j]).0) is None,
    decreases k,
{
    if k > 0 {
        lemma_missing_groups_absent_from_scene(groups, scene, k - 1);
    }
}

/// Every present group id is in the scene.
proof fn lemma_present_groups_in_scene(groups: Seq<(RenderSpaceId, DirtyRendererSet)>, scene: Seq<SceneSpaceRenderers>, k: int)
    ensures
        forall|j: int| 0 <= j < present_groups(groups, scene, k).len() ==> scene_space_of(scene, #[trigger] present_groups(groups, scene, k)[j]) is Some,
    decreases k,
{
    if k > 0 {
        lemma_present_groups_in_scene(groups, scene, k - 1);
    }
}

/// Outcome of the bounds refresh of space `id` for `dirty` rows: every dirty row of the space
/// when the scene has it active, else nothing.
pub open spec fn bounds_outcome(dirty: Set<(i32, bool, usize)>, scene: Seq<SceneSpaceRenderers>, id: i32) -> RefreshOutcome {
    if scene_space_of(scene, id) is Some && scene_space_of(scene, id).unwrap().active {
        RefreshOutcome {
            renderer_count: sat_sum(dirty_indices(dirty, id, false).len() as int, dirty_indices(dirty, id, true).len() as int) as usize,
            ..no_outcome()
        }
    } else {
        no_outcome()
    }
}

/// Spaces among the first `k` of `present` whose bounds refresh touched rows of an active space,
/// in order: their prepared bounds and spatial data need a refit.
pub open spec fn bounds_refit_spaces(dirty: Set<(i32, bool, usize)>, scene: Seq<SceneSpaceRenderers>, present: Seq<i32>, k: int) -> Seq<RenderSpaceId>
    decreases k,
{
    if k <= 0 {
        Seq::empty()
    } else {
        let prev = bounds_refit_spaces(dirty, scene, present, k - 1);
        let id = present[k - 1];
        if scene_space_of(scene, id) is Some && scene_space_of(scene, id).unwrap().active
            && bounds_outcome(dirty, scene, id).renderer_count > 0 {
            prev.push(RenderSpaceId(id))
        } else {
            prev
        }
    }
}

/// `post` is `pre` after the bounds refresh of its bounds-dirty rows, grouped by space in
/// `groups`: the bounds dirties are consumed, spaces the scene lacks are removed in group order,
/// and every other dirty space keeps its storage with its activity taken from the scene.
pub open spec fn dirty_bounds_refreshed(pre: RenderWorld, post: RenderWorld, scene: Seq<SceneSpaceRenderers>, groups: Seq<(RenderSpaceId, DirtyRendererSet)>) -> bool {
    let dirty = pre@.dirty_bounds;
    let m0 = RenderWorldDirtyModel { dirty_bounds: Set::empty(), ..pre@ };
    let missing = missing_groups(groups, scene, groups.len() as int);
    let present = present_groups(groups, scene, groups.len() as int);
    &&& grouped_by_space(dirty, groups)
    &&& post@ == fold_remove_spaces(m0, missing, missing.len() as int)
    &&& forall|q: int| 0 <= q < present.len() ==> #[trigger] post.spaces.spec_get(present[q]) == (RenderWorldSpace {
        active: scene_space_of(scene, present[q]).unwrap().active,
        ..pre.spaces.spec_get(present[q])
    })
    &&& forall|id: i32| #[trigger] post.spaces.spec_ids().contains(id) && !present.contains(id) ==> post.spaces.spec_get(id) == pre.spaces.spec_get(id)
    &&& post.maintenance_stats == pre.maintenance_stats
}

impl RenderWorld {
    /// Refreshes every space marked for a full retained-template rebuild from the scene tables.
    pub fn refresh_dirty_spaces(&mut self, scene: &[SceneSpaceRenderers]) -> (outcome: RefreshOutcome)
        requires
            old(self).wf(),
        ensures
            final(self).wf(),
            exists|order: Seq<i32>| {
                &&& #[trigger] dirty_spaces_refreshed(*old(self), *final(self), scene@, order)
                &&& outcome == sum_outcomes(order.map_values(|id: i32| dirty_space_outcome(*final(self), scene@, id)), order.len() as int)
            },
    {
        let ghost pre = *self;
        let order = self.dirty_spaces.to_vec();
        self.dirty_spaces.clear();
        let ghost cleared = *self;
        let ghost dirty = pre@.dirty_spaces;
        let mut work: Vec<RenderWorldSpace> = Vec::new();
        let mut k: usize = 0;
        while k < order.len()
            invariant
                k <= order@.len(),
                order@.to_set() == dirty,
                order@.no_duplicates(),
                self.spaces.wf(),
                self.spaces.spec_ids() == pre.spaces.spec_ids().difference(order@.subrange(0, k as int).to_set()),
                forall|id: i32| #[trigger] self.spaces.spec_ids().contains(id) ==> self.spaces.spec_get(id) == pre.spaces.spec_get(id),
                renderer_dirty_contents(self.dirty_renderers) == pre@.dirty_renderers.filter(|key: (i32, bool, usize)| !order@.subrange(0, k as int).contains(key.0)),
                renderer_dirty_contents(self.dirty_bounds_renderers) == pre@.dirty_bounds.filter(|key: (i32, bool, usize)| !order@.subrange(0, k as int).contains(key.0)),
                work@.len() == k,
                forall|j: int| 0 <= j < k ==> refresh_prior(pre.spaces.spec_ids().contains(order@[j]), pre.spaces.spec_get(order@[j]), #[trigger] work@[j]),
                *self == (RenderWorld {
                    spaces: self.spaces,
                    dirty_renderers: self.dirty_renderers,
                    dirty_bounds_renderers: self.dirty_bounds_renderers,
                    ..cleared
                }),
            decreases order@.len() - k,
        {
            let id = order[k];
            self.dirty_renderers.retain_outside_space(id);
            self.dirty_bounds_renderers.retain_outside_space(id);
            let had = self.spaces.contains_key(id);
            let removed = self.spaces.remove(id);
            let cached = match removed {
                Some(space) => space,
                None => RenderWorldSpace::new(false),
            };
            work.push(cached);
            proof {
                let pre_k = order@.subrange(0, k as int);
                let post_k = order@.subrange(0, k + 1);
                assert(post_k =~= pre_k.push(id));
                pre_k.lemma_push_to_set_commute(id);
                assert forall|x: i32| #[trigger] post_k.contains(x) <==> (pre_k.contains(x) || x == id) by {
                    vstd::seq_lib::lemma_seq_contains_after_push(pre_k, id, x);
                }
                assert(!pre_k.contains(id)) by {
                    if pre_k.contains(id) {
                        let j = choose|j: int| 0 <= j < pre_k.len() && pre_k[j] == id;
                        assert(order@[j] == order@[k as int]);
                    }
                }
                assert(had == pre.spaces.spec_ids().contains(id));
                assert(renderer_dirty_contents(self.dirty_renderers) =~= pre@.dirty_renderers.filter(|key: (i32, bool, usize)| !post_k.contains(key.0)));
                assert(renderer_dirty_contents(self.dirty_bounds_renderers) =~= pre@.dirty_bounds.filter(|key: (i32, bool, usize)| !post_k.contains(key.0)));
                assert(self.spaces.spec_ids() =~= pre.spaces.spec_ids().difference(post_k.to_set()));
            }
            k += 1;
        }
        proof {
            assert(order@.subrange(0, order@.len() as int) =~= order@);
        }
        let ghost removed_all = *self;
        let mut outcome = RefreshOutcome { renderer_count: 0, template_count: 0, full_space_count: 0, spatial_refit_count: 0 };
        let ghost mut outs: Seq<RefreshOutcome> = Seq::empty();
        let ghost works = work@;
        let mut k: usize = 0;
        while k < order.len()
            invariant
                k <= order@.len() == works.len(),
                work@ == works.subrange(k as int, works.len() as int),
                order@.to_set() == dirty,
                order@.no_duplicates(),
                removed_all.spaces.spec_ids() == pre.spaces.spec_ids().difference(order@.to_set()),
                self.spaces.wf(),
                self.spaces.spec_ids() == removed_all.spaces.spec_ids().union(
                    order@.subrange(0, k as int).to_set().filter(|id: i32| scene_space_of(scene@, id) is Some)),
                forall|id: i32| #[trigger] removed_all.spaces.spec_ids().contains(id) ==> self.spaces.spec_get(id) == pre.spaces.spec_get(id),
                forall|j: int| 0 <= j < k && scene_space_of(scene@, #[trigger] order@[j]) is Some ==> space_refreshed(
                    works[j], self.spaces.spec_get(order@[j]), scene_space_of(scene@, order@[j]), RenderSpaceId(order@[j])),
                outs.len() == k,
                forall|j: int| 0 <= j < k ==> #[trigger] outs[j] == dirty_space_outcome(*self, scene@, order@[j]),
                outcome == sum_outcomes(outs, k as int),
                *self == (RenderWorld { spaces: self.spaces, ..removed_all }),
            decreases order@.len() - k,
        {
            let mut cached = work.remove(0);
            proof {
                assert(works.subrange(k as int, works.len() as int)[0] == works[k as int]);
                assert(work@ =~= works.subrange(k + 1, works.len() as int));
            }
            let id = order[k];
            let space = scene_space(scene, id);
            let space_outcome = refresh_render_world_space(&mut cached, space, RenderSpaceId(id));
            outcome = add_outcome(outcome, space_outcome);
            let ghost before = *self;
            if space.is_some() {
                self.spaces.insert(id, cached);
            }
            proof {
                let pre_k = order@.subrange(0, k as int);
                let post_k = order@.subrange(0, k + 1);
                assert(post_k =~= pre_k.push(id));
                assert(!pre_k.contains(id)) by {
                    if pre_k.contains(id) {
                        let j = choose|j: int| 0 <= j < pre_k.len() && pre_k[j] == id;
                        assert(order@[j] == order@[k as int]);
                    }
                }
                assert(!removed_all.spaces.spec_ids().contains(id)) by {
                    assert(order@[k as int] == id);
                    assert(order@.contains(id));
                    assert(order@.to_set().contains(id));
                }
                let old_outs = outs;
                outs = outs.push(space_outcome);
                lemma_sum_outcomes_prefix(old_outs, outs, k as int);
                assert forall|x: i32| #[trigger] post_k.contains(x) <==> (pre_k.contains(x) || x == id) by {
                    vstd::seq_lib::lemma_seq_contains_after_push(pre_k, id, x);
                }
                assert(self.spaces.spec_ids() =~= removed_all.spaces.spec_ids().union(
                    post_k.to_set().filter(|i: i32| scene_space_of(scene@, i) is Some)));
                assert forall|j: int| 0 <= j < k + 1 implies #[trigger] outs[j] == dirty_space_outcome(*self, scene@, order@[j]) by {
                    if j < k {
                        assert(order@[j] != id);
                        assert(pre_k[j] == order@[j]);
                        assert(pre_k.contains(order@[j]));
                    }
                }
                assert forall|j: int| 0 <= j < k + 1 && scene_space_of(scene@, #[trigger] order@[j]) is Some implies space_refreshed(
                    works[j], self.spaces.spec_get(order@[j]), scene_space_of(scene@, order@[j]), RenderSpaceId(order@[j])) by {
                    if j < k {
                        assert(order@[j] != id);
                        assert(pre_k[j] == order@[j]);
                        assert(pre_k.contains(order@[j]));
                    }
                }
            }
            k += 1;
        }
        proof {
            assert(order@.subrange(0, order@.len() as int) =~= order@);
            assert(outs =~= order@.map_values(|id: i32| dirty_space_outcome(*self, scene@, id)));
            assert(self@.spaces =~= pre@.spaces.difference(dirty).union(dirty.filter(|id: i32| scene_space_of(scene@, id) is Some)));
            assert(self@.dirty_spaces =~= Set::<i32>::empty());
            assert(self@.dirty_renderers =~= pre@.dirty_renderers.filter(|key: (i32, bool, usize)| !dirty.contains(key.0)));
            assert(self@.dirty_bounds =~= pre@.dirty_bounds.filter(|key: (i32, bool, usize)| !dirty.contains(key.0)));
            assert forall|id: i32| #[trigger] dirty.contains(id) && scene_space_of(scene@, id) is Some implies exists|prior: RenderWorldSpace| {
                &&& refresh_prior(pre.spaces.spec_ids().contains(id), pre.spaces.spec_get(id), prior)
                &&& space_refreshed(prior, self.spaces.spec_get(id), scene_space_of(scene@, id), RenderSpaceId(id))
            } by {
                let j = choose|j: int| 0 <= j < order@.len() && order@[j] == id;
                assert(refresh_prior(pre.spaces.spec_ids().contains(id), pre.spaces.spec_get(id), works[j]));
            }
            assert forall|k2: (i32, bool, usize)| #[trigger] self@.dirty_bounds.contains(k2) implies self@.spaces.contains(k2.0) by {
                assert(pre@.dirty_bounds.contains(k2));
            }
            assert(dirty_spaces_refreshed(pre, *self, scene@, order@));
        }
        outcome
    }

    /// Takes the dirty renderer rows and drops their bounds dirties.
    fn take_dirty_renderer_rows(&mut self) -> (rows: Vec<(i32, bool, usize)>)
        requires
            old(self).wf(),
        ensures
            final(self).wf(),
            rows@.to_set() == old(self)@.dirty_renderers,
            final(self)@ == (RenderWorldDirtyModel {
                dirty_renderers: Set::empty(),
                dirty_bounds: old(self)@.dirty_bounds.difference(old(self)@.dirty_renderers),
                ..old(self)@
            }),
            final(self).spaces == old(self).spaces,
            final(self).maintenance_stats == old(self).maintenance_stats,
    {
        let ghost pre = *self;
        let rows = self.dirty_renderers.to_vec();
        self.dirty_renderers.clear();
        let mut k: usize = 0;
        while k < rows.len()
            invariant
                k <= rows@.len(),
                forall|key: (i32, bool, usize)| pre@.dirty_renderers.contains(key) <==> rows@.contains(key),
                renderer_dirty_contents(self.dirty_bounds_renderers) == pre@.dirty_bounds.filter(|key: (i32, bool, usize)| !rows@.subrange(0, k as int).contains(key)),
                forall|key: (i32, bool, usize)| !renderer_dirty_contents(self.dirty_renderers).contains(key),
                *self == (RenderWorld { dirty_renderers: self.dirty_renderers, dirty_bounds_renderers: self.dirty_bounds_renderers, ..pre }),
            decreases rows@.len() - k,
        {
            self.dirty_bounds_renderers.remove(rows[k]);
            proof {
                let a = rows@.subrange(0, k as int);
                let b = rows@.subrange(0, k + 1);
                assert(b =~= a.push(rows@[k as int]));
                assert forall|x: (i32, bool, usize)| #[trigger] b.contains(x) <==> (a.contains(x) || x == rows@[k as int]) by {
                    vstd::seq_lib::lemma_seq_contains_after_push(a, rows@[k as int], x);
                }
                assert(renderer_dirty_contents(self.dirty_bounds_renderers) =~= pre@.dirty_bounds.filter(|key: (i32, bool, usize)| !b.contains(key)));
            }
            k += 1;
        }
        proof {
            assert(rows@.subrange(0, rows@.len() as int) =~= rows@);
            assert(rows@.to_set() =~= pre@.dirty_renderers);
            assert(self@.dirty_renderers =~= Set::<(i32, bool, usize)>::empty());
            assert(self@.dirty_bounds =~= pre@.dirty_bounds.difference(pre@.dirty_renderers));
            assert forall|key: (i32, bool, usize)| #[trigger] self@.dirty_bounds.contains(key) implies self@.spaces.contains(key.0) by {
                assert(pre@.dirty_bounds.contains(key));
            }
        }
        rows
    }

    /// Removes every space of `groups` that the scene no longer has, in group order.
    fn remove_missing_group_spaces(&mut self, groups: &Vec<(RenderSpaceId, DirtyRendererSet)>, scene: &[SceneSpaceRenderers])
        requires
            old(self).wf(),
        ensures
            final(self).wf(),
            final(self)@ == fold_remove_spaces(old(self)@, missing_groups(groups@, scene@, groups@.len() as int), missing_groups(groups@, scene@, groups@.len() as int).len() as int),
            final(self).storage_kept(old(self)),
            final(self).maintenance_stats == old(self).maintenance_stats,
    {
        let ghost pre = *self;
        let mut j: usize = 0;
        while j < groups.len()
            invariant
                j <= groups@.len(),
                self.wf(),
                self@ == fold_remove_spaces(pre@, missing_groups(groups@, scene@, j as int), missing_groups(groups@, scene@, j as int).len() as int),
                self.storage_kept(&pre),
                self.maintenance_stats == pre.maintenance_stats,
            decreases groups@.len() - j,
        {
            let id = groups[j].0;
            let ghost prev = missing_groups(groups@, scene@, j as int);
            if scene_space(scene, id.0).is_none() {
                let ghost before = *self;
                self.remove_space(id);
                proof {
                    let next = missing_groups(groups@, scene@, j + 1);
                    assert(next == prev.push(id));
                    lemma_fold_remove_prefix(pre@, prev, next, prev.len() as int);
                    assert forall|k: i32| #[trigger] self.spaces.spec_ids().contains(k) implies pre.spaces.spec_ids().contains(k)
                        && self.spaces.spec_get(k) == pre.spaces.spec_get(k) by {
                        assert(before.spaces.spec_ids().contains(k));
                    }
                }
            }
            j += 1;
        }
    }

    /// Takes the retained storage (or an empty space) of every space of `groups` the scene still
    /// has, in group order, with the index of its group.
    fn take_present_group_spaces(&mut self, groups: &Vec<(RenderSpaceId, DirtyRendererSet)>, scene: &[SceneSpaceRenderers]) -> (work: Vec<(usize, RenderWorldSpace)>)
        requires
            old(self).spaces.wf(),
            forall|i: int, j: int| 0 <= i < j < groups@.len() ==> (#[trigger] groups@[i]).0 != (#[trigger] groups@[j]).0,
        ensures
            final(self).spaces.wf(),
            final(self).spaces.spec_ids() == old(self).spaces.spec_ids().difference(present_groups(groups@, scene@, groups@.len() as int).to_set()),
            forall|id: i32| #[trigger] final(self).spaces.spec_ids().contains(id) ==> final(self).spaces.spec_get(id) == old(self).spaces.spec_get(id),
            *final(self) == (RenderWorld { spaces: final(self).spaces, ..*old(self) }),
            work@.len() == present_groups(groups@, scene@, groups@.len() as int).len(),
            forall|p: int| 0 <= p < work@.len() ==> {
                let id = present_groups(groups@, scene@, groups@.len() as int)[p];
                &&& (#[trigger] work@[p]).0 < groups@.len()
                &&& groups@[work@[p].0 as int].0.0 == id
                &&& refresh_prior(old(self).spaces.spec_ids().contains(id), old(self).spaces.spec_get(id), work@[p].1)
            },
    {
        let ghost pre = *self;
        let mut work: Vec<(usize, RenderWorldSpace)> = Vec::new();
        let mut j: usize = 0;
        while j < groups.len()
            invariant
                j <= groups@.len(),
                forall|i: int, k: int| 0 <= i < k < groups@.len() ==> (#[trigger] groups@[i]).0 != (#[trigger] groups@[k]).0,
                self.spaces.wf(),
                self.spaces.spec_ids() == pre.spaces.spec_ids().difference(present_groups(groups@, scene@, j as int).to_set()),
                forall|id: i32| #[trigger] self.spaces.spec_ids().contains(id) ==> self.spaces.spec_get(id) == pre.spaces.spec_get(id),
                work@.len() == present_groups(groups@, scene@, j as int).len(),
                forall|p: int| 0 <= p < work@.len() ==> {
                    let id = present_groups(groups@, scene@, j as int)[p];
                    &&& (#[trigger] work@[p]).0 < j
                    &&& groups@[work@[p].0 as int].0.0 == id
                    &&& refresh_prior(pre.spaces.spec_ids().contains(id), pre.spaces.spec_get(id), work@[p].1)
                },
                *self == (RenderWorld { spaces: self.spaces, ..pre }),
            decreases groups@.len() - j,
        {
            let id = groups[j].0;
            let ghost prev = present_groups(groups@, scene@, j as int);
            if scene_space(scene, id.0).is_some() {
                let cached = match self.spaces.remove(id.0) {
                    Some(space) => space,
                    None => RenderWorldSpace::new(false),
                };
                let ghost old_work = work@;
                work.push((j, cached));
                proof {
                    let next = present_groups(groups@, scene@, j + 1);
                    assert(next == prev.push(id.0));
                    lemma_present_groups_distinct(groups@, scene@, j as int);
                    assert(!prev.contains(id.0)) by {
                        if prev.contains(id.0) {
                            let q = choose|q: int| 0 <= q < prev.len() && prev[q] == id.0;
                            let i = choose|i: int| 0 <= i < j && (#[trigger] groups@[i]).0.0 == prev[q];
                            assert(groups@[i].0 != groups@[j as int].0);
                        }
                    }
                    prev.lemma_push_to_set_commute(id.0);
                    assert(self.spaces.spec_ids() =~= pre.spaces.spec_ids().difference(next.to_set()));
                    assert forall|p: int| 0 <= p < work@.len() implies {
                        let pid = next[p];
                        &&& (#[trigger] work@[p]).0 < j + 1
                        &&& groups@[work@[p].0 as int].0.0 == pid
                        &&& refresh_prior(pre.spaces.spec_ids().contains(pid), pre.spaces.spec_get(pid), work@[p].1)
                    } by {
                        if p < old_work.len() {
                            assert(next[p] == prev[p]);
                            assert(work@[p] == old_work[p]);
                        }
                    }
                }
            } else {
                proof {
                    assert(present_groups(groups@, scene@, j + 1) == prev);
                }
            }
            j += 1;
        }
        work
    }

    /// Refreshes each taken space for its group's dirty rows and stores it again.
    fn refresh_group_work(
        &mut self,
        groups: &Vec<(RenderSpaceId, DirtyRendererSet)>,
        scene: &[SceneSpaceRenderers],
        work: Vec<(usize, RenderWorldSpace)>,
        Ghost(present): Ghost<Seq<i32>>,
    ) -> (outcome: RefreshOutcome)
        requires
            old(self).spaces.wf(),
            present.no_duplicates(),
            work@.len() == present.len(),
            forall|p: int| 0 <= p < work@.len() ==> (#[trigger] work@[p]).0 < groups@.len() && groups@[work@[p].0 as int].0.0 == present[p],
        ensures
            final(self).spaces.wf(),
            final(self).spaces.spec_ids() == old(self).spaces.spec_ids().union(present.to_set()),
            forall|id: i32| #[trigger] final(self).spaces.spec_ids().contains(id) && !present.contains(id) ==> final(self).spaces.spec_get(id) == old(self).spaces.spec_get(id),
            *final(self) == (RenderWorld { spaces: final(self).spaces, ..*old(self) }),
            exists|outs: Seq<RefreshOutcome>| {
                &&& outs.len() == present.len()
                &&& outcome == sum_outcomes(outs, outs.len() as int)
                &&& forall|q: int| 0 <= q < present.len() ==> renderer_work_done(
                    work@[q].1,
                    final(self).spaces.spec_get(present[q]),
                    index_set_contents(groups@[work@[q].0 as int].1.static_indices),
                    index_set_contents(groups@[work@[q].0 as int].1.skinned_indices),
                    scene_space_of(scene@, present[q]),
                    RenderSpaceId(present[q]),
                    #[trigger] outs[q],
                )
            },
    {
        let ghost pre = *self;
        let ghost works = work@;
        let mut work = work;
        let mut outcome = RefreshOutcome { renderer_count: 0, template_count: 0, full_space_count: 0, spatial_refit_count: 0 };
        let ghost mut outs: Seq<RefreshOutcome> = Seq::empty();
        let mut p: usize = 0;
        let total = work.len();
        while p < total
            invariant
                total == works.len() == present.len(),
                p <= total,
                work@ == works.subrange(p as int, total as int),
                present.no_duplicates(),
                forall|q: int| 0 <= q < works.len() ==> (#[trigger] works[q]).0 < groups@.len() && groups@[works[q].0 as int].0.0 == present[q],
                self.spaces.wf(),
                self.spaces.spec_ids() == pre.spaces.spec_ids().union(present.subrange(0, p as int).to_set()),
                forall|id: i32| #[trigger] self.spaces.spec_ids().contains(id) && !present.subrange(0, p as int).contains(id) ==> self.spaces.spec_get(id) == pre.spaces.spec_get(id),
                outs.len() == p,
                forall|q: int| 0 <= q < p ==> renderer_work_done(
                    works[q].1,
                    self.spaces.spec_get(present[q]),
                    index_set_contents(groups@[works[q].0 as int].1.static_indices),
                    index_set_contents(groups@[works[q].0 as int].1.skinned_indices),
                    scene_space_of(scene@, present[q]),
                    RenderSpaceId(present[q]),
                    #[trigger] outs[q],
                ),
                outcome == sum_outcomes(outs, p as int),
                *self == (RenderWorld { spaces: self.spaces, ..pre }),
            decreases total - p,
        {
            let (g, mut cached) = work.remove(0);
            proof {
                assert(works.subrange(p as int, total as int)[0] == works[p as int]);
                assert(work@ =~= works.subrange(p + 1, total as int));
            }
            let id = groups[g].0;
            let space = scene_space(scene, id.0);
            let space_outcome = refresh_dirty_renderer_work(&mut cached, &groups[g].1, space, id);
            outcome = add_outcome(outcome, space_outcome);
            let ghost before = *self;
            self.spaces.insert(id.0, cached);
            proof {
                assert forall|q: int| 0 <= q < p implies self.spaces.spec_get(present[q]) == before.spaces.spec_get(present[q]) by {
                    assert(present[q] != present[p as int]);
                    assert(present.subrange(0, p as int)[q] == present[q]);
                    assert(present.subrange(0, p as int).to_set().contains(present[q]));
                }
                let old_outs = outs;
                outs = outs.push(space_outcome);
                lemma_sum_outcomes_prefix(old_outs, outs, p as int);
                assert(present[p as int] == id.0);
                let a = present.subrange(0, p as int);
                let b = present.subrange(0, p + 1);
                assert(b =~= a.push(id.0));
                a.lemma_push_to_set_commute(id.0);
                assert forall|x: i32| #[trigger] b.contains(x) <==> (a.contains(x) || x == id.0) by {
                    vstd::seq_lib::lemma_seq_contains_after_push(a, id.0, x);
                }
                assert forall|q: int| 0 <= q < p implies present[q] != id.0 by {}
                assert(self.spaces.spec_ids() =~= pre.spaces.spec_ids().union(b.to_set()));
            }
            p += 1;
        }
        proof {
            assert(present.subrange(0, total as int) =~= present);
        }
        outcome
    }

    /// Refreshes individual renderer records marked dirty by scene or mesh-pool events: their
    /// bounds dirties are superseded, spaces the scene no longer has are removed, and every other
    /// dirty space is refreshed for its dirty rows.
    pub fn refresh_dirty_renderers(&mut self, scene: &[SceneSpaceRenderers]) -> (outcome: RefreshOutcome)
        requires
            old(self).wf(),
        ensures
            final(self).wf(),
            exists|groups: Seq<(RenderSpaceId, DirtyRendererSet)>, outs: Seq<RefreshOutcome>| {
                &&& #[trigger] dirty_renderers_refreshed(*old(self), *final(self), scene@, groups, outs)
                &&& outcome == sum_outcomes(outs, outs.len() as int)
            },
    {
        let ghost pre = *self;
        let rows = self.take_dirty_renderer_rows();
        let ghost m0 = self@;
        let groups = group_dirty_rows_by_space(&rows);
        self.remove_missing_group_spaces(&groups, scene);
        let ghost after_removals = *self;
        let work = self.take_present_group_spaces(&groups, scene);
        let ghost after_take = *self;
        let ghost present = present_groups(groups@, scene@, groups@.len() as int);
        proof {
            lemma_present_groups_distinct(groups@, scene@, groups@.len() as int);
        }
        let ghost works = work@;
        let outcome = self.refresh_group_work(&groups, scene, work, Ghost(present));
        proof {
            let outs = choose|outs: Seq<RefreshOutcome>| {
                &&& outs.len() == present.len()
                &&& outcome == sum_outcomes(outs, outs.len() as int)
                &&& forall|q: int| 0 <= q < present.len() ==> renderer_work_done(
                    works[q].1,
                    self.spaces.spec_get(present[q]),
                    index_set_contents(groups@[works[q].0 as int].1.static_indices),
                    index_set_contents(groups@[works[q].0 as int].1.skinned_indices),
                    scene_space_of(scene@, present[q]),
                    RenderSpaceId(present[q]),
                    #[trigger] outs[q],
                )
            };
            assert(self@.spaces =~= after_removals@.spaces.union(present.to_set())) by {
                assert forall|x: i32| present.to_set().contains(x) implies after_removals.spaces.spec_ids().contains(x) || true by {}
            }
            assert forall|q: int| 0 <= q < present.len() implies #[trigger] space_rows_refreshed(pre, *self, scene@, present[q], outs[q]) by {
                let g = works[q].0 as int;
                assert(groups@[g].0.0 == present[q]);
                assert(index_set_contents(groups@[g].1.static_indices) == dirty_indices(pre@.dirty_renderers, present[q], false));
                assert(index_set_contents(groups@[g].1.skinned_indices) == dirty_indices(pre@.dirty_renderers, present[q], true));
                assert(refresh_prior(after_removals.spaces.spec_ids().contains(present[q]), after_removals.spaces.spec_get(present[q]), works[q].1));
                let missing = missing_groups(groups@, scene@, groups@.len() as int);
                lemma_fold_remove_spaces_set(m0, missing, missing.len() as int);
                lemma_missing_groups_absent_from_scene(groups@, scene@, groups@.len() as int);
                assert(scene_space_of(scene@, present[q]) is Some) by {
                    lemma_present_groups_in_scene(groups@, scene@, groups@.len() as int);
                }
                assert forall|j: int| 0 <= j < missing.len() implies (#[trigger] missing[j]).0 != present[q] by {}
                if pre.spaces.spec_ids().contains(present[q]) {
                    assert(after_removals.spaces.spec_ids().contains(present[q]));
                }
                assert(refresh_prior(pre.spaces.spec_ids().contains(present[q]), pre.spaces.spec_get(present[q]), works[q].1));
            }
            assert(grouped_by_space(pre@.dirty_renderers, groups@));
            assert forall|id: i32| #[trigger] self.spaces.spec_ids().contains(id) && !present.contains(id) implies self.spaces.spec_get(id) == pre.spaces.spec_get(id) by {
                assert(after_take.spaces.spec_ids().contains(id));
                assert(after_removals.spaces.spec_ids().contains(id));
            }
            let missing = missing_groups(groups@, scene@, groups@.len() as int);
            let m1 = fold_remove_spaces(m0, missing, missing.len() as int);
            assert(after_removals@ == m1);
            assert(self@ == (RenderWorldDirtyModel { spaces: m1.spaces.union(present.to_set()), ..m1 }));
            let sm0 = RenderWorldDirtyModel {
                dirty_renderers: Set::empty(),
                dirty_bounds: pre@.dirty_bounds.difference(pre@.dirty_renderers),
                ..pre@
            };
            assert(sm0 == m0);
            assert(outs.len() == present.len());
            assert(self.maintenance_stats == pre.maintenance_stats);
            assert(dirty_renderers_refreshed(pre, *self, scene@, groups@, outs));
        }
        outcome
    }

    /// Runs the bounds work of each taken space and stores it again.
    fn refresh_bounds_group_work(
        &mut self,
        groups: &Vec<(RenderSpaceId, DirtyRendererSet)>,
        scene: &[SceneSpaceRenderers],
        work: Vec<(usize, RenderWorldSpace)>,
        Ghost(present): Ghost<Seq<i32>>,
        Ghost(dirty): Ghost<Set<(i32, bool, usize)>>,
    ) -> (r: (RefreshOutcome, Vec<RenderSpaceId>))
        requires
            old(self).spaces.wf(),
            present.no_duplicates(),
            work@.len() == present.len(),
            grouped_by_space(dirty, groups@),
            forall|p: int| 0 <= p < work@.len() ==> (#[trigger] work@[p]).0 < groups@.len() && groups@[work@[p].0 as int].0.0 == present[p],
        ensures
            final(self).spaces.wf(),
            final(self).spaces.spec_ids() == old(self).spaces.spec_ids().union(present.to_set()),
            forall|id: i32| #[trigger] final(self).spaces.spec_ids().contains(id) && !present.contains(id) ==> final(self).spaces.spec_get(id) == old(self).spaces.spec_get(id),
            forall|q: int| 0 <= q < present.len() ==> #[trigger] final(self).spaces.spec_get(present[q]) == (RenderWorldSpace {
                active: scene_space_of(scene@, present[q]) is Some && scene_space_of(scene@, present[q]).unwrap().active,
                ..work@[q].1
            }),
            *final(self) == (RenderWorld { spaces: final(self).spaces, ..*old(self) }),
            r.0 == sum_outcomes(present.map_values(|id: i32| bounds_outcome(dirty, scene@, id)), present.len() as int),
            r.1@ == bounds_refit_spaces(dirty, scene@, present, present.len() as int),
    {
        let ghost pre = *self;
        let ghost works = work@;
        let mut work = work;
        let mut outcome = RefreshOutcome { renderer_count: 0, template_count: 0, full_space_count: 0, spatial_refit_count: 0 };
        let mut refit: Vec<RenderSpaceId> = Vec::new();
        let mut p: usize = 0;
        let total = work.len();
        while p < total
            invariant
                total == works.len() == present.len(),
                p <= total,
                work@ == works.subrange(p as int, total as int),
                present.no_duplicates(),
                forall|q: int| 0 <= q < works.len() ==> (#[trigger] works[q]).0 < groups@.len() && groups@[works[q].0 as int].0.0 == present[q],
                grouped_by_space(dirty, groups@),
                self.spaces.wf(),
                self.spaces.spec_ids() == pre.spaces.spec_ids().union(present.subrange(0, p as int).to_set()),
                forall|id: i32| #[trigger] self.spaces.spec_ids().contains(id) && !present.subrange(0, p as int).contains(id) ==> self.spaces.spec_get(id) == pre.spaces.spec_get(id),
                forall|q: int| 0 <= q < p ==> #[trigger] self.spaces.spec_get(present[q]) == (RenderWorldSpace {
                    active: scene_space_of(scene@, present[q]) is Some && scene_space_of(scene@, present[q]).unwrap().active,
                    ..works[q].1
                }),
                outcome == sum_outcomes(present.map_values(|id: i32| bounds_outcome(dirty, scene@, id)), p as int),
                refit@ == bounds_refit_spaces(dirty, scene@, present, p as int),
                *self == (RenderWorld { spaces: self.spaces, ..pre }),
            decreases total - p,
        {
            let (g, mut cached) = work.remove(0);
            proof {
                assert(works.subrange(p as int, total as int)[0] == works[p as int]);
                assert(work@ =~= works.subrange(p + 1, total as int));
            }
            let id = groups[g].0;
            let space = scene_space(scene, id.0);
            let space_outcome = refresh_dirty_bounds_work(&mut cached, &groups[g].1, space);
            proof {
                assert(present[p as int] == id.0);
                assert(index_set_contents(groups@[g as int].1.static_indices) == dirty_indices(dirty, id.0, false));
                assert(index_set_contents(groups@[g as int].1.skinned_indices) == dirty_indices(dirty, id.0, true));
                assert(space_outcome == bounds_outcome(dirty, scene@, id.0));
                assert(present.map_values(|i: i32| bounds_outcome(dirty, scene@, i))[p as int] == space_outcome);
            }
            outcome = add_outcome(outcome, space_outcome);
            if cached.active && space_outcome.renderer_count > 0 {
                refit.push(id);
            }
            let ghost before = *self;
            self.spaces.insert(id.0, cached);
            proof {
                assert forall|q: int| 0 <= q < p implies self.spaces.spec_get(present[q]) == before.spaces.spec_get(present[q]) by {
                    assert(present[q] != present[p as int]);
                    assert(present.subrange(0, p as int)[q] == present[q]);
                    assert(present.subrange(0, p as int).to_set().contains(present[q]));
                }
                let a = present.subrange(0, p as int);
                let b = present.subrange(0, p + 1);
                assert(b =~= a.push(id.0));
                a.lemma_push_to_set_commute(id.0);
                assert forall|x: i32| #[trigger] b.contains(x) <==> (a.contains(x) || x == id.0) by {
                    vstd::seq_lib::lemma_seq_contains_after_push(a, id.0, x);
                }
                assert(self.spaces.spec_ids() =~= pre.spaces.spec_ids().union(b.to_set()));
            }
            p += 1;
        }
        proof {
            assert(present.subrange(0, total as int) =~= present);
        }
        (outcome, refit)
    }

    /// Takes the bounds-dirty rows.
    fn take_dirty_bounds_rows(&mut self) -> (rows: Vec<(i32, bool, usize)>)
        requires
            old(self).wf(),
        ensures
            final(self).wf(),
            rows@.to_set() == old(self)@.dirty_bounds,
            final(self)@ == (RenderWorldDirtyModel { dirty_bounds: Set::empty(), ..old(self)@ }),
            final(self).spaces == old(self).spaces,
            final(self).maintenance_stats == old(self).maintenance_stats,
    {
        let rows = self.dirty_bounds_renderers.to_vec();
        self.dirty_bounds_renderers.clear();
        proof {
            assert(rows@.to_set() =~= old(self)@.dirty_bounds);
            assert(self@.dirty_bounds =~= Set::<(i32, bool, usize)>::empty());
        }
        rows
    }

    /// Refreshes dynamic bounds for renderer records marked by transform-only scene changes;
    /// returns the outcome and the spaces whose prepared bounds and spatial data need a refit
    /// (the float bounds themselves are recomputed by the caller).
    pub fn refresh_dirty_bounds(&mut self, scene: &[SceneSpaceRenderers]) -> (r: (RefreshOutcome, Vec<RenderSpaceId>))
        requires
            old(self).wf(),
        ensures
            final(self).wf(),
            exists|groups: Seq<(RenderSpaceId, DirtyRendererSet)>| {
                let present = present_groups(groups, scene@, groups.len() as int);
                &&& #[trigger] dirty_bounds_refreshed(*old(self), *final(self), scene@, groups)
                &&& r.0 == sum_outcomes(present.map_values(|id: i32| bounds_outcome(old(self)@.dirty_bounds, scene@, id)), present.len() as int)
                &&& r.1@ == bounds_refit_spaces(old(self)@.dirty_bounds, scene@, present, present.len() as int)
            },
    {
        let ghost pre = *self;
        let rows = self.take_dirty_bounds_rows();
        let ghost m0 = self@;
        let groups = group_dirty_rows_by_space(&rows);
        self.remove_missing_group_spaces(&groups, scene);
        let ghost after_removals = *self;
        let work = self.take_present_group_spaces(&groups, scene);
        let ghost after_take = *self;
        let ghost present = present_groups(groups@, scene@, groups@.len() as int);
        let ghost dirty = pre@.dirty_bounds;
        proof {
            lemma_present_groups_distinct(groups@, scene@, groups@.len() as int);
            let missing = missing_groups(groups@, scene@, groups@.len() as int);
            lemma_fold_remove_spaces_set(m0, missing, missing.len() as int);
            lemma_present_groups_in_scene(groups@, scene@, groups@.len() as int);
        }
        let ghost works = work@;
        let (outcome, refit) = self.refresh_bounds_group_work(&groups, scene, work, Ghost(present), Ghost(dirty));
        proof {
            let missing = missing_groups(groups@, scene@, groups@.len() as int);
            assert(after_removals@ == fold_remove_spaces(m0, missing, missing.len() as int));
            lemma_missing_groups_absent_from_scene(groups@, scene@, groups@.len() as int);
            assert forall|x: i32| #[trigger] present.contains(x) implies after_removals.spaces.spec_ids().contains(x) by {
                let q = choose|q: int| 0 <= q < present.len() && present[q] == x;
                let g = works[q].0 as int;
                assert(groups@[g].0.0 == x);
                assert(exists|k: (i32, bool, usize)| dirty.contains(k) && k.0 == groups@[g].0.0);
                let w = choose|k: (i32, bool, usize)| dirty.contains(k) && k.0 == groups@[g].0.0;
                assert(pre@.dirty_bounds.contains(w));
                assert(pre@.spaces.contains(x));
                assert(m0.spaces.contains(x));
                assert(scene_space_of(scene@, x) is Some);
                assert forall|j: int| 0 <= j < missing.len() implies (#[trigger] missing[j]).0 != x by {}
                assert(fold_remove_spaces(m0, missing, missing.len() as int).spaces.contains(x));
            }
            assert(self@.spaces =~= after_removals@.spaces) by {
                assert forall|x: i32| present.to_set().contains(x) implies after_removals.spaces.spec_ids().contains(x) by {
                    assert(present.contains(x));
                }
            }
            assert forall|q: int| 0 <= q < present.len() implies #[trigger] self.spaces.spec_get(present[q]) == (RenderWorldSpace {
                active: scene_space_of(scene@, present[q]).unwrap().active,
                ..pre.spaces.spec_get(present[q])
            }) by {
                assert(present.contains(present[q]));
                assert(after_removals.spaces.spec_ids().contains(present[q]));
            }
            assert forall|id: i32| #[trigger] self.spaces.spec_ids().contains(id) && !present.contains(id) implies self.spaces.spec_get(id) == pre.spaces.spec_get(id) by {
                assert(after_take.spaces.spec_ids().contains(id));
                assert(after_removals.spaces.spec_ids().contains(id));
            }
            assert(dirty_bounds_refreshed(pre, *self, scene@, groups@));
        }
        (outcome, refit)
    }
}

} // verus!
