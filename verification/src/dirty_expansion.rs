//! Expansion of deferred render-world dirties (moved transform roots, changed mesh assets) into
//! renderer-row dirties through the retained reverse indexes.
use vstd::prelude::*;

use crate::collections::{
    CounterMap, NodePairSet, RenderWorldRendererRef, counter_map_contents, node_pair_set_contents,
    ref_index_contents,
};
use crate::collections::{IdSet, id_set_contents};
use crate::maintenance::RenderWorldMaintenanceStats;
use crate::render_world::{
    RenderWorld, RenderWorldBoundsDirty, RenderWorldDirtyModel, RenderWorldRendererDirty, RenderWorldTransformDirty,
    sat_inc, spec_dirty_key, spec_note_bounds_dirty, spec_note_renderer_dirty, spec_remove_space,
};
use crate::retained::{RenderWorldRendererTemplate, RenderWorldSpace};
use crate::shared::{RenderSpaceId, RenderWorldRendererKind};
use crate::transform_tree::{
    node_is_under_any_root, spec_is_under_any_root, spec_roots_cover_space, transform_roots_cover_space,
};

verus! {

/// Space ids in first-seen order over `ds[0..n)`.
pub open spec fn first_seen_spaces(ds: Seq<RenderWorldTransformDirty>, n: int) -> Seq<i32>
    decreases n,
{
    if n <= 0 {
        Seq::empty()
    } else {
        let p = first_seen_spaces(ds, n - 1);
        if p.contains(ds[n - 1].space_id.0) { p } else { p.push(ds[n - 1].space_id.0) }
    }
}

/// Root ids of the dirties of `space` in `ds[0..n)`, concatenated in input order.
pub open spec fn space_roots(ds: Seq<RenderWorldTransformDirty>, space: i32, n: int) -> Seq<i32>
    decreases n,
{
    if n <= 0 {
        Seq::empty()
    } else if ds[n - 1].space_id.0 == space {
        space_roots(ds, space, n - 1) + ds[n - 1].root_node_ids@
    } else {
        space_roots(ds, space, n - 1)
    }
}

/// First occurrence of each element, in order.
pub open spec fn first_occurrences(s: Seq<i32>) -> Seq<i32>
    decreases s.len(),
{
    if s.len() == 0 {
        s
    } else {
        let p = first_occurrences(s.drop_last());
        if p.contains(s.last()) { p } else { p.push(s.last()) }
    }
}

/// First occurrences keep exactly the elements of the input.
proof fn lemma_first_occurrences_contains(s: Seq<i32>)
    ensures
        forall|x: i32| #[trigger] first_occurrences(s).contains(x) <==> s.contains(x),
    decreases s.len(),
{
    if s.len() > 0 {
        let d = s.drop_last();
        let l = s.last();
        let p = first_occurrences(d);
        lemma_first_occurrences_contains(d);
        assert forall|x: i32| #[trigger] first_occurrences(s).contains(x) <==> s.contains(x) by {
            if first_occurrences(s).contains(x) {
                if p.contains(x) {
                    assert(d.contains(x));
                    let j = choose|j: int| 0 <= j < d.len() && d[j] == x;
                    assert(s[j] == x);
                } else {
                    assert(!p.contains(l));
                    let j = choose|j: int| 0 <= j < p.push(l).len() && p.push(l)[j] == x;
                    assert(j == p.len());
                    assert(x == l);
                    assert(s[s.len() - 1] == x);
                }
            }
            if s.contains(x) {
                let j = choose|j: int| 0 <= j < s.len() && s[j] == x;
                if j < s.len() - 1 {
                    assert(d[j] == x);
                    assert(p.contains(x));
                    if !p.contains(l) {
                        let q = choose|q: int| 0 <= q < p.len() && p[q] == x;
                        assert(p.push(l)[q] == x);
                    }
                } else {
                    assert(x == l);
                    if !p.contains(l) {
                        assert(p.push(l)[p.len() as int] == x);
                    }
                }
            }
        }
    }
}

/// Roots of `space` seen after the first `t` dirties and `k` roots of dirty `t`.
pub open spec fn space_roots_upto(ds: Seq<RenderWorldTransformDirty>, space: i32, t: int, k: int) -> Seq<i32> {
    if 0 <= t < ds.len() && ds[t].space_id.0 == space {
        space_roots(ds, space, t) + ds[t].root_node_ids@.take(k)
    } else {
        space_roots(ds, space, t)
    }
}

/// `s` occurs in `seq` at index `i`.
pub open spec fn index_of(seq: Seq<i32>, s: i32, i: int) -> bool {
    0 <= i < seq.len() && seq[i] == s
}

/// A space with no dirty in `ds[0..n)` has no roots there.
proof fn lemma_space_roots_unseen(ds: Seq<RenderWorldTransformDirty>, space: i32, n: int)
    requires
        forall|j: int| 0 <= j < n ==> (#[trigger] ds[j]).space_id.0 != space,
    ensures
        space_roots(ds, space, n) == Seq::<i32>::empty(),
    decreases n,
{
    if n > 0 {
        lemma_space_roots_unseen(ds, space, n - 1);
    }
}

/// First-seen space lists hold each space once.
proof fn lemma_first_seen_distinct(ds: Seq<RenderWorldTransformDirty>, n: int)
    ensures
        forall|i: int, j: int| 0 <= i < j < first_seen_spaces(ds, n).len() ==> first_seen_spaces(ds, n)[i] != first_seen_spaces(ds, n)[j],
        forall|s: i32| #[trigger] first_seen_spaces(ds, n).contains(s) <==> exists|j: int| 0 <= j < n && (#[trigger] ds[j]).space_id.0 == s,
    decreases n,
{
    if n > 0 {
        lemma_first_seen_distinct(ds, n - 1);
        let p = first_seen_spaces(ds, n - 1);
        assert forall|s: i32| #[trigger] first_seen_spaces(ds, n).contains(s) <==> exists|j: int| 0 <= j < n && (#[trigger] ds[j]).space_id.0 == s by {
            if exists|j: int| 0 <= j < n && (#[trigger] ds[j]).space_id.0 == s {
                let j = choose|j: int| 0 <= j < n && (#[trigger] ds[j]).space_id.0 == s;
                if j < n - 1 {
                    assert(p.contains(s));
                    let q = choose|q: int| 0 <= q < p.len() && p[q] == s;
                    assert(first_seen_spaces(ds, n)[q] == s);
                } else if !p.contains(s) {
                    assert(first_seen_spaces(ds, n)[p.len() as int] == s);
                }
            }
            if first_seen_spaces(ds, n).contains(s) && !p.contains(s) {
                assert(ds[n - 1].space_id.0 == s);
            }
        }
    }
}

/// `out` groups the dirties of `ds` by space in first-seen order, each with its distinct roots
/// in first-seen order.
pub open spec fn is_coalesced(ds: Seq<RenderWorldTransformDirty>, out: Seq<RenderWorldTransformDirty>) -> bool {
    &&& out.len() == first_seen_spaces(ds, ds.len() as int).len()
    &&& forall|i: int| 0 <= i < out.len() ==> {
        &&& (#[trigger] out[i]).space_id.0 == first_seen_spaces(ds, ds.len() as int)[i]
        &&& out[i].root_node_ids@ == first_occurrences(space_roots(ds, out[i].space_id.0, ds.len() as int))
    }
}

/// Coalesces transform-root dirties by render space, keeping first-seen space order and the
/// first-seen order of each space's distinct roots.
pub fn coalesce_transform_dirty_roots(roots: Vec<RenderWorldTransformDirty>) -> (out: Vec<RenderWorldTransformDirty>)
    ensures
        is_coalesced(roots@, out@),
{
    let ghost ds = roots@;
    let mut groups: Vec<RenderWorldTransformDirty> = Vec::new();
    let mut slots = CounterMap::new();
    let mut seen = NodePairSet::new();
    let mut t: usize = 0;
    while t < roots.len()
        invariant
            ds == roots@,
            0 <= t <= ds.len(),
            groups@.len() == first_seen_spaces(ds, t as int).len(),
            forall|i: int| 0 <= i < groups@.len() ==> {
                &&& (#[trigger] groups@[i]).space_id.0 == first_seen_spaces(ds, t as int)[i]
                &&& groups@[i].root_node_ids@ == first_occurrences(space_roots(ds, groups@[i].space_id.0, t as int))
            },
            forall|s: i32| #[trigger] counter_map_contents(slots).contains_key(s) <==> first_seen_spaces(ds, t as int).contains(s),
            forall|s: i32| #[trigger] counter_map_contents(slots).contains_key(s) ==> index_of(first_seen_spaces(ds, t as int), s, counter_map_contents(slots)[s] as int),
            forall|s: i32, r: i32| #[trigger] node_pair_set_contents(seen).contains((s, r)) <==> space_roots(ds, s, t as int).contains(r),
        decreases ds.len() - t,
    {
        proof {
            lemma_first_seen_distinct(ds, t as int);
            lemma_first_seen_distinct(ds, t as int + 1);
        }
        let space = roots[t].space_id;
        let g: usize = match slots.get(space.0) {
            Some(g) => g,
            None => {
                let g = groups.len();
                slots.set(space.0, g);
                groups.push(RenderWorldTransformDirty { space_id: space, root_node_ids: Vec::new() });
                proof {
                    assert(first_seen_spaces(ds, t as int + 1) == first_seen_spaces(ds, t as int).push(space.0));
                }
                g
            },
        };
        let ghost fss = first_seen_spaces(ds, t as int + 1);
        proof {
            assert(fss.contains(space.0));
            assert forall|s: i32| #[trigger] counter_map_contents(slots).contains_key(s) implies index_of(fss, s, counter_map_contents(slots)[s] as int) by {
                if s != space.0 {
                    assert(first_seen_spaces(ds, t as int).contains(s));
                    let q = counter_map_contents(slots)[s] as int;
                    assert(fss[q] == first_seen_spaces(ds, t as int)[q]);
                }
            }
            assert(index_of(fss, space.0, g as int));
            assert forall|s: i32| #[trigger] space_roots_upto(ds, s, t as int, 0) == space_roots(ds, s, t as int) by {
                assert(space_roots_upto(ds, s, t as int, 0) =~= space_roots(ds, s, t as int));
            }
            if !first_seen_spaces(ds, t as int).contains(space.0) {
                assert forall|j: int| 0 <= j < t as int implies (#[trigger] ds[j]).space_id.0 != space.0 by {
                    if ds[j].space_id.0 == space.0 {
                        assert(first_seen_spaces(ds, t as int).contains(space.0));
                    }
                }
                lemma_space_roots_unseen(ds, space.0, t as int);
                assert(first_occurrences(Seq::<i32>::empty()) =~= Seq::<i32>::empty());
            }
        }
        let mut k: usize = 0;
        while k < roots[t].root_node_ids.len()
            invariant
                ds == roots@,
                0 <= t < ds.len(),
                space == ds[t as int].space_id,
                fss == first_seen_spaces(ds, t as int + 1),
                0 <= k <= ds[t as int].root_node_ids@.len(),
                g < groups@.len(),
                groups@.len() == fss.len(),
                groups@[g as int].space_id == space,
                forall|i: int| 0 <= i < groups@.len() ==> {
                    &&& (#[trigger] groups@[i]).space_id.0 == fss[i]
                    &&& groups@[i].root_node_ids@ == first_occurrences(space_roots_upto(ds, groups@[i].space_id.0, t as int, k as int))
                },
                forall|s: i32| #[trigger] counter_map_contents(slots).contains_key(s) <==> fss.contains(s),
                forall|s: i32| #[trigger] counter_map_contents(slots).contains_key(s) ==> index_of(fss, s, counter_map_contents(slots)[s] as int),
                forall|s: i32, r: i32| #[trigger] node_pair_set_contents(seen).contains((s, r)) <==> space_roots_upto(ds, s, t as int, k as int).contains(r),
            decreases ds[t as int].root_node_ids@.len() - k,
        {
            let root = roots[t].root_node_ids[k];
            let ghost prev_groups = groups@;
            proof {
                lemma_first_occurrences_contains(space_roots_upto(ds, space.0, t as int, k as int));
                assert forall|s: i32| s != space.0 implies #[trigger] space_roots_upto(ds, s, t as int, k as int + 1)
                    == space_roots_upto(ds, s, t as int, k as int) by {}
                assert(space_roots_upto(ds, space.0, t as int, k as int + 1)
                    =~= space_roots_upto(ds, space.0, t as int, k as int).push(root));
            }
            if seen.insert((space.0, root)) {
                groups[g].root_node_ids.push(root);
                proof {
                    let after = space_roots_upto(ds, space.0, t as int, k as int + 1);
                    assert(after.drop_last() =~= space_roots_upto(ds, space.0, t as int, k as int));
                }
            } else {
                proof {
                    let after = space_roots_upto(ds, space.0, t as int, k as int + 1);
                    assert(after.drop_last() =~= space_roots_upto(ds, space.0, t as int, k as int));
                }
            }
            proof {
                assert forall|i: int| 0 <= i < groups@.len() implies {
                    &&& (#[trigger] groups@[i]).space_id.0 == fss[i]
                    &&& groups@[i].root_node_ids@ == first_occurrences(space_roots_upto(ds, groups@[i].space_id.0, t as int, k as int + 1))
                } by {
                    if i != g as int {
                        assert(groups@[i] == prev_groups[i]);
                        lemma_first_seen_distinct(ds, t as int + 1);
                        assert(prev_groups[i].space_id.0 != space.0);
                    }
                }
                assert forall|s: i32, r: i32| #[trigger] node_pair_set_contents(seen).contains((s, r))
                    <==> space_roots_upto(ds, s, t as int, k as int + 1).contains(r) by {
                    if s == space.0 {
                        let before = space_roots_upto(ds, s, t as int, k as int);
                        let after = space_roots_upto(ds, s, t as int, k as int + 1);
                        if before.contains(r) {
                            let q = choose|q: int| 0 <= q < before.len() && before[q] == r;
                            assert(after[q] == r);
                        }
                        if after.contains(r) && r != root {
                            let q = choose|q: int| 0 <= q < after.len() && after[q] == r;
                            assert(q < before.len());
                            assert(before[q] == r);
                        }
                        if r == root {
                            assert(after[after.len() - 1] == r);
                        }
                    }
                }
            }
            k = k + 1;
        }
        proof {
            let n = ds[t as int].root_node_ids@.len() as int;
            assert(ds[t as int].root_node_ids@.take(n) =~= ds[t as int].root_node_ids@);
            assert forall|s: i32| #[trigger] space_roots_upto(ds, s, t as int, n) == space_roots(ds, s, t as int + 1) by {}
        }
        t = t + 1;
    }
    groups
}

/// Renderer-row dirties of `space` for the rows of `renderers[0..n)` attached to a node.
pub open spec fn live_row_dirties(
    space: RenderSpaceId,
    kind: RenderWorldRendererKind,
    renderers: Seq<RenderWorldRendererTemplate>,
    n: int,
) -> Seq<RenderWorldRendererDirty>
    decreases n,
{
    if n <= 0 {
        Seq::empty()
    } else if renderers[n - 1].node_id >= 0 {
        live_row_dirties(space, kind, renderers, n - 1).push(
            RenderWorldRendererDirty { space_id: space, kind, renderable_index: (n - 1) as usize },
        )
    } else {
        live_row_dirties(space, kind, renderers, n - 1)
    }
}

/// Appends the dirties of the rows of one renderer table that are attached to a node.
fn push_live_row_dirties(
    out: &mut Vec<RenderWorldRendererDirty>,
    space_id: RenderSpaceId,
    kind: RenderWorldRendererKind,
    renderers: &Vec<RenderWorldRendererTemplate>,
)
    ensures
        final(out)@ == old(out)@ + live_row_dirties(space_id, kind, renderers@, renderers@.len() as int),
{
    let mut i: usize = 0;
    while i < renderers.len()
        invariant
            0 <= i <= renderers@.len(),
            out@ == old(out)@ + live_row_dirties(space_id, kind, renderers@, i as int),
        decreases renderers@.len() - i,
    {
        if renderers[i].node_id >= 0 {
            out.push(RenderWorldRendererDirty { space_id, kind, renderable_index: i });
        }
        i = i + 1;
    }
}

/// Renderer-row dirties for every cached row of a space that is attached to a node, static rows
/// first, each table in row order.
pub fn cached_renderer_dirties_for_space(space_id: RenderSpaceId, cached: &RenderWorldSpace) -> (out: Vec<RenderWorldRendererDirty>)
    ensures
        out@ == live_row_dirties(space_id, RenderWorldRendererKind::Static, cached.static_renderers@, cached.static_renderers@.len() as int)
            + live_row_dirties(space_id, RenderWorldRendererKind::Skinned, cached.skinned_renderers@, cached.skinned_renderers@.len() as int),
{
    let mut out: Vec<RenderWorldRendererDirty> = Vec::new();
    push_live_row_dirties(&mut out, space_id, RenderWorldRendererKind::Static, &cached.static_renderers);
    push_live_row_dirties(&mut out, space_id, RenderWorldRendererKind::Skinned, &cached.skinned_renderers);
    proof {
        assert(out@ =~= live_row_dirties(space_id, RenderWorldRendererKind::Static, cached.static_renderers@, cached.static_renderers@.len() as int)
            + live_row_dirties(space_id, RenderWorldRendererKind::Skinned, cached.skinned_renderers@, cached.skinned_renderers@.len() as int));
    }
    out
}

/// Node parent table of one scene render space.
pub struct SceneSpaceNodes {
    /// Render space id.
    pub space_id: RenderSpaceId,
    /// Parent node id of each node (negative for roots).
    pub node_parents: Vec<i32>,
}

/// Node parent tables of the scene's live render spaces, looked up by space id.
pub struct SceneSpaceTable {
    /// Space id to index into `spaces`.
    pub slots: CounterMap,
    /// Live spaces.
    pub spaces: Vec<SceneSpaceNodes>,
}

impl SceneSpaceTable {
    /// Every slot points at a stored space with that id and a parent table indexable by `i32`.
    pub open spec fn wf(&self) -> bool {
        let slots = counter_map_contents(self.slots);
        &&& forall|k: i32| #[trigger] slots.contains_key(k) ==> slots[k] < self.spaces@.len()
            && self.spaces@[slots[k] as int].space_id.0 == k
        &&& forall|i: int| 0 <= i < self.spaces@.len() ==> (#[trigger] self.spaces@[i]).node_parents@.len() <= i32::MAX
    }

    /// Parent table of `id` when the scene has that space.
    pub open spec fn spec_parents(&self, id: i32) -> Option<Seq<i32>> {
        let slots = counter_map_contents(self.slots);
        if slots.contains_key(id) { Some(self.spaces@[slots[id] as int].node_parents@) } else { None }
    }

    /// Builds the lookup; a repeated space id keeps its last table.
    pub fn from_spaces(spaces: Vec<SceneSpaceNodes>) -> (r: Self)
        requires
            forall|i: int| 0 <= i < spaces@.len() ==> (#[trigger] spaces@[i]).node_parents@.len() <= i32::MAX,
        ensures
            r.wf(),
            r.spaces@ == spaces@,
            forall|k: i32| #[trigger] counter_map_contents(r.slots).contains_key(k) <==> exists|i: int| 0 <= i < spaces@.len() && (#[trigger] spaces@[i]).space_id.0 == k,
    {
        let mut slots = CounterMap::new();
        let mut i: usize = 0;
        while i < spaces.len()
            invariant
                0 <= i <= spaces@.len(),
                forall|k: i32| #[trigger] counter_map_contents(slots).contains_key(k) ==> counter_map_contents(slots)[k] < i
                    && spaces@[counter_map_contents(slots)[k] as int].space_id.0 == k,
                forall|k: i32| #[trigger] counter_map_contents(slots).contains_key(k) <==> exists|j: int| 0 <= j < i && (#[trigger] spaces@[j]).space_id.0 == k,
            decreases spaces@.len() - i,
        {
            slots.set(spaces[i].space_id.0, i);
            proof {
                let m = counter_map_contents(slots);
                assert forall|k: i32| #[trigger] m.contains_key(k) <==> exists|j: int| 0 <= j < i + 1 && (#[trigger] spaces@[j]).space_id.0 == k by {
                    if exists|j: int| 0 <= j < i + 1 && (#[trigger] spaces@[j]).space_id.0 == k {
                        let j = choose|j: int| 0 <= j < i + 1 && (#[trigger] spaces@[j]).space_id.0 == k;
                        if j < i && k != spaces@[i as int].space_id.0 {
                            assert(exists|j2: int| 0 <= j2 < i && (#[trigger] spaces@[j2]).space_id.0 == k);
                        }
                    }
                }
            }
            i = i + 1;
        }
        SceneSpaceTable { slots, spaces }
    }

    /// Parent table of `id`, when the scene has that space.
    pub fn parents(&self, id: i32) -> (r: Option<&Vec<i32>>)
        requires
            self.wf(),
        ensures
            match r {
                Some(p) => self.spec_parents(id) == Some(p@) && p@.len() <= i32::MAX,
                None => self.spec_parents(id).is_none(),
            },
    {
        match self.slots.get(id) {
            Some(i) => Some(&self.spaces[i].node_parents),
            None => None,
        }
    }
}

/// Renderer-row dirties of `space` for the rows `refs` names.
pub open spec fn refs_as_dirties(space: RenderSpaceId, refs: Seq<RenderWorldRendererRef>) -> Seq<RenderWorldRendererDirty> {
    refs.map_values(|r: RenderWorldRendererRef| RenderWorldRendererDirty { space_id: space, kind: r.kind, renderable_index: r.index })
}

/// Appends the renderer rows of one node-index entry when the node lies under a moved root.
pub fn push_transform_node_renderer_dirties(
    renderers: &mut Vec<RenderWorldRendererDirty>,
    space_id: RenderSpaceId,
    node_id: i32,
    refs: &[RenderWorldRendererRef],
    parents: &[i32],
    roots: &[i32],
)
    ensures
        final(renderers)@ == old(renderers)@ + (if spec_is_under_any_root(parents@, node_id as int, roots@) {
            refs_as_dirties(space_id, refs@)
        } else {
            Seq::empty()
        }),
{
    if !node_is_under_any_root(parents, node_id, roots) {
        assert(renderers@ =~= old(renderers)@ + Seq::<RenderWorldRendererDirty>::empty());
        return;
    }
    let mut i: usize = 0;
    while i < refs.len()
        invariant
            0 <= i <= refs@.len(),
            renderers@ == old(renderers)@ + refs_as_dirties(space_id, refs@.take(i as int)),
        decreases refs@.len() - i,
    {
        let r = refs[i];
        renderers.push(RenderWorldRendererDirty { space_id, kind: r.kind, renderable_index: r.index });
        proof {
            assert(refs_as_dirties(space_id, refs@.take(i as int + 1)) =~= refs_as_dirties(space_id, refs@.take(i as int)).push(
                RenderWorldRendererDirty { space_id, kind: r.kind, renderable_index: r.index },
            ));
        }
        i = i + 1;
    }
    assert(refs@.take(refs@.len() as int) =~= refs@);
}

/// `order` lists every bucket of `index` exactly once.
pub open spec fn lists_ref_index(order: Seq<(i32, Seq<RenderWorldRendererRef>)>, index: Map<i32, Seq<RenderWorldRendererRef>>) -> bool {
    &&& order.len() == index.dom().len()
    &&& forall|i: int| 0 <= i < order.len() ==> index.contains_key((#[trigger] order[i]).0) && index[order[i].0] == order[i].1
    &&& forall|i: int, j: int| 0 <= i < j < order.len() ==> (#[trigger] order[i]).0 != (#[trigger] order[j]).0
    &&& forall|k: i32| index.contains_key(k) ==> exists|i: int| 0 <= i < order.len() && (#[trigger] order[i]).0 == k
}

/// Renderer-row dirties from the entries `order[0..n)` whose node lies under one of `roots`.
pub open spec fn node_scan_dirties(
    space: RenderSpaceId,
    order: Seq<(i32, Seq<RenderWorldRendererRef>)>,
    parents: Seq<i32>,
    roots: Seq<i32>,
    n: int,
) -> Seq<RenderWorldRendererDirty>
    decreases n,
{
    if n <= 0 {
        Seq::empty()
    } else {
        node_scan_dirties(space, order, parents, roots, n - 1) + (if spec_is_under_any_root(parents, order[n - 1].0 as int, roots) {
            refs_as_dirties(space, order[n - 1].1)
        } else {
            Seq::empty()
        })
    }
}

/// Expands one transform dirty by scanning every retained node-index entry of the space, in the
/// index's iteration order.
pub fn expand_transform_dirty_by_node_index(
    cached: &RenderWorldSpace,
    dirty: &RenderWorldTransformDirty,
    parents: &[i32],
) -> (out: Vec<RenderWorldRendererDirty>)
    ensures
        exists|order: Seq<(i32, Seq<RenderWorldRendererRef>)>| {
            &&& lists_ref_index(order, ref_index_contents(cached.node_index))
            &&& out@ == node_scan_dirties(dirty.space_id, order, parents@, dirty.root_node_ids@, order.len() as int)
        },
{
    let entries = cached.node_index.entries();
    let ghost order = entries@.map_values(|e: (i32, Vec<RenderWorldRendererRef>)| (e.0, e.1@));
    let mut renderers: Vec<RenderWorldRendererDirty> = Vec::new();
    let mut i: usize = 0;
    while i < entries.len()
        invariant
            0 <= i <= entries@.len(),
            order == entries@.map_values(|e: (i32, Vec<RenderWorldRendererRef>)| (e.0, e.1@)),
            renderers@ == node_scan_dirties(dirty.space_id, order, parents@, dirty.root_node_ids@, i as int),
        decreases entries@.len() - i,
    {
        push_transform_node_renderer_dirties(
            &mut renderers,
            dirty.space_id,
            entries[i].0,
            entries[i].1.as_slice(),
            parents,
            dirty.root_node_ids.as_slice(),
        );
        i = i + 1;
    }
    proof {
        let index = ref_index_contents(cached.node_index);
        assert forall|k: i32| index.contains_key(k) implies exists|i: int| 0 <= i < order.len() && (#[trigger] order[i]).0 == k by {
            let i = choose|i: int| 0 <= i < entries@.len() && (#[trigger] entries@[i]).0 == k;
            assert(order[i].0 == k);
        }
        assert forall|i: int, j: int| 0 <= i < j < order.len() implies (#[trigger] order[i]).0 != (#[trigger] order[j]).0 by {
            assert(entries@[i].0 != entries@[j].0);
        }
        assert forall|i: int| 0 <= i < order.len() implies index.contains_key((#[trigger] order[i]).0) && index[order[i].0] == order[i].1 by {
            assert(index.contains_key(entries@[i].0));
        }
        assert(lists_ref_index(order, index));
    }
    renderers
}

/// Result of expanding one transform-root dirty input.
pub enum TransformDirtyExpansion {
    /// The render space was removed from the scene.
    Removed(RenderSpaceId),
    /// The render space has no retained cache and needs a full rebuild.
    FullSpace(RenderSpaceId),
    /// The dirty roots expanded to renderer records.
    Renderers(Vec<RenderWorldRendererDirty>),
    /// No retained renderer records were affected.
    Empty,
}

/// Result of expanding one transform-root dirty input, with accounting.
pub struct TransformDirtyExpansionResult {
    /// Dirty-expansion action to apply to render-world dirty sets.
    pub expansion: TransformDirtyExpansion,
    /// Number of root node ids represented by this coalesced input.
    pub root_count: usize,
    /// Retained node-index entries scanned while expanding it.
    pub scanned_node_count: usize,
    /// Whether the roots covered the entire retained render space.
    pub full_space_root: bool,
}

/// Counters gathered while expanding deferred transform-root dirties.
#[derive(Clone, Copy, Debug, Default, PartialEq, Eq, Structural)]
pub struct TransformDirtyExpansionStats {
    /// Root node ids consumed.
    pub root_count: usize,
    /// Retained node-index entries scanned.
    pub scanned_node_count: usize,
    /// Renderer records found by expansion.
    pub expanded_renderer_count: usize,
    /// Transform roots that covered all cached renderer records in a space.
    pub full_space_root_count: usize,
}

/// `rows` are the renderer dirties the roots of `dirty` reach in `cached`: every attached row when
/// the roots cover the space, else the rows of the node-index entries under a root, in the
/// index's iteration order.
pub open spec fn reached_rows(
    cached: RenderWorldSpace,
    dirty: RenderWorldTransformDirty,
    parents: Seq<i32>,
    full_space_root: bool,
    rows: Seq<RenderWorldRendererDirty>,
) -> bool {
    if full_space_root {
        rows == live_row_dirties(dirty.space_id, RenderWorldRendererKind::Static, cached.static_renderers@, cached.static_renderers@.len() as int)
            + live_row_dirties(dirty.space_id, RenderWorldRendererKind::Skinned, cached.skinned_renderers@, cached.skinned_renderers@.len() as int)
    } else {
        exists|order: Seq<(i32, Seq<RenderWorldRendererRef>)>| {
            &&& lists_ref_index(order, ref_index_contents(cached.node_index))
            &&& rows == node_scan_dirties(dirty.space_id, order, parents, dirty.root_node_ids@, order.len() as int)
        }
    }
}

/// `res` is the expansion of `dirty` against the render world `w` and the scene: nothing for a
/// space already fully dirty, removal for a space gone from the scene, a full rebuild for a space
/// without retained storage, else the reached renderer rows.
pub open spec fn is_transform_expansion(
    w: RenderWorld,
    scene: SceneSpaceTable,
    dirty: RenderWorldTransformDirty,
    res: TransformDirtyExpansionResult,
) -> bool {
    let space = dirty.space_id.0;
    &&& res.root_count == dirty.root_node_ids@.len()
    &&& if w@.dirty_spaces.contains(space) {
        res.expansion is Empty && res.scanned_node_count == 0 && !res.full_space_root
    } else if scene.spec_parents(space).is_none() {
        res.expansion == TransformDirtyExpansion::Removed(dirty.space_id) && res.scanned_node_count == 0 && !res.full_space_root
    } else if !w.spaces.spec_ids().contains(space) {
        res.expansion == TransformDirtyExpansion::FullSpace(dirty.space_id) && res.scanned_node_count == 0 && !res.full_space_root
    } else {
        let parents = scene.spec_parents(space).unwrap();
        let cached = w.spaces.spec_get(space);
        &&& res.full_space_root == spec_roots_cover_space(parents, dirty.root_node_ids@)
        &&& res.scanned_node_count == (if res.full_space_root { 0 } else { ref_index_contents(cached.node_index).dom().len() })
        &&& match res.expansion {
            TransformDirtyExpansion::Renderers(v) => v@.len() > 0 && reached_rows(cached, dirty, parents, res.full_space_root, v@),
            TransformDirtyExpansion::Empty => reached_rows(cached, dirty, parents, res.full_space_root, Seq::empty()),
            _ => false,
        }
    }
}

/// Records `rows[0..n)` for bounds refresh, counting each as a transform-only event.
pub open spec fn fold_bounds_rows(m: RenderWorldDirtyModel, rows: Seq<RenderWorldRendererDirty>, n: int) -> RenderWorldDirtyModel
    decreases n,
{
    if n <= 0 {
        m
    } else {
        let p = fold_bounds_rows(m, rows, n - 1);
        let d = rows[n - 1];
        let q = spec_note_bounds_dirty(p, spec_dirty_key(d.space_id, d.kind, d.renderable_index));
        RenderWorldDirtyModel { pending_transform_only: sat_inc(q.pending_transform_only), ..q }
    }
}

/// Dirty state after applying one expansion result.
pub open spec fn spec_apply_expansion(m: RenderWorldDirtyModel, e: TransformDirtyExpansion) -> RenderWorldDirtyModel {
    match e {
        TransformDirtyExpansion::Removed(id) => spec_remove_space(m, id.0),
        TransformDirtyExpansion::FullSpace(id) => RenderWorldDirtyModel { dirty_spaces: m.dirty_spaces.insert(id.0), ..m },
        TransformDirtyExpansion::Renderers(rows) => fold_bounds_rows(m, rows@, rows@.len() as int),
        TransformDirtyExpansion::Empty => m,
    }
}

/// Dirty state after applying `es[0..n)` in order.
pub open spec fn fold_apply_expansions(m: RenderWorldDirtyModel, es: Seq<TransformDirtyExpansionResult>, n: int) -> RenderWorldDirtyModel
    decreases n,
{
    if n <= 0 { m } else { spec_apply_expansion(fold_apply_expansions(m, es, n - 1), es[n - 1].expansion) }
}

/// `a + b`, clamped to `usize::MAX`.
pub open spec fn sat_add(a: int, b: int) -> int {
    if a + b > usize::MAX { usize::MAX as int } else { a + b }
}

/// Rows an expansion reports.
pub open spec fn expansion_row_count(e: TransformDirtyExpansion) -> int {
    match e {
        TransformDirtyExpansion::Renderers(rows) => rows@.len() as int,
        _ => 0,
    }
}

/// Saturating counter totals over `es[0..n)`.
pub open spec fn fold_expansion_stats(es: Seq<TransformDirtyExpansionResult>, n: int) -> TransformDirtyExpansionStats
    decreases n,
{
    if n <= 0 {
        TransformDirtyExpansionStats { root_count: 0, scanned_node_count: 0, expanded_renderer_count: 0, full_space_root_count: 0 }
    } else {
        let p = fold_expansion_stats(es, n - 1);
        let e = es[n - 1];
        TransformDirtyExpansionStats {
            root_count: sat_add(p.root_count as int, e.root_count as int) as usize,
            scanned_node_count: sat_add(p.scanned_node_count as int, e.scanned_node_count as int) as usize,
            expanded_renderer_count: sat_add(p.expanded_renderer_count as int, expansion_row_count(e.expansion)) as usize,
            full_space_root_count: sat_add(p.full_space_root_count as int, if e.full_space_root { 1 } else { 0 }) as usize,
        }
    }
}

impl RenderWorld {
    /// Expands one coalesced transform-root dirty against the retained reverse indexes.
    pub fn expand_transform_dirty(&self, scene: &SceneSpaceTable, dirty: &RenderWorldTransformDirty) -> (res: TransformDirtyExpansionResult)
        requires
            self.wf(),
            scene.wf(),
        ensures
            is_transform_expansion(*self, *scene, *dirty, res),
    {
        let root_count = dirty.root_node_ids.len();
        if self.dirty_spaces.contains(dirty.space_id.0) {
            return TransformDirtyExpansionResult {
                expansion: TransformDirtyExpansion::Empty,
                root_count,
                scanned_node_count: 0,
                full_space_root: false,
            };
        }
        let parents = match scene.parents(dirty.space_id.0) {
            Some(p) => p,
            None => {
                return TransformDirtyExpansionResult {
                    expansion: TransformDirtyExpansion::Removed(dirty.space_id),
                    root_count,
                    scanned_node_count: 0,
                    full_space_root: false,
                };
            },
        };
        let cached = match self.spaces.get(dirty.space_id.0) {
            Some(c) => c,
            None => {
                return TransformDirtyExpansionResult {
                    expansion: TransformDirtyExpansion::FullSpace(dirty.space_id),
                    root_count,
                    scanned_node_count: 0,
                    full_space_root: false,
                };
            },
        };
        let full_space_root = transform_roots_cover_space(parents.as_slice(), dirty.root_node_ids.as_slice());
        let renderers = if full_space_root {
            cached_renderer_dirties_for_space(dirty.space_id, cached)
        } else {
            expand_transform_dirty_by_node_index(cached, dirty, parents.as_slice())
        };
        let scanned_node_count = if full_space_root { 0 } else { cached.node_index.len() };
        let expansion = if renderers.len() == 0 {
            proof {
                assert(renderers@ =~= Seq::<RenderWorldRendererDirty>::empty());
            }
            TransformDirtyExpansion::Empty
        } else {
            TransformDirtyExpansion::Renderers(renderers)
        };
        TransformDirtyExpansionResult { expansion, root_count, scanned_node_count, full_space_root }
    }

    /// Applies transform dirty expansion results to the dirty sets, in order, and totals their
    /// counters (saturating).
    pub fn apply_transform_dirty_expansions(&mut self, expansions: Vec<TransformDirtyExpansionResult>) -> (stats: TransformDirtyExpansionStats)
        requires
            old(self).wf(),
        ensures
            final(self).wf(),
            final(self)@ == fold_apply_expansions(old(self)@, expansions@, expansions@.len() as int),
            final(self).storage_kept(old(self)),
            final(self).maintenance_stats == old(self).maintenance_stats,
            stats == fold_expansion_stats(expansions@, expansions@.len() as int),
    {
        let ghost es = expansions@;
        let ghost start = *self;
        let mut stats = TransformDirtyExpansionStats { root_count: 0, scanned_node_count: 0, expanded_renderer_count: 0, full_space_root_count: 0 };
        for expansion in it: expansions.into_iter()
            invariant
                it.seq() == es,
                self.wf(),
                self@ == fold_apply_expansions(start@, es, it.index() as int),
                self.storage_kept(&start),
                self.maintenance_stats == start.maintenance_stats,
                stats == fold_expansion_stats(es, it.index() as int),
        {
            let ghost n = it.index() as int;
            assert(expansion == es[n]);
            let ghost before = *self;
            stats.root_count = stats.root_count.saturating_add(expansion.root_count);
            stats.scanned_node_count = stats.scanned_node_count.saturating_add(expansion.scanned_node_count);
            let full_count: usize = if expansion.full_space_root { 1 } else { 0 };
            stats.full_space_root_count = stats.full_space_root_count.saturating_add(full_count);
            match expansion.expansion {
                TransformDirtyExpansion::Removed(space_id) => {
                    self.remove_space(space_id);
                    proof {
                        assert forall|k: i32| #[trigger] self.spaces.spec_ids().contains(k) implies start.spaces.spec_ids().contains(k)
                            && self.spaces.spec_get(k) == start.spaces.spec_get(k) by {
                            assert(before.spaces.spec_ids().contains(k));
                        }
                    }
                },
                TransformDirtyExpansion::FullSpace(space_id) => {
                    self.mark_space_dirty_for_expansion(space_id);
                },
                TransformDirtyExpansion::Renderers(renderers) => {
                    stats.expanded_renderer_count = stats.expanded_renderer_count.saturating_add(renderers.len());
                    let mut i: usize = 0;
                    while i < renderers.len()
                        invariant
                            0 <= i <= renderers@.len(),
                            self.wf(),
                            self@ == fold_bounds_rows(before@, renderers@, i as int),
                            self.spaces == before.spaces,
                            self.maintenance_stats == before.maintenance_stats,
                        decreases renderers@.len() - i,
                    {
                        let d = renderers[i];
                        self.note_bounds_dirty(RenderWorldBoundsDirty {
                            space_id: d.space_id,
                            kind: d.kind,
                            renderable_index: d.renderable_index,
                        });
                        let ghost after_note = *self;
                        self.pending_transform_only_dirty_count = self.pending_transform_only_dirty_count.saturating_add(1);
                        proof {
                            RenderWorld::lemma_wf_frame_pub(&after_note, self);
                        }
                        i = i + 1;
                    }
                },
                TransformDirtyExpansion::Empty => {},
            }
        }
        stats
    }
}

/// Renderer dirties of `space` for the assets `assets[0..n)` that `index` maps to renderer rows.
pub open spec fn asset_rows(space: RenderSpaceId, index: Map<i32, Seq<RenderWorldRendererRef>>, assets: Seq<i32>, n: int) -> Seq<RenderWorldRendererDirty>
    decreases n,
{
    if n <= 0 {
        Seq::empty()
    } else {
        asset_rows(space, index, assets, n - 1) + (if index.contains_key(assets[n - 1]) {
            refs_as_dirties(space, index[assets[n - 1]])
        } else {
            Seq::empty()
        })
    }
}

/// Renderer dirties of the stored spaces `[0..n)` that are not fully dirty, for the changed
/// `assets`, space by space in storage order.
pub open spec fn mesh_asset_rows(
    ids: Seq<i32>,
    store: Seq<RenderWorldSpace>,
    dirty_spaces: Set<i32>,
    assets: Seq<i32>,
    n: int,
) -> Seq<RenderWorldRendererDirty>
    decreases n,
{
    if n <= 0 {
        Seq::empty()
    } else {
        mesh_asset_rows(ids, store, dirty_spaces, assets, n - 1) + (if dirty_spaces.contains(ids[n - 1]) {
            Seq::empty()
        } else {
            asset_rows(RenderSpaceId(ids[n - 1]), ref_index_contents(store[n - 1].mesh_asset_index), assets, assets.len() as int)
        })
    }
}

/// Records `rows[0..n)` as renderer dirties, counting each as a mesh-asset event.
pub open spec fn fold_mesh_rows(m: RenderWorldDirtyModel, rows: Seq<RenderWorldRendererDirty>, n: int) -> RenderWorldDirtyModel
    decreases n,
{
    if n <= 0 {
        m
    } else {
        let p = fold_mesh_rows(m, rows, n - 1);
        let d = rows[n - 1];
        let q = spec_note_renderer_dirty(p, spec_dirty_key(d.space_id, d.kind, d.renderable_index));
        RenderWorldDirtyModel { pending_mesh_asset: sat_inc(q.pending_mesh_asset), ..q }
    }
}

/// Appends the renderer rows `refs` names, as dirties of `space`.
fn push_ref_dirties(out: &mut Vec<RenderWorldRendererDirty>, space: RenderSpaceId, refs: &Vec<RenderWorldRendererRef>)
    ensures
        final(out)@ == old(out)@ + refs_as_dirties(space, refs@),
{
    let mut i: usize = 0;
    while i < refs.len()
        invariant
            0 <= i <= refs@.len(),
            out@ == old(out)@ + refs_as_dirties(space, refs@.take(i as int)),
        decreases refs@.len() - i,
    {
        let r = refs[i];
        out.push(RenderWorldRendererDirty { space_id: space, kind: r.kind, renderable_index: r.index });
        proof {
            assert(refs_as_dirties(space, refs@.take(i as int + 1)) =~= refs_as_dirties(space, refs@.take(i as int)).push(
                RenderWorldRendererDirty { space_id: space, kind: r.kind, renderable_index: r.index },
            ));
        }
        i = i + 1;
    }
    assert(refs@.take(refs@.len() as int) =~= refs@);
}

impl RenderWorld {
    /// Expands deferred transform-root dirties to renderer bounds dirties: coalesces them by space,
    /// expands each against the state before any is applied, then applies the results in order.
    pub fn expand_dirty_transform_roots(&mut self, scene: &SceneSpaceTable) -> (stats: TransformDirtyExpansionStats)
        requires
            old(self).wf(),
            scene.wf(),
        ensures
            final(self).wf(),
            transform_step(*old(self), *scene, *final(self), stats),
    {
        if self.dirty_transform_roots.len() == 0 {
            return TransformDirtyExpansionStats { root_count: 0, scanned_node_count: 0, expanded_renderer_count: 0, full_space_root_count: 0 };
        }
        let mut taken: Vec<RenderWorldTransformDirty> = Vec::new();
        std::mem::swap(&mut taken, &mut self.dirty_transform_roots);
        proof {
            RenderWorld::lemma_wf_frame_pub(old(self), self);
            assert(self@.transform_roots =~= Seq::<(i32, Seq<i32>)>::empty());
        }
        let roots = coalesce_transform_dirty_roots(taken);
        let ghost mid = *self;
        let mut expansions: Vec<TransformDirtyExpansionResult> = Vec::new();
        let mut i: usize = 0;
        while i < roots.len()
            invariant
                0 <= i <= roots@.len(),
                *self == mid,
                mid.wf(),
                scene.wf(),
                mid.dirty_spaces == old(self).dirty_spaces,
                mid.spaces == old(self).spaces,
                expansions@.len() == i,
                forall|j: int| 0 <= j < i ==> is_transform_expansion(*old(self), *scene, #[trigger] roots@[j], expansions@[j]),
            decreases roots@.len() - i,
        {
            let e = self.expand_transform_dirty(scene, &roots[i]);
            expansions.push(e);
            i = i + 1;
        }
        let ghost es = expansions@;
        let stats = self.apply_transform_dirty_expansions(expansions);
        proof {
            assert(forall|j: int| 0 <= j < es.len() ==> is_transform_expansion(*old(self), *scene, #[trigger] roots@[j], es[j]));
        }
        stats
    }

    /// Expands changed mesh assets to renderer dirties through each retained space's mesh-asset
    /// reverse index, skipping fully dirty spaces, and consumes the changed-asset set.
    pub fn expand_dirty_mesh_assets(&mut self)
        requires
            old(self).wf(),
        ensures
            final(self).wf(),
            mesh_asset_step(*old(self), *final(self)),
    {
        if self.dirty_mesh_assets.is_empty() {
            return;
        }
        let mut changed = IdSet::new();
        std::mem::swap(&mut changed, &mut self.dirty_mesh_assets);
        proof {
            RenderWorld::lemma_wf_frame_pub(old(self), self);
        }
        let assets = changed.to_vec();
        let ghost mid = *self;
        let mut rows: Vec<RenderWorldRendererDirty> = Vec::new();
        let count = self.spaces.len();
        let mut i: usize = 0;
        while i < count
            invariant
                0 <= i <= count,
                count == self.spaces.ids@.len(),
                *self == mid,
                mid.wf(),
                mid.spaces == old(self).spaces,
                mid.dirty_spaces == old(self).dirty_spaces,
                rows@ == mesh_asset_rows(old(self).spaces.ids@, old(self).spaces.store@, old(self)@.dirty_spaces, assets@, i as int),
            decreases count - i,
        {
            let id = self.spaces.id_at(i);
            if !self.dirty_spaces.contains(id) {
                let space = &self.spaces.store[i];
                let ghost base = rows@;
                let mut a: usize = 0;
                while a < assets.len()
                    invariant
                        0 <= a <= assets@.len(),
                        i < self.spaces.store@.len(),
                        *space == self.spaces.store@[i as int],
                        rows@ == base + asset_rows(RenderSpaceId(id), ref_index_contents(space.mesh_asset_index), assets@, a as int),
                    decreases assets@.len() - a,
                {
                    match space.mesh_asset_index.get(assets[a]) {
                        Some(bucket) => {
                            push_ref_dirties(&mut rows, RenderSpaceId(id), &bucket);
                        },
                        None => {},
                    }
                    proof {
                        assert(rows@ =~= base + asset_rows(RenderSpaceId(id), ref_index_contents(space.mesh_asset_index), assets@, a as int + 1));
                    }
                    a = a + 1;
                }
            } else {
                assert(rows@ =~= mesh_asset_rows(old(self).spaces.ids@, old(self).spaces.store@, old(self)@.dirty_spaces, assets@, i as int + 1));
            }
            i = i + 1;
        }
        let ghost base_model = self@;
        let mut r: usize = 0;
        while r < rows.len()
            invariant
                0 <= r <= rows@.len(),
                self.wf(),
                self@ == fold_mesh_rows(base_model, rows@, r as int),
                self.spaces == old(self).spaces,
                self.maintenance_stats == old(self).maintenance_stats,
            decreases rows@.len() - r,
        {
            self.note_renderer_dirty(rows[r]);
            let ghost after_note = *self;
            self.pending_mesh_asset_dirty_renderer_count = self.pending_mesh_asset_dirty_renderer_count.saturating_add(1);
            proof {
                RenderWorld::lemma_wf_frame_pub(&after_note, self);
            }
            r = r + 1;
        }
        proof {
            assert(base_model == (RenderWorldDirtyModel { dirty_mesh_assets: Set::<i32>::empty(), ..old(self)@ }));
        }
    }

    /// Expands deferred transform-root and mesh-asset dirties into renderer-record dirties,
    /// adding the transform expansion counters to `stats` (saturating).
    pub fn expand_deferred_dirty_inputs(&mut self, scene: &SceneSpaceTable, stats: &mut RenderWorldMaintenanceStats)
        requires
            old(self).wf(),
            scene.wf(),
        ensures
            final(self).wf(),
            exists|mid: RenderWorld, ts: TransformDirtyExpansionStats| {
                &&& transform_step(*old(self), *scene, mid, ts)
                &&& mesh_asset_step(mid, *final(self))
                &&& *final(stats) == (RenderWorldMaintenanceStats {
                    transform_root_dirty_count: sat_add(old(stats).transform_root_dirty_count as int, ts.root_count as int) as usize,
                    transform_root_scanned_node_count: sat_add(old(stats).transform_root_scanned_node_count as int, ts.scanned_node_count as int) as usize,
                    transform_root_expanded_renderer_count: sat_add(old(stats).transform_root_expanded_renderer_count as int, ts.expanded_renderer_count as int) as usize,
                    transform_root_full_space_count: sat_add(old(stats).transform_root_full_space_count as int, ts.full_space_root_count as int) as usize,
                    ..*old(stats)
                })
            },
    {
        let transform_stats = self.expand_dirty_transform_roots(scene);
        let ghost mid = *self;
        stats.transform_root_dirty_count = stats.transform_root_dirty_count.saturating_add(transform_stats.root_count);
        stats.transform_root_scanned_node_count = stats.transform_root_scanned_node_count.saturating_add(transform_stats.scanned_node_count);
        stats.transform_root_expanded_renderer_count = stats.transform_root_expanded_renderer_count.saturating_add(transform_stats.expanded_renderer_count);
        stats.transform_root_full_space_count = stats.transform_root_full_space_count.saturating_add(transform_stats.full_space_root_count);
        self.expand_dirty_mesh_assets();
    }
}

/// `post` is `pre` after expanding its deferred transform roots against `scene`, with totals
/// `stats`: unchanged without roots; else the roots are coalesced by space, each coalesced input
/// is expanded against `pre`, and the results are applied in order.
pub open spec fn transform_step(pre: RenderWorld, scene: SceneSpaceTable, post: RenderWorld, stats: TransformDirtyExpansionStats) -> bool {
    &&& post.storage_kept(&pre)
    &&& post.maintenance_stats == pre.maintenance_stats
    &&& pre.dirty_transform_roots@.len() == 0 ==> post@ == pre@ && stats == TransformDirtyExpansionStats::default_spec()
    &&& pre.dirty_transform_roots@.len() > 0 ==> exists|coalesced: Seq<RenderWorldTransformDirty>, es: Seq<TransformDirtyExpansionResult>| {
        &&& is_coalesced(pre.dirty_transform_roots@, coalesced)
        &&& es.len() == coalesced.len()
        &&& forall|j: int| 0 <= j < es.len() ==> is_transform_expansion(pre, scene, #[trigger] coalesced[j], es[j])
        &&& post@ == fold_apply_expansions(RenderWorldDirtyModel { transform_roots: Seq::empty(), ..pre@ }, es, es.len() as int)
        &&& stats == fold_expansion_stats(es, es.len() as int)
    }
}

/// `post` is `pre` after expanding its changed mesh assets: unchanged without changed assets; else
/// the changed-asset set is consumed and the rows reached through the mesh-asset reverse indexes
/// of the spaces that are not fully dirty (taking the assets in some order without repeats) are
/// recorded as renderer dirties.
pub open spec fn mesh_asset_step(pre: RenderWorld, post: RenderWorld) -> bool {
    &&& post.spaces == pre.spaces
    &&& post.maintenance_stats == pre.maintenance_stats
    &&& pre@.dirty_mesh_assets == Set::<i32>::empty() ==> post@ == pre@
    &&& pre@.dirty_mesh_assets != Set::<i32>::empty() ==> exists|assets: Seq<i32>| {
        &&& assets.to_set() == pre@.dirty_mesh_assets
        &&& assets.no_duplicates()
        &&& post@ == fold_mesh_rows(
            RenderWorldDirtyModel { dirty_mesh_assets: Set::empty(), ..pre@ },
            mesh_asset_rows(pre.spaces.ids@, pre.spaces.store@, pre@.dirty_spaces, assets, pre.spaces.ids@.len() as int),
            mesh_asset_rows(pre.spaces.ids@, pre.spaces.store@, pre@.dirty_spaces, assets, pre.spaces.ids@.len() as int).len() as int,
        )
    }
}

impl TransformDirtyExpansionStats {
    /// All counters zero.
    pub open spec fn default_spec() -> Self {
        TransformDirtyExpansionStats { root_count: 0, scanned_node_count: 0, expanded_renderer_count: 0, full_space_root_count: 0 }
    }
}

} // verus!
