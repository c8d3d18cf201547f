//! Retained render-world records: per-renderer draw templates and the reverse indexes that map
//! mesh assets and scene nodes back to renderer rows.
use vstd::prelude::*;

use crate::collections::{ref_index_contents, RefIndex, RenderWorldRendererRef};
use crate::prepared::FramePreparedDraw;
use crate::shared::{MeshRendererInstanceId, RenderWorldRendererKind, StaticMeshRenderer};

verus! {

/// Retained expanded draw templates for one scene renderer row.
#[derive(Clone, Debug, Default)]
pub struct RenderWorldRendererTemplate {
    /// Renderer-local identity that survives dense table reindexing.
    pub instance_id: MeshRendererInstanceId,
    /// Scene node id used by transform dirty expansion.
    pub node_id: i32,
    /// Mesh asset id used by mesh-pool dirty expansion.
    pub mesh_asset_id: i32,
    /// Retained draw templates emitted by this renderer.
    pub draws: Vec<FramePreparedDraw>,
}

impl RenderWorldRendererTemplate {
    /// Resets scene identity for a missing renderer row.
    pub fn clear_missing(&mut self)
        ensures
            final(self).instance_id == MeshRendererInstanceId(0),
            final(self).node_id == -1,
            final(self).mesh_asset_id == -1,
            final(self).draws@.len() == 0,
    {
        self.instance_id = MeshRendererInstanceId(0);
        self.node_id = -1;
        self.mesh_asset_id = -1;
        self.draws.clear();
    }

    /// Copies identity fields from a static renderer row, keeping the draws.
    pub fn copy_static_identity(&mut self, renderer: &StaticMeshRenderer)
        ensures
            final(self).instance_id == renderer.instance_id,
            final(self).node_id == renderer.node_id,
            final(self).mesh_asset_id == renderer.mesh_asset_id,
            final(self).draws@ == old(self).draws@,
    {
        self.instance_id = renderer.instance_id;
        self.node_id = renderer.node_id;
        self.mesh_asset_id = renderer.mesh_asset_id;
    }
}

/// Retained draw-template storage for one render space.
pub struct RenderWorldSpace {
    /// Whether the host render space is active.
    pub active: bool,
    /// Retained draw templates for static renderers, indexed by scene dense renderer id.
    pub static_renderers: Vec<RenderWorldRendererTemplate>,
    /// Retained draw templates for skinned renderers, indexed by scene dense renderer id.
    pub skinned_renderers: Vec<RenderWorldRendererTemplate>,
    /// Reverse map from mesh asset id to renderer records.
    pub mesh_asset_index: RefIndex,
    /// Reverse map from scene node id to renderer records.
    pub node_index: RefIndex,
}

/// Draw-template counts of a renderer table.
pub open spec fn template_counts(renderers: Seq<RenderWorldRendererTemplate>) -> Seq<nat> {
    Seq::new(renderers.len(), |i: int| renderers[i].draws@.len())
}

/// Sum of `counts[a..b)`.
pub open spec fn sum_counts(counts: Seq<nat>, a: int, b: int) -> nat
    decreases b - a,
{
    if b <= a {
        0
    } else {
        sum_counts(counts, a, b - 1) + counts[b - 1]
    }
}

/// Draw templates of renderers `a..b`, concatenated in renderer order.
pub open spec fn range_draws(renderers: Seq<RenderWorldRendererTemplate>, a: int, b: int) -> Seq<FramePreparedDraw>
    decreases b - a,
{
    if b <= a {
        Seq::empty()
    } else {
        range_draws(renderers, a, b - 1) + renderers[b - 1].draws@
    }
}

impl RenderWorldSpace {
    /// A space with no renderer rows and empty reverse indexes.
    pub fn new(active: bool) -> (r: Self)
        ensures
            r.active == active,
            r.static_renderers@.len() == 0,
            r.skinned_renderers@.len() == 0,
            ref_index_contents(r.mesh_asset_index).dom() == Set::<i32>::empty(),
            ref_index_contents(r.node_index).dom() == Set::<i32>::empty(),
    {
        RenderWorldSpace {
            active,
            static_renderers: Vec::new(),
            skinned_renderers: Vec::new(),
            mesh_asset_index: RefIndex::new(),
            node_index: RefIndex::new(),
        }
    }

    /// Total retained templates of the space.
    pub open spec fn spec_retained_template_count(&self) -> nat {
        sum_counts(template_counts(self.static_renderers@), 0, self.static_renderers@.len() as int)
            + sum_counts(template_counts(self.skinned_renderers@), 0, self.skinned_renderers@.len() as int)
    }

    /// Number of retained draw templates in this space.
    pub fn retained_template_count(&self) -> (r: usize)
        requires
            self.spec_retained_template_count() <= usize::MAX,
        ensures
            r == self.spec_retained_template_count(),
    {
        let a = count_templates_in_range(&self.static_renderers, 0, self.static_renderers.len());
        let b = count_templates_in_range(&self.skinned_renderers, 0, self.skinned_renderers.len());
        a + b
    }

    /// Counts retained static-renderer draw templates for `start..end`.
    pub fn retained_static_template_count_for_range(&self, start: usize, end: usize) -> (r: usize)
        requires
            start <= end <= self.static_renderers@.len(),
            sum_counts(template_counts(self.static_renderers@), start as int, end as int) <= usize::MAX,
        ensures
            r == sum_counts(template_counts(self.static_renderers@), start as int, end as int),
    {
        count_templates_in_range(&self.static_renderers, start, end)
    }

    /// Counts retained skinned-renderer draw templates for `start..end`.
    pub fn retained_skinned_template_count_for_range(&self, start: usize, end: usize) -> (r: usize)
        requires
            start <= end <= self.skinned_renderers@.len(),
            sum_counts(template_counts(self.skinned_renderers@), start as int, end as int) <= usize::MAX,
        ensures
            r == sum_counts(template_counts(self.skinned_renderers@), start as int, end as int),
    {
        count_templates_in_range(&self.skinned_renderers, start, end)
    }

    /// Appends the draw templates of static renderers `start..end` to `draws`.
    pub fn append_static_draws_range_to(&self, start: usize, end: usize, draws: &mut Vec<FramePreparedDraw>)
        requires
            start <= end <= self.static_renderers@.len(),
        ensures
            final(draws)@ == old(draws)@ + range_draws(self.static_renderers@, start as int, end as int),
    {
        append_range_draws(&self.static_renderers, start, end, draws)
    }

    /// Appends the draw templates of skinned renderers `start..end` to `draws`.
    pub fn append_skinned_draws_range_to(&self, start: usize, end: usize, draws: &mut Vec<FramePreparedDraw>)
        requires
            start <= end <= self.skinned_renderers@.len(),
        ensures
            final(draws)@ == old(draws)@ + range_draws(self.skinned_renderers@, start as int, end as int),
    {
        append_range_draws(&self.skinned_renderers, start, end, draws)
    }

    /// Appends draw templates `start..end` of one static renderer, when both exist.
    pub fn append_static_renderer_draws_range_to(&self, renderer_index: usize, start: usize, end: usize, draws: &mut Vec<FramePreparedDraw>)
        ensures
            (renderer_index < self.static_renderers@.len() && start <= end <= self.static_renderers@[renderer_index as int].draws@.len())
                ==> final(draws)@ == old(draws)@ + self.static_renderers@[renderer_index as int].draws@.subrange(start as int, end as int),
            !(renderer_index < self.static_renderers@.len() && start <= end <= self.static_renderers@[renderer_index as int].draws@.len())
                ==> final(draws)@ == old(draws)@,
    {
        if renderer_index < self.static_renderers.len() {
            append_renderer_draw_range(&self.static_renderers[renderer_index], start, end, draws);
        }
    }

    /// Appends draw templates `start..end` of one skinned renderer, when both exist.
    pub fn append_skinned_renderer_draws_range_to(&self, renderer_index: usize, start: usize, end: usize, draws: &mut Vec<FramePreparedDraw>)
        ensures
            (renderer_index < self.skinned_renderers@.len() && start <= end <= self.skinned_renderers@[renderer_index as int].draws@.len())
                ==> final(draws)@ == old(draws)@ + self.skinned_renderers@[renderer_index as int].draws@.subrange(start as int, end as int),
            !(renderer_index < self.skinned_renderers@.len() && start <= end <= self.skinned_renderers@[renderer_index as int].draws@.len())
                ==> final(draws)@ == old(draws)@,
    {
        if renderer_index < self.skinned_renderers.len() {
            append_renderer_draw_range(&self.skinned_renderers[renderer_index], start, end, draws);
        }
    }

    /// Reverse-index keys `(mesh asset id, node id)` of the referenced renderer row, if it exists.
    pub open spec fn spec_reverse_index_keys(&self, renderer_ref: RenderWorldRendererRef) -> Option<(i32, i32)> {
        let table = match renderer_ref.kind {
            RenderWorldRendererKind::Static => self.static_renderers@,
            RenderWorldRendererKind::Skinned => self.skinned_renderers@,
        };
        if renderer_ref.index < table.len() {
            Some((table[renderer_ref.index as int].mesh_asset_id, table[renderer_ref.index as int].node_id))
        } else {
            None
        }
    }

    /// Returns reverse-index keys for one retained renderer table reference.
    pub fn reverse_index_keys(&self, renderer_ref: RenderWorldRendererRef) -> (r: Option<(i32, i32)>)
        ensures
            r == self.spec_reverse_index_keys(renderer_ref),
    {
        let table = match renderer_ref.kind {
            RenderWorldRendererKind::Static => &self.static_renderers,
            RenderWorldRendererKind::Skinned => &self.skinned_renderers,
        };
        if renderer_ref.index < table.len() {
            let t = &table[renderer_ref.index];
            Some((t.mesh_asset_id, t.node_id))
        } else {
            None
        }
    }

    /// Adds one renderer's current identity to the reverse indexes.
    pub fn push_reverse_indexes_for_ref(&mut self, renderer_ref: RenderWorldRendererRef)
        ensures
            final(self).active == old(self).active,
            final(self).static_renderers@ == old(self).static_renderers@,
            final(self).skinned_renderers@ == old(self).skinned_renderers@,
            match old(self).spec_reverse_index_keys(renderer_ref) {
                Some((mesh, node)) => {
                    &&& ref_index_contents(final(self).mesh_asset_index) == spec_push_ref(ref_index_contents(old(self).mesh_asset_index), mesh, renderer_ref)
                    &&& ref_index_contents(final(self).node_index) == spec_push_ref(ref_index_contents(old(self).node_index), node, renderer_ref)
                },
                None => {
                    &&& ref_index_contents(final(self).mesh_asset_index) == ref_index_contents(old(self).mesh_asset_index)
                    &&& ref_index_contents(final(self).node_index) == ref_index_contents(old(self).node_index)
                },
            },
    {
        if let Some((mesh, node)) = self.reverse_index_keys(renderer_ref) {
            push_reverse_index(&mut self.mesh_asset_index, mesh, renderer_ref);
            push_reverse_index(&mut self.node_index, node, renderer_ref);
        }
    }

    /// Removes one renderer's current identity from the reverse indexes.
    pub fn remove_reverse_indexes_for_ref(&mut self, renderer_ref: RenderWorldRendererRef)
        ensures
            final(self).active == old(self).active,
            final(self).static_renderers@ == old(self).static_renderers@,
            final(self).skinned_renderers@ == old(self).skinned_renderers@,
            match old(self).spec_reverse_index_keys(renderer_ref) {
                Some((mesh, node)) => {
                    &&& ref_index_contents(final(self).mesh_asset_index) == spec_remove_ref(ref_index_contents(old(self).mesh_asset_index), mesh, renderer_ref)
                    &&& ref_index_contents(final(self).node_index) == spec_remove_ref(ref_index_contents(old(self).node_index), node, renderer_ref)
                },
                None => {
                    &&& ref_index_contents(final(self).mesh_asset_index) == ref_index_contents(old(self).mesh_asset_index)
                    &&& ref_index_contents(final(self).node_index) == ref_index_contents(old(self).node_index)
                },
            },
    {
        if let Some((mesh, node)) = self.reverse_index_keys(renderer_ref) {
            remove_reverse_index(&mut self.mesh_asset_index, mesh, renderer_ref);
            remove_reverse_index(&mut self.node_index, node, renderer_ref);
        }
    }
}

/// Sum of template counts of `renderers[start..end)`.
fn count_templates_in_range(renderers: &Vec<RenderWorldRendererTemplate>, start: usize, end: usize) -> (r: usize)
    requires
        start <= end <= renderers@.len(),
        sum_counts(template_counts(renderers@), start as int, end as int) <= usize::MAX,
    ensures
        r == sum_counts(template_counts(renderers@), start as int, end as int),
{
    let mut total: usize = 0;
    let mut i = start;
    while i < end
        invariant
            start <= i <= end <= renderers@.len(),
            total == sum_counts(template_counts(renderers@), start as int, i as int),
            sum_counts(template_counts(renderers@), start as int, end as int) <= usize::MAX,
        decreases end - i,
    {
        proof {
            lemma_sum_counts_monotone(template_counts(renderers@), start as int, i as int + 1, end as int);
        }
        total = total + renderers[i].draws.len();
        i += 1;
    }
    total
}

/// Extending a range only grows its sum.
pub proof fn lemma_sum_counts_monotone(counts: Seq<nat>, a: int, b: int, c: int)
    requires
        a <= b <= c,
    ensures
        sum_counts(counts, a, b) <= sum_counts(counts, a, c),
    decreases c - b,
{
    if b < c {
        lemma_sum_counts_monotone(counts, a, b, c - 1);
    }
}

/// Appends the concatenated draws of `renderers[start..end)` to `out`.
fn append_range_draws(renderers: &Vec<RenderWorldRendererTemplate>, start: usize, end: usize, out: &mut Vec<FramePreparedDraw>)
    requires
        start <= end <= renderers@.len(),
    ensures
        final(out)@ == old(out)@ + range_draws(renderers@, start as int, end as int),
{
    let ghost base = out@;
    let mut i = start;
    while i < end
        invariant
            start <= i <= end <= renderers@.len(),
            out@ == base + range_draws(renderers@, start as int, i as int),
        decreases end - i,
    {
        let n = renderers[i].draws.len();
        append_renderer_draw_range(&renderers[i], 0, n, out);
        proof {
            assert(renderers@[i as int].draws@.subrange(0, n as int) =~= renderers@[i as int].draws@);
            assert(range_draws(renderers@, start as int, i as int + 1) == range_draws(renderers@, start as int, i as int)
                + renderers@[i as int].draws@);
            assert(out@ =~= base + range_draws(renderers@, start as int, i as int + 1));
        }
        i += 1;
    }
}

/// Appends draws `start..end` of `renderer` when that range exists.
fn append_renderer_draw_range(renderer: &RenderWorldRendererTemplate, start: usize, end: usize, out: &mut Vec<FramePreparedDraw>)
    ensures
        start <= end <= renderer.draws@.len() ==> final(out)@ == old(out)@ + renderer.draws@.subrange(start as int, end as int),
        !(start <= end <= renderer.draws@.len()) ==> final(out)@ == old(out)@,
{
    if start <= end && end <= renderer.draws.len() {
        let ghost base = out@;
        let mut i = start;
        while i < end
            invariant
                start <= i <= end <= renderer.draws@.len(),
                out@ == base + renderer.draws@.subrange(start as int, i as int),
            decreases end - i,
        {
            out.push(renderer.draws[i]);
            proof {
                assert(out@ =~= base + renderer.draws@.subrange(start as int, i as int + 1));
            }
            i += 1;
        }
    }
}

/// Reverse index after recording `renderer_ref` under `key` (negative keys are not indexed).
pub open spec fn spec_push_ref(index: Map<i32, Seq<RenderWorldRendererRef>>, key: i32, renderer_ref: RenderWorldRendererRef) -> Map<i32, Seq<RenderWorldRendererRef>> {
    if key < 0 {
        index
    } else {
        let bucket = if index.contains_key(key) { index[key] } else { Seq::empty() };
        index.insert(key, bucket.push(renderer_ref))
    }
}

/// Predicate keeping every reference other than `renderer_ref`.
pub open spec fn other_than(renderer_ref: RenderWorldRendererRef) -> spec_fn(RenderWorldRendererRef) -> bool {
    |c: RenderWorldRendererRef| c != renderer_ref
}

/// Reverse index after dropping every `renderer_ref` entry under `key`; an emptied bucket is removed.
pub open spec fn spec_remove_ref(index: Map<i32, Seq<RenderWorldRendererRef>>, key: i32, renderer_ref: RenderWorldRendererRef) -> Map<i32, Seq<RenderWorldRendererRef>> {
    if key < 0 || !index.contains_key(key) {
        index
    } else {
        let kept = index[key].filter(other_than(renderer_ref));
        if kept.len() == 0 {
            index.remove(key)
        } else {
            index.insert(key, kept)
        }
    }
}

/// Adds one renderer reference to a keyed reverse-index bucket.
pub fn push_reverse_index(index: &mut RefIndex, key: i32, renderer_ref: RenderWorldRendererRef)
    ensures
        ref_index_contents(*final(index)) == spec_push_ref(ref_index_contents(*old(index)), key, renderer_ref),
{
    if key < 0 {
        return;
    }
    let mut bucket = match index.get(key) {
        Some(b) => b,
        None => Vec::new(),
    };
    bucket.push(renderer_ref);
    index.set(key, bucket);
}

/// Removes one renderer reference from a keyed reverse-index bucket.
pub fn remove_reverse_index(index: &mut RefIndex, key: i32, renderer_ref: RenderWorldRendererRef)
    ensures
        ref_index_contents(*final(index)) == spec_remove_ref(ref_index_contents(*old(index)), key, renderer_ref),
{
    if key < 0 {
        return;
    }
    let bucket = match index.get(key) {
        Some(b) => b,
        None => {
            return;
        },
    };
    let ghost pred = other_than(renderer_ref);
    let mut kept: Vec<RenderWorldRendererRef> = Vec::new();
    let mut i: usize = 0;
    while i < bucket.len()
        invariant
            i <= bucket@.len(),
            pred == other_than(renderer_ref),
            kept@ == bucket@.subrange(0, i as int).filter(pred),
        decreases bucket@.len() - i,
    {
        let candidate = bucket[i];
        proof {
            assert(bucket@.subrange(0, i as int + 1) =~= bucket@.subrange(0, i as int).push(candidate));
            Seq::filter_distributes_over_add(bucket@.subrange(0, i as int), seq![candidate], pred);
            assert(bucket@.subrange(0, i as int).push(candidate) =~= bucket@.subrange(0, i as int) + seq![candidate]);
        }
        if !(candidate.kind == renderer_ref.kind && candidate.index == renderer_ref.index) {
            kept.push(candidate);
            proof {
                lemma_filter_singleton(candidate, renderer_ref);
            }
        } else {
            proof {
                assert(candidate == renderer_ref);
                lemma_filter_singleton(candidate, renderer_ref);
            }
        }
        i += 1;
    }
    proof {
        assert(bucket@.subrange(0, bucket@.len() as int) =~= bucket@);
    }
    if kept.len() == 0 {
        index.remove_key(key);
    } else {
        index.set(key, kept);
    }
}

/// Recording a reference and then dropping it again restores the reverse index, when the bucket
/// did not already hold that reference.
pub proof fn lemma_push_then_remove_restores(index: Map<i32, Seq<RenderWorldRendererRef>>, key: i32, renderer_ref: RenderWorldRendererRef)
    requires
        index.contains_key(key) ==> !index[key].contains(renderer_ref),
        index.contains_key(key) ==> index[key].len() > 0,
    ensures
        spec_remove_ref(spec_push_ref(index, key, renderer_ref), key, renderer_ref) == index,
{
    if key >= 0 {
        let bucket = if index.contains_key(key) { index[key] } else { Seq::<RenderWorldRendererRef>::empty() };
        let pred = other_than(renderer_ref);
        let pushed = bucket.push(renderer_ref);
        assert(pushed =~= bucket + seq![renderer_ref]);
        Seq::filter_distributes_over_add(bucket, seq![renderer_ref], pred);
        reveal_with_fuel(Seq::filter, 2);
        assert(seq![renderer_ref].drop_last() =~= Seq::<RenderWorldRendererRef>::empty());
        assert(seq![renderer_ref].filter(pred) =~= Seq::<RenderWorldRendererRef>::empty());
        assert(pushed.filter(pred) =~= bucket.filter(pred));
        lemma_filter_keeps_all(bucket, renderer_ref);
        assert(bucket.filter(pred) == bucket);
        if index.contains_key(key) {
            assert(spec_remove_ref(spec_push_ref(index, key, renderer_ref), key, renderer_ref) =~= index.insert(key, bucket));
            assert(index.insert(key, bucket) =~= index);
        } else {
            assert(spec_remove_ref(spec_push_ref(index, key, renderer_ref), key, renderer_ref) =~= index);
        }
    }
}

/// Filtering a one-element sequence keeps the element exactly when it differs from `renderer_ref`.
proof fn lemma_filter_singleton(x: RenderWorldRendererRef, renderer_ref: RenderWorldRendererRef)
    ensures
        x != renderer_ref ==> seq![x].filter(other_than(renderer_ref)) == seq![x],
        x == renderer_ref ==> seq![x].filter(other_than(renderer_ref)) == Seq::<RenderWorldRendererRef>::empty(),
{
    reveal_with_fuel(Seq::filter, 2);
    assert(seq![x].drop_last() =~= Seq::<RenderWorldRendererRef>::empty());
    if x != renderer_ref {
        assert(seq![x].filter(other_than(renderer_ref)) =~= seq![x]);
    } else {
        assert(seq![x].filter(other_than(renderer_ref)) =~= Seq::<RenderWorldRendererRef>::empty());
    }
}

/// Filtering out a reference absent from `s` leaves `s` unchanged.
proof fn lemma_filter_keeps_all(s: Seq<RenderWorldRendererRef>, renderer_ref: RenderWorldRendererRef)
    requires
        !s.contains(renderer_ref),
    ensures
        s.filter(other_than(renderer_ref)) == s,
    decreases s.len(),
{
    reveal_with_fuel(Seq::filter, 1);
    if s.len() > 0 {
        let pre = s.drop_last();
        assert(!pre.contains(renderer_ref)) by {
            if pre.contains(renderer_ref) {
                let j = choose|j: int| 0 <= j < pre.len() && pre[j] == renderer_ref;
                assert(s[j] == renderer_ref);
            }
        }
        lemma_filter_keeps_all(pre, renderer_ref);
        assert(s.last() != renderer_ref) by {
            if s.last() == renderer_ref {
                assert(s[s.len() - 1] == renderer_ref);
            }
        }
        assert(s =~= pre + seq![s.last()]);
        Seq::filter_distributes_over_add(pre, seq![s.last()], other_than(renderer_ref));
        reveal_with_fuel(Seq::filter, 2);
        assert(seq![s.last()].drop_last() =~= Seq::<RenderWorldRendererRef>::empty());
        assert(seq![s.last()].filter(other_than(renderer_ref)) =~= seq![s.last()]);
    }
}

} // verus!
