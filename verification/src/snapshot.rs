//! Deterministic chunking of retained draw templates into prepared-snapshot copy tasks.
use std::ops::Range;
use vstd::prelude::*;

use crate::maintenance::SNAPSHOT_REBUILD_PARALLEL_TARGET_CHUNK_TEMPLATES;
use crate::retained::{sum_counts, template_counts, RenderWorldSpace};
use crate::shared::RenderSpaceId;

verus! {

/// Renderer table selected by a prepared-snapshot rebuild task.
#[derive(Clone, Copy, Debug, PartialEq, Eq, Structural)]
pub enum SnapshotRendererTable {
    /// Static renderer templates.
    Static,
    /// Skinned renderer templates.
    Skinned,
}

/// Source region copied by one prepared-snapshot rebuild task.
#[derive(Debug, PartialEq, Eq)]
pub enum SnapshotRebuildSource {
    /// A contiguous renderer row range.
    RendererRange {
        /// Renderer table copied by the task.
        table: SnapshotRendererTable,
        /// Renderer index range copied by the task.
        range: Range<usize>,
    },
    /// A contiguous draw-template range inside one oversized renderer row.
    RendererDrawRange {
        /// Renderer table copied by the task.
        table: SnapshotRendererTable,
        /// Renderer row copied by the task.
        renderer_index: usize,
        /// Draw-template range copied by the task.
        range: Range<usize>,
    },
    /// Generated particle render-buffer draws for one render space.
    ParticleRenderBuffers {
        /// Render space whose generated particle draws are expanded by the task.
        space_id: RenderSpaceId,
    },
}

/// One deterministic chunk of retained renderer templates copied into the prepared snapshot.
pub struct SnapshotRebuildTask<'a> {
    /// Index of the active render space in frame iteration order.
    pub space_index: usize,
    /// Retained render space borrowed by the task.
    pub space: &'a RenderWorldSpace,
    /// Source region copied by the task.
    pub source: SnapshotRebuildSource,
}

/// Draw-template counts of one table of a space.
pub open spec fn table_counts(space: RenderWorldSpace, table: SnapshotRendererTable) -> Seq<nat> {
    match table {
        SnapshotRendererTable::Static => template_counts(space.static_renderers@),
        SnapshotRendererTable::Skinned => template_counts(space.skinned_renderers@),
    }
}

/// One retained template identified by `(space index, table, renderer row, draw index)`.
pub type TemplateItem = (int, SnapshotRendererTable, int, int);

/// Every template of renderer rows `a..b`, in row then draw order.
pub open spec fn table_items(si: int, table: SnapshotRendererTable, counts: Seq<nat>, a: int, b: int) -> Seq<TemplateItem>
    decreases b - a,
{
    if b <= a {
        Seq::empty()
    } else {
        table_items(si, table, counts, a, b - 1) + Seq::new(counts[b - 1], |d: int| (si, table, b - 1, d))
    }
}

/// Templates `lo..hi` of renderer row `r`.
pub open spec fn draw_items(si: int, table: SnapshotRendererTable, r: int, lo: int, hi: int) -> Seq<TemplateItem> {
    Seq::new((if hi > lo { hi - lo } else { 0 }) as nat, |d: int| (si, table, r, lo + d))
}

/// Templates a task copies.
pub open spec fn task_items(task: SnapshotRebuildTask) -> Seq<TemplateItem> {
    match task.source {
        SnapshotRebuildSource::RendererRange { table, range } => table_items(
            task.space_index as int,
            table,
            table_counts(*task.space, table),
            range.start as int,
            range.end as int,
        ),
        SnapshotRebuildSource::RendererDrawRange { table, renderer_index, range } => draw_items(
            task.space_index as int,
            table,
            renderer_index as int,
            range.start as int,
            range.end as int,
        ),
        SnapshotRebuildSource::ParticleRenderBuffers { .. } => Seq::empty(),
    }
}

/// Templates of all tasks, in task order.
pub open spec fn tasks_items(tasks: Seq<SnapshotRebuildTask>) -> Seq<TemplateItem>
    decreases tasks.len(),
{
    if tasks.len() == 0 {
        Seq::empty()
    } else {
        tasks_items(tasks.drop_last()) + task_items(tasks.last())
    }
}

/// Target templates per task.
pub open spec fn chunk_target() -> nat {
    SNAPSHOT_REBUILD_PARALLEL_TARGET_CHUNK_TEMPLATES as nat
}

/// Size rules of a task built for `table` with template counts `counts`:
/// a row range starts at a row with templates, holds only rows of at most the target size, holds
/// fewer than twice the target, and stops at the row that reaches the target, at an oversized row,
/// or at the table end;
/// an oversized row is split into target-sized draw ranges starting at multiples of the target.
pub open spec fn well_formed_task(source: SnapshotRebuildSource, table: SnapshotRendererTable, counts: Seq<nat>) -> bool {
    match source {
        SnapshotRebuildSource::RendererRange { table: t, range } => {
            let (s, e) = (range.start as int, range.end as int);
            &&& t == table
            &&& 0 <= s < e <= counts.len()
            &&& counts[s] > 0
            &&& forall|r: int| s <= r < e ==> #[trigger] counts[r] <= chunk_target()
            &&& sum_counts(counts, s, e) < 2 * chunk_target()
            &&& sum_counts(counts, s, e - 1) < chunk_target()
            &&& (sum_counts(counts, s, e) >= chunk_target() || e == counts.len() || counts[e] > chunk_target())
        },
        SnapshotRebuildSource::RendererDrawRange { table: t, renderer_index, range } => {
            let (r, s, e) = (renderer_index as int, range.start as int, range.end as int);
            &&& t == table
            &&& 0 <= r < counts.len()
            &&& counts[r] > chunk_target()
            &&& s % (chunk_target() as int) == 0
            &&& s < e <= counts[r]
            &&& e == (if s + chunk_target() <= counts[r] { s + chunk_target() } else { counts[r] as int })
        },
        SnapshotRebuildSource::ParticleRenderBuffers { .. } => false,
    }
}

/// Draw-range tasks an oversized row of `c` templates splits into: one per started
/// target-sized range.
pub open spec fn draw_task_count(c: int) -> int {
    if c <= 0 { 0 } else { (c + chunk_target() - 1) / (chunk_target() as int) }
}

/// Tasks the chunking of rows `counts[i..]` appends, when a row range holding `acc` templates is
/// open (`open`) or none is: a row without templates outside a range is skipped, an oversized row
/// closes the open range and is split into draw ranges, and a range closes at the row that makes
/// it reach the target; a range still open at the end is closed there.
pub open spec fn greedy_task_count(counts: Seq<nat>, i: int, open: bool, acc: int) -> int
    decreases counts.len() - i,
{
    if i < 0 || i >= counts.len() {
        if open { 1 } else { 0 }
    } else {
        let c = counts[i] as int;
        if c == 0 && !open {
            greedy_task_count(counts, i + 1, false, 0)
        } else if c > chunk_target() {
            (if open { 1int } else { 0int }) + draw_task_count(c) + greedy_task_count(counts, i + 1, false, 0)
        } else if acc + c >= chunk_target() {
            1 + greedy_task_count(counts, i + 1, false, 0)
        } else {
            greedy_task_count(counts, i + 1, true, acc + c)
        }
    }
}

/// Tasks the chunking of one table appends.
pub open spec fn table_task_count(counts: Seq<nat>) -> int {
    greedy_task_count(counts, 0, false, 0)
}

/// Tasks the chunking of every listed space appends: each space's static table, then its
/// skinned table.
pub open spec fn spaces_task_count(spaces: Seq<(usize, RenderSpaceId, &RenderWorldSpace)>) -> int
    decreases spaces.len(),
{
    if spaces.len() == 0 {
        0
    } else {
        let (_, _, space) = spaces.last();
        spaces_task_count(spaces.drop_last())
            + table_task_count(table_counts(*space, SnapshotRendererTable::Static))
            + table_task_count(table_counts(*space, SnapshotRendererTable::Skinned))
    }
}

/// One draw-range task more per target-sized step.
proof fn lemma_draw_task_step(start: int, c: int)
    requires
        0 <= start < c,
        start % 256 == 0,
    ensures
        draw_task_count(if start + 256 < c { start + 256 } else { c }) == draw_task_count(start) + 1,
{
    let end = if start + 256 < c { start + 256 } else { c };
    assert(chunk_target() == 256);
    let m = start / 256;
    assert(start == 256 * m) by (nonlinear_arith)
        requires
            start % 256 == 0,
            m == start / 256;
    if start == 0 {
        assert(draw_task_count(start) == 0);
        assert((end + 255) / 256 == 1) by (nonlinear_arith)
            requires
                0 < end <= 256;
    } else {
        assert((start + 255) / 256 == m) by (nonlinear_arith)
            requires
                start == 256 * m,
                m >= 1;
        assert((end + 255) / 256 == m + 1) by (nonlinear_arith)
            requires
                start == 256 * m,
                start < end <= start + 256;
    }
}

proof fn lemma_tasks_items_push(tasks: Seq<SnapshotRebuildTask>, t: SnapshotRebuildTask)
    ensures
        tasks_items(tasks.push(t)) == tasks_items(tasks) + task_items(t),
{
    assert(tasks.push(t).drop_last() =~= tasks);
}

/// Concatenation of adjacent row ranges.
pub proof fn lemma_table_items_split(si: int, table: SnapshotRendererTable, counts: Seq<nat>, a: int, b: int, c: int)
    requires
        a <= b <= c,
    ensures
        table_items(si, table, counts, a, c) == table_items(si, table, counts, a, b) + table_items(si, table, counts, b, c),
    decreases c - b,
{
    if b < c {
        lemma_table_items_split(si, table, counts, a, b, c - 1);
        assert(table_items(si, table, counts, a, c) =~= table_items(si, table, counts, a, b) + table_items(si, table, counts, b, c));
    } else {
        assert(table_items(si, table, counts, b, c) =~= Seq::<TemplateItem>::empty());
        assert(table_items(si, table, counts, a, c) =~= table_items(si, table, counts, a, b) + table_items(si, table, counts, b, c));
    }
}

/// Template count of row `renderer_index` in `table` (zero past the end).
fn retained_renderer_template_count(space: &RenderWorldSpace, table: SnapshotRendererTable, renderer_index: usize) -> (r: usize)
    ensures
        renderer_index < table_counts(*space, table).len() ==> r == table_counts(*space, table)[renderer_index as int],
        renderer_index >= table_counts(*space, table).len() ==> r == 0,
{
    match table {
        SnapshotRendererTable::Static => if renderer_index < space.static_renderers.len() {
            space.static_renderers[renderer_index].draws.len()
        } else {
            0
        },
        SnapshotRendererTable::Skinned => if renderer_index < space.skinned_renderers.len() {
            space.skinned_renderers[renderer_index].draws.len()
        } else {
            0
        },
    }
}

/// Task built for `space_index`/`space` and `table` following the size rules.
pub open spec fn task_from(t: SnapshotRebuildTask, space_index: usize, space: RenderWorldSpace, table: SnapshotRendererTable) -> bool {
    &&& t.space_index == space_index
    &&& *t.space == space
    &&& well_formed_task(t.source, table, table_counts(space, table))
}

/// Appends draw-range tasks covering every template of one oversized renderer row.
fn extend_snapshot_renderer_draw_tasks<'a>(
    tasks: &mut Vec<SnapshotRebuildTask<'a>>,
    space_index: usize,
    space: &'a RenderWorldSpace,
    table: SnapshotRendererTable,
    renderer_index: usize,
    template_count: usize,
)
    requires
        renderer_index < table_counts(*space, table).len(),
        template_count == table_counts(*space, table)[renderer_index as int],
        template_count > chunk_target(),
    ensures
        final(tasks)@.len() == old(tasks)@.len() + draw_task_count(template_count as int),
        final(tasks)@.subrange(0, old(tasks)@.len() as int) == old(tasks)@,
        tasks_items(final(tasks)@) == tasks_items(old(tasks)@) + draw_items(space_index as int, table, renderer_index as int, 0, template_count as int),
        forall|k: int| old(tasks)@.len() <= k < final(tasks)@.len() ==> task_from(#[trigger] final(tasks)@[k], space_index, *space, table),
{
    let ghost base = tasks@;
    let mut start: usize = 0;
    while start < template_count
        invariant
            start <= template_count,
            start % SNAPSHOT_REBUILD_PARALLEL_TARGET_CHUNK_TEMPLATES == 0 || start == template_count,
            renderer_index < table_counts(*space, table).len(),
            template_count == table_counts(*space, table)[renderer_index as int],
            template_count > chunk_target(),
            tasks@.len() == base.len() + draw_task_count(start as int),
            tasks@.subrange(0, base.len() as int) == base,
            tasks_items(tasks@) == tasks_items(base) + draw_items(space_index as int, table, renderer_index as int, 0, start as int),
            forall|k: int| base.len() <= k < tasks@.len() ==> task_from(#[trigger] tasks@[k], space_index, *space, table),
        decreases template_count - start,
    {
        let end = if start.saturating_add(SNAPSHOT_REBUILD_PARALLEL_TARGET_CHUNK_TEMPLATES) < template_count {
            start + SNAPSHOT_REBUILD_PARALLEL_TARGET_CHUNK_TEMPLATES
        } else {
            template_count
        };
        let task = SnapshotRebuildTask {
            space_index,
            space,
            source: SnapshotRebuildSource::RendererDrawRange { table, renderer_index, range: start..end },
        };
        let ghost before = tasks@;
        proof {
            lemma_draw_task_step(start as int, template_count as int);
            lemma_tasks_items_push(before, task);
            assert(draw_items(space_index as int, table, renderer_index as int, 0, end as int)
                =~= draw_items(space_index as int, table, renderer_index as int, 0, start as int)
                + draw_items(space_index as int, table, renderer_index as int, start as int, end as int));
        }
        tasks.push(task);
        proof {
            assert(tasks@.subrange(0, base.len() as int) =~= base) by {
                assert(tasks@.subrange(0, before.len() as int) =~= before);
                assert(before.subrange(0, base.len() as int) == base);
            }
            assert forall|k: int| base.len() <= k < tasks@.len() implies task_from(#[trigger] tasks@[k], space_index, *space, table) by {
                if k < before.len() {
                    assert(tasks@[k] == before[k]);
                }
            }
        }
        start = end;
    }
}

/// Appends chunked snapshot-copy tasks for one renderer table.
///
/// The appended tasks copy every retained template of the table exactly once, in row and draw
/// order, and each follows the size rules of [`well_formed_task`].
pub fn extend_snapshot_table_tasks<'a>(
    tasks: &mut Vec<SnapshotRebuildTask<'a>>,
    space_index: usize,
    space: &'a RenderWorldSpace,
    table: SnapshotRendererTable,
    renderer_count: usize,
)
    requires
        renderer_count == table_counts(*space, table).len(),
    ensures
        final(tasks)@.len() >= old(tasks)@.len(),
        final(tasks)@.len() == old(tasks)@.len() + table_task_count(table_counts(*space, table)),
        final(tasks)@.subrange(0, old(tasks)@.len() as int) == old(tasks)@,
        tasks_items(final(tasks)@) == tasks_items(old(tasks)@) + table_items(
            space_index as int,
            table,
            table_counts(*space, table),
            0,
            renderer_count as int,
        ),
        forall|k: int| old(tasks)@.len() <= k < final(tasks)@.len() ==> task_from(#[trigger] final(tasks)@[k], space_index, *space, table),
{
    let ghost base = tasks@;
    let ghost counts = table_counts(*space, table);
    let ghost si = space_index as int;
    let mut range_start: Option<usize> = None;
    let mut range_template_count: usize = 0;
    let mut renderer_index: usize = 0;
    while renderer_index < renderer_count
        invariant
            renderer_index <= renderer_count,
            renderer_count == counts.len(),
            counts == table_counts(*space, table),
            si == space_index as int,
            tasks@.len() >= base.len(),
            tasks@.len() + greedy_task_count(counts, renderer_index as int, range_start is Some, range_template_count as int)
                == base.len() + greedy_task_count(counts, 0, false, 0),
            range_start is None ==> range_template_count == 0,
            tasks@.subrange(0, base.len() as int) == base,
            forall|k: int| base.len() <= k < tasks@.len() ==> task_from(#[trigger] tasks@[k], space_index, *space, table),
            match range_start {
                None => tasks_items(tasks@) == tasks_items(base) + table_items(si, table, counts, 0, renderer_index as int),
                Some(s) => {
                    &&& s < renderer_index
                    &&& counts[s as int] > 0
                    &&& forall|r: int| s <= r < renderer_index ==> #[trigger] counts[r] <= chunk_target()
                    &&& range_template_count == sum_counts(counts, s as int, renderer_index as int)
                    &&& range_template_count < chunk_target()
                    &&& tasks_items(tasks@) + table_items(si, table, counts, s as int, renderer_index as int)
                        == tasks_items(base) + table_items(si, table, counts, 0, renderer_index as int)
                },
            },
        decreases renderer_count - renderer_index,
    {
        let template_count = retained_renderer_template_count(space, table, renderer_index);
        let ghost before = tasks@;
        proof {
            lemma_table_items_split(si, table, counts, 0, renderer_index as int, renderer_index as int + 1);
            if let Some(s) = range_start {
                lemma_table_items_split(si, table, counts, s as int, renderer_index as int, renderer_index as int + 1);
            }
        }
        if template_count == 0 && range_start.is_none() {
            proof {
                assert(Seq::new(counts[renderer_index as int], |d: int| (si, table, renderer_index as int, d)) =~= Seq::<TemplateItem>::empty());
                assert(table_items(si, table, counts, renderer_index as int, renderer_index as int + 1) =~= Seq::<TemplateItem>::empty());
                assert(tasks_items(tasks@) =~= tasks_items(base) + table_items(si, table, counts, 0, renderer_index as int + 1));
            }
            renderer_index += 1;
            continue;
        }
        if template_count > SNAPSHOT_REBUILD_PARALLEL_TARGET_CHUNK_TEMPLATES {
            if let Some(start) = range_start {
                let task = SnapshotRebuildTask {
                    space_index,
                    space,
                    source: SnapshotRebuildSource::RendererRange { table, range: start..renderer_index },
                };
                proof {
                    lemma_tasks_items_push(tasks@, task);
                    lemma_sum_counts_nonneg_first(counts, start as int, renderer_index as int);
                }
                tasks.push(task);
                proof {
                    assert(tasks@.subrange(0, base.len() as int) =~= base) by {
                        assert(tasks@.subrange(0, before.len() as int) =~= before);
                    }
                    assert forall|k: int| base.len() <= k < tasks@.len() implies task_from(#[trigger] tasks@[k], space_index, *space, table) by {
                        if k < before.len() {
                            assert(tasks@[k] == before[k]);
                        }
                    }
                }
                range_start = None;
                range_template_count = 0;
            }
            let ghost mid = tasks@;
            extend_snapshot_renderer_draw_tasks(tasks, space_index, space, table, renderer_index, template_count);
            proof {
                assert(table_items(si, table, counts, renderer_index as int, renderer_index as int) =~= Seq::<TemplateItem>::empty());
                assert(table_items(si, table, counts, renderer_index as int, renderer_index as int + 1)
                    =~= Seq::new(counts[renderer_index as int], |d: int| (si, table, renderer_index as int, d)));
                assert(draw_items(si, table, renderer_index as int, 0, template_count as int)
                    =~= table_items(si, table, counts, renderer_index as int, renderer_index as int + 1));
                assert(tasks@.subrange(0, base.len() as int) =~= base) by {
                    assert(tasks@.subrange(0, mid.len() as int) == mid);
                    assert(mid.subrange(0, base.len() as int) == base);
                }
                assert forall|k: int| base.len() <= k < tasks@.len() implies task_from(#[trigger] tasks@[k], space_index, *space, table) by {
                    if k < mid.len() {
                        assert(tasks@.subrange(0, mid.len() as int)[k] == mid[k]);
                    }
                }
                assert(tasks_items(tasks@) =~= tasks_items(base) + table_items(si, table, counts, 0, renderer_index as int + 1));
            }
            renderer_index += 1;
            continue;
        }
        let start = match range_start {
            Some(s) => s,
            None => {
                range_start = Some(renderer_index);
                range_template_count = 0;
                renderer_index
            },
        };
        let ghost open_items_before = table_items(si, table, counts, start as int, renderer_index as int);
        let ghost row = Seq::new(counts[renderer_index as int], |d: int| (si, table, renderer_index as int, d));
        let ghost tasks_before = tasks_items(tasks@);
        proof {
            assert(sum_counts(counts, start as int, start as int) == 0);
            assert(table_items(si, table, counts, start as int, start as int) =~= Seq::<TemplateItem>::empty());
            assert(tasks_items(tasks@) + open_items_before == tasks_items(base) + table_items(si, table, counts, 0, renderer_index as int));
        }
        range_template_count = range_template_count + template_count;
        proof {
            assert(range_template_count == sum_counts(counts, start as int, renderer_index as int + 1));
            assert(counts[start as int] > 0);
        }
        if range_template_count >= SNAPSHOT_REBUILD_PARALLEL_TARGET_CHUNK_TEMPLATES {
            let task = SnapshotRebuildTask {
                space_index,
                space,
                source: SnapshotRebuildSource::RendererRange { table, range: start..renderer_index + 1 },
            };
            proof {
                lemma_tasks_items_push(tasks@, task);
            }
            tasks.push(task);
            proof {
                assert(tasks@.subrange(0, base.len() as int) =~= base) by {
                    assert(tasks@.subrange(0, before.len() as int) =~= before);
                }
                assert forall|k: int| base.len() <= k < tasks@.len() implies task_from(#[trigger] tasks@[k], space_index, *space, table) by {
                    if k < before.len() {
                        assert(tasks@[k] == before[k]);
                    }
                }
            }
            range_start = None;
            range_template_count = 0;
            proof {
                assert(table_items(si, table, counts, start as int, renderer_index as int + 1) == open_items_before + row);
                assert(table_items(si, table, counts, 0, renderer_index as int + 1) == table_items(si, table, counts, 0, renderer_index as int) + row);
                assert(tasks_items(tasks@) == tasks_before + (open_items_before + row));
                assert(tasks_before + (open_items_before + row) =~= (tasks_before + open_items_before) + row);
            }
        } else {
            proof {
                assert(table_items(si, table, counts, start as int, renderer_index as int + 1) == open_items_before + row);
                assert(table_items(si, table, counts, 0, renderer_index as int + 1) == table_items(si, table, counts, 0, renderer_index as int) + row);
                assert(tasks_before + (open_items_before + row) =~= (tasks_before + open_items_before) + row);
            }
        }
        renderer_index += 1;
    }
    if let Some(start) = range_start {
        let ghost before = tasks@;
        let task = SnapshotRebuildTask {
            space_index,
            space,
            source: SnapshotRebuildSource::RendererRange { table, range: start..renderer_count },
        };
        proof {
            lemma_tasks_items_push(tasks@, task);
        }
        tasks.push(task);
        proof {
            assert(tasks@.subrange(0, base.len() as int) =~= base) by {
                assert(tasks@.subrange(0, before.len() as int) =~= before);
            }
            assert forall|k: int| base.len() <= k < tasks@.len() implies task_from(#[trigger] tasks@[k], space_index, *space, table) by {
                if k < before.len() {
                    assert(tasks@[k] == before[k]);
                }
            }
        }
    }
}

/// Templates of every active space: each space's static table, then its skinned table.
pub open spec fn spaces_items(spaces: Seq<(usize, RenderSpaceId, &RenderWorldSpace)>) -> Seq<TemplateItem>
    decreases spaces.len(),
{
    if spaces.len() == 0 {
        Seq::empty()
    } else {
        let (si, _, space) = spaces.last();
        spaces_items(spaces.drop_last()) + table_items(
            si as int,
            SnapshotRendererTable::Static,
            table_counts(*space, SnapshotRendererTable::Static),
            0,
            space.static_renderers@.len() as int,
        ) + table_items(
            si as int,
            SnapshotRendererTable::Skinned,
            table_counts(*space, SnapshotRendererTable::Skinned),
            0,
            space.skinned_renderers@.len() as int,
        )
    }
}

/// Builds deterministic snapshot-copy tasks from active render spaces.
///
/// The tasks copy every retained template of every listed space exactly once, in space, table,
/// row and draw order; each task belongs to one listed space and follows the size rules.
pub fn build_snapshot_rebuild_tasks<'a>(active_spaces: &[(usize, RenderSpaceId, &'a RenderWorldSpace)]) -> (tasks: Vec<SnapshotRebuildTask<'a>>)
    ensures
        tasks_items(tasks@) == spaces_items(active_spaces@),
        tasks@.len() == spaces_task_count(active_spaces@),
        forall|k: int| 0 <= k < tasks@.len() ==> exists|e: int| {
            &&& 0 <= e < active_spaces@.len()
            &&& #[trigger] tasks@[k].space_index == active_spaces@[e].0
            &&& *tasks@[k].space == *active_spaces@[e].2
            &&& (well_formed_task(tasks@[k].source, SnapshotRendererTable::Static, table_counts(*active_spaces@[e].2, SnapshotRendererTable::Static))
                || well_formed_task(tasks@[k].source, SnapshotRendererTable::Skinned, table_counts(*active_spaces@[e].2, SnapshotRendererTable::Skinned)))
        },
{
    let mut tasks: Vec<SnapshotRebuildTask<'a>> = Vec::new();
    let mut e: usize = 0;
    while e < active_spaces.len()
        invariant
            e <= active_spaces@.len(),
            tasks_items(tasks@) == spaces_items(active_spaces@.subrange(0, e as int)),
            tasks@.len() == spaces_task_count(active_spaces@.subrange(0, e as int)),
            forall|k: int| 0 <= k < tasks@.len() ==> exists|e2: int| {
                &&& 0 <= e2 < active_spaces@.len()
                &&& #[trigger] tasks@[k].space_index == active_spaces@[e2].0
                &&& *tasks@[k].space == *active_spaces@[e2].2
                &&& (well_formed_task(tasks@[k].source, SnapshotRendererTable::Static, table_counts(*active_spaces@[e2].2, SnapshotRendererTable::Static))
                    || well_formed_task(tasks@[k].source, SnapshotRendererTable::Skinned, table_counts(*active_spaces@[e2].2, SnapshotRendererTable::Skinned)))
            },
        decreases active_spaces@.len() - e,
    {
        let (space_index, _, space) = active_spaces[e];
        let ghost t0 = tasks@;
        extend_snapshot_table_tasks(&mut tasks, space_index, space, SnapshotRendererTable::Static, space.static_renderers.len());
        let ghost t1 = tasks@;
        extend_snapshot_table_tasks(&mut tasks, space_index, space, SnapshotRendererTable::Skinned, space.skinned_renderers.len());
        proof {
            let sub = active_spaces@.subrange(0, e as int + 1);
            assert(sub.drop_last() =~= active_spaces@.subrange(0, e as int));
            assert(sub.last() == active_spaces@[e as int]);
            assert forall|k: int| 0 <= k < tasks@.len() implies exists|e2: int| {
                &&& 0 <= e2 < active_spaces@.len()
                &&& #[trigger] tasks@[k].space_index == active_spaces@[e2].0
                &&& *tasks@[k].space == *active_spaces@[e2].2
                &&& (well_formed_task(tasks@[k].source, SnapshotRendererTable::Static, table_counts(*active_spaces@[e2].2, SnapshotRendererTable::Static))
                    || well_formed_task(tasks@[k].source, SnapshotRendererTable::Skinned, table_counts(*active_spaces@[e2].2, SnapshotRendererTable::Skinned)))
            } by {
                if k < t0.len() {
                    assert(tasks@.subrange(0, t1.len() as int)[k] == t1[k]);
                    assert(t1.subrange(0, t0.len() as int)[k] == t0[k]);
                    assert(tasks@[k] == t0[k]);
                } else if k < t1.len() {
                    assert(tasks@.subrange(0, t1.len() as int)[k] == t1[k]);
                    assert(tasks@[k] == t1[k]);
                    assert(task_from(t1[k], space_index, *space, SnapshotRendererTable::Static));
                    assert(tasks@[k].space_index == active_spaces@[e as int].0);
                } else {
                    assert(task_from(tasks@[k], space_index, *space, SnapshotRendererTable::Skinned));
                    assert(tasks@[k].space_index == active_spaces@[e as int].0);
                }
            }
        }
        e += 1;
    }
    proof {
        assert(active_spaces@.subrange(0, active_spaces@.len() as int) =~= active_spaces@);
    }
    tasks
}

/// Templates a task emits: the row-range sum, the draw-range length, or none for particles.
pub open spec fn spec_task_template_count(task: SnapshotRebuildTask) -> int {
    match task.source {
        SnapshotRebuildSource::RendererRange { table, range } => sum_counts(
            table_counts(*task.space, table),
            range.start as int,
            range.end as int,
        ) as int,
        SnapshotRebuildSource::RendererDrawRange { range, .. } => if range.end >= range.start {
            range.end - range.start
        } else {
            0
        },
        SnapshotRebuildSource::ParticleRenderBuffers { .. } => 0,
    }
}

impl<'a> SnapshotRebuildTask<'a> {
    /// Returns the number of retained draw templates the task will emit.
    pub fn retained_template_count(&self) -> (r: usize)
        requires
            match self.source {
                SnapshotRebuildSource::RendererRange { table, range } => {
                    &&& range.start <= range.end <= table_counts(*self.space, table).len()
                    &&& sum_counts(table_counts(*self.space, table), range.start as int, range.end as int) <= usize::MAX
                },
                _ => true,
            },
        ensures
            r == spec_task_template_count(*self),
    {
        match &self.source {
            SnapshotRebuildSource::RendererRange { table: SnapshotRendererTable::Static, range } => {
                self.space.retained_static_template_count_for_range(range.start, range.end)
            },
            SnapshotRebuildSource::RendererRange { table: SnapshotRendererTable::Skinned, range } => {
                self.space.retained_skinned_template_count_for_range(range.start, range.end)
            },
            SnapshotRebuildSource::RendererDrawRange { range, .. } => if range.end >= range.start {
                range.end - range.start
            } else {
                0
            },
            SnapshotRebuildSource::ParticleRenderBuffers { .. } => 0,
        }
    }
}

proof fn lemma_sum_counts_nonneg_first(counts: Seq<nat>, a: int, b: int)
    requires
        a < b,
    ensures
        sum_counts(counts, a, b) >= counts[a],
    decreases b - a,
{
    if b - 1 > a {
        lemma_sum_counts_nonneg_first(counts, a, b - 1);
    }
}

} // verus!
