//! Frame CPU fan-out admission: whether a batch of independent work items is split across workers.
use vstd::prelude::*;

verus! {

/// Work description handed to the admission policy.
#[derive(Clone, Copy, Debug, PartialEq, Eq)]
pub struct FrameCpuWorkload {
    /// Work that must run serially before fan-out.
    pub serial_units: usize,
    /// Estimated total work units.
    pub work_units: usize,
    /// Number of independent items that could run on separate workers.
    pub independent_items: usize,
}

impl FrameCpuWorkload {
    /// Builds a workload description.
    pub fn new(serial_units: usize, work_units: usize, independent_items: usize) -> (r: Self)
        ensures
            r == (FrameCpuWorkload { serial_units, work_units, independent_items }),
    {
        FrameCpuWorkload { serial_units, work_units, independent_items }
    }

    /// A workload made of `count` independent unit-cost items.
    pub fn independent_items(count: usize) -> (r: Self)
        ensures
            r == (FrameCpuWorkload { serial_units: 0, work_units: count, independent_items: count }),
    {
        FrameCpuWorkload { serial_units: 0, work_units: count, independent_items: count }
    }
}

/// Parallel fan-out decision.
#[derive(Clone, Copy, Debug, PartialEq, Eq, Structural)]
pub enum ParallelAdmission {
    /// Run on the calling thread.
    Serial,
    /// Fan out with at least `chunk_size` items per worker task.
    Parallel {
        /// Minimum items per worker task.
        chunk_size: usize,
    },
}

impl ParallelAdmission {
    /// Minimum items per worker task, when parallel.
    pub open spec fn spec_chunk_size(self) -> Option<usize> {
        match self {
            ParallelAdmission::Serial => None,
            ParallelAdmission::Parallel { chunk_size } => Some(chunk_size),
        }
    }

    /// Returns the minimum items per worker task, or `None` when serial.
    pub fn chunk_size(&self) -> (r: Option<usize>)
        ensures
            r == self.spec_chunk_size(),
    {
        match self {
            ParallelAdmission::Serial => None,
            ParallelAdmission::Parallel { chunk_size } => Some(*chunk_size),
        }
    }

    /// Returns whether the decision fans out.
    pub fn is_parallel(&self) -> (r: bool)
        ensures
            r == (*self is Parallel),
    {
        matches!(self, ParallelAdmission::Parallel { .. })
    }
}

/// Worker-count policy for one frame.
#[derive(Clone, Copy, Debug, PartialEq, Eq)]
pub struct FrameParallelPolicy {
    /// Worker threads available to the frame.
    pub worker_count: usize,
}

/// Fan-out happens when more than one worker exists and the items fill at least two chunks.
pub open spec fn admits_parallel(worker_count: int, independent_items: int, chunk_items: int) -> bool {
    worker_count > 1 && chunk_items > 0 && independent_items > chunk_items
}

impl FrameParallelPolicy {
    /// Builds a policy for `worker_count` workers.
    pub fn new(worker_count: usize) -> (r: Self)
        ensures
            r.worker_count == worker_count,
    {
        FrameParallelPolicy { worker_count }
    }

    /// Decides fan-out for independent items handed out `chunk_items` at a time.
    pub fn admit_independent_items(&self, workload: FrameCpuWorkload, chunk_items: usize) -> (r: ParallelAdmission)
        ensures
            admits_parallel(self.worker_count as int, workload.independent_items as int, chunk_items as int)
                ==> r == (ParallelAdmission::Parallel { chunk_size: chunk_items }),
            !admits_parallel(self.worker_count as int, workload.independent_items as int, chunk_items as int)
                ==> r == ParallelAdmission::Serial,
    {
        if self.worker_count > 1 && chunk_items > 0 && workload.independent_items > chunk_items {
            ParallelAdmission::Parallel { chunk_size: chunk_items }
        } else {
            ParallelAdmission::Serial
        }
    }
}

/// Draws per render-command chunk handed to one collection worker.
pub const RENDER_COMMAND_CHUNK_DRAWS: usize = 256;

/// Prepared-collection tasks assigned to one worker.
pub const PREPARED_COLLECT_PARALLEL_CHUNK_TASKS: usize = 1;

/// Whether prepared per-view collection fans out: only for draw-heavy frames (at least two render
/// command chunks of draws) with more than one collection task and more than one worker.
pub open spec fn spec_prepared_collect_parallel(worker_count: int, draw_count: int, task_count: int) -> bool {
    draw_count >= RENDER_COMMAND_CHUNK_DRAWS * 2
        && admits_parallel(worker_count, task_count, PREPARED_COLLECT_PARALLEL_CHUNK_TASKS as int)
}

/// Returns the admission decision for prepared per-view draw collection.
pub fn prepared_collect_admission(worker_count: usize, draw_count: usize, task_count: usize) -> (r: ParallelAdmission)
    ensures
        spec_prepared_collect_parallel(worker_count as int, draw_count as int, task_count as int)
            ==> r == (ParallelAdmission::Parallel { chunk_size: PREPARED_COLLECT_PARALLEL_CHUNK_TASKS }),
        !spec_prepared_collect_parallel(worker_count as int, draw_count as int, task_count as int) ==> r == ParallelAdmission::Serial,
{
    if draw_count < RENDER_COMMAND_CHUNK_DRAWS * 2 {
        return ParallelAdmission::Serial;
    }
    FrameParallelPolicy::new(worker_count).admit_independent_items(
        FrameCpuWorkload::new(0, draw_count, task_count),
        PREPARED_COLLECT_PARALLEL_CHUNK_TASKS,
    )
}

} // verus!
