//! Command queues, progress counters, and the command recording state machine.
//!
//! A `Semaphore` models a timeline progress counter: the CPU-side value is the
//! last signal target handed to the GPU. A `CommandList` is a recording context
//! that moves through initial, recording and executable states; while it is
//! recording it accumulates resource-state transitions.

use vstd::prelude::*;

verus! {

/// The three logical hardware queues.
#[derive(Clone, Copy, PartialEq, Eq, Structural, Debug)]
pub enum CommandType {
    Graphics,
    Transfer,
    Compute,
}

impl CommandType {
    /// The fixed position of this queue kind in per-queue tables.
    pub open spec fn spec_index(self) -> int {
        match self {
            CommandType::Graphics => 0,
            CommandType::Transfer => 1,
            CommandType::Compute => 2,
        }
    }

    /// Position of this queue kind in per-queue tables: graphics, transfer, compute.
    pub fn table_index(self) -> (r: usize)
        ensures
            r == self.spec_index(),
            r < 3,
    {
        match self {
            CommandType::Graphics => 0,
            CommandType::Transfer => 1,
            CommandType::Compute => 2,
        }
    }
}

/// A progress counter paired with its GPU-side synchronization primitive.
///
/// `counter` is the CPU's last-known signal target on the timeline; `handle`
/// carries the raw identifier of the driver-side primitive and means nothing
/// to this library.
#[derive(Clone, Copy, PartialEq, Eq, Structural, Debug)]
pub struct Semaphore {
    pub counter: u64,
    pub handle: u64,
}

impl Semaphore {
    /// Move the signal target forward by exactly one submitted unit of work.
    ///
    /// The caller must have included a signal to the new value in the batch
    /// this advance accounts for.
    pub fn advance(&mut self)
        requires
            old(self).counter < u64::MAX,
        ensures
            final(self).counter == old(self).counter + 1,
            final(self).handle == old(self).handle,
    {
        self.counter = self.counter + 1;
    }

    /// The value the most recently accounted submission will signal.
    pub fn signal_target(&self) -> (r: u64)
        ensures
            r == self.counter,
    {
        self.counter
    }
}

/// One logical hardware queue: its family index and its progress counter.
#[derive(Clone, Copy, PartialEq, Eq, Structural, Debug)]
pub struct CommandQueue {
    pub family_index: u32,
    pub semaphore: Semaphore,
}

/// A per-queue allocator of recording contexts.
#[derive(Clone, Copy, PartialEq, Eq, Structural, Debug)]
pub struct CommandAllocator {
    pub command_type: CommandType,
}

/// Where a recording context stands in its lifecycle.
#[derive(Clone, Copy, PartialEq, Eq, Structural, Debug)]
pub enum ListState {
    /// Freshly created or reset; recording has not begun.
    Initial,
    /// Between begin and end; commands may be recorded.
    Recording,
    /// Ended; ready to be submitted.
    Executable,
}

/// The image subresources a transition applies to.
#[derive(Clone, Copy, PartialEq, Eq, Structural, Debug)]
pub struct SubresourceRange {
    pub aspect_mask: u32,
    pub base_mip_level: u32,
    pub level_count: u32,
    pub base_array_layer: u32,
    pub layer_count: u32,
}

/// A single resource-state transition: source and destination pipeline stage,
/// access mask and layout, over a subresource range of one image.
#[derive(Clone, Copy, PartialEq, Eq, Structural, Debug)]
pub struct ImageBarrier {
    pub src_stage_mask: u64,
    pub src_access_mask: u64,
    pub dst_stage_mask: u64,
    pub dst_access_mask: u64,
    pub old_layout: i32,
    pub new_layout: i32,
    pub subresource_range: SubresourceRange,
    pub image: u64,
}

/// A recording context tied to one queue kind.
///
/// Recording is strictly single-threaded per list. The recorded transitions
/// are kept so that the submission layer can state what a batch carries.
#[derive(Clone)]
pub struct CommandList {
    pub command_type: CommandType,
    pub state: ListState,
    pub barriers: Vec<ImageBarrier>,
}

impl CommandList {
    /// Record one resource-state transition into this list.
    pub fn image_barrier(&mut self, barrier: ImageBarrier)
        requires
            old(self).state is Recording,
        ensures
            final(self).state == old(self).state,
            final(self).command_type == old(self).command_type,
            final(self).barriers@ == old(self).barriers@.push(barrier),
    {
        self.barriers.push(barrier);
    }
}

} // verus!
