//! The device context: the three logical queues, the global frame timeline,
//! and the bindless table, together with frame pacing and submission checks.
//!
//! Frame pacing works against one global timeline counter. Ending a frame
//! advances the counter by one, and the caller owes the GPU a matching signal
//! to the new value. Beginning a frame is gated on the GPU having signaled at
//! least `counter - (frame_in_flight_count - 1)`, which bounds how many frames
//! the CPU may record ahead; the frame slot reused is `counter mod
//! frame_in_flight_count`. The blocking wait itself is driver work done by the
//! surrounding layer: this module decides the wait target, records what the
//! GPU has been observed to signal, and tells when beginning a frame would
//! block.

use vstd::prelude::*;
use crate::GpuError;
use crate::bindless::{BindlessTable, DescriptorCategory};
use crate::command::{
    CommandAllocator, CommandList, CommandQueue, CommandType, ImageBarrier, ListState, Semaphore,
};
use crate::gpu_resource::{DescriptorPool, DescriptorSet, DescriptorSetLayout};
use crate::physical_device::{
    dedicated_family, first_match, flags_satisfy, select_queue_families, separate_family,
    separate_match, spec_queue_family_selection, QUEUE_FLAG_COMPUTE, QUEUE_FLAG_GRAPHICS,
    QUEUE_FLAG_TRANSFER,
};
use crate::pool::MAX_RESOURCE_COUNT;
use vstd::arithmetic::div_mod::lemma_fundamental_div_mod;

verus! {

/// The owning context for the renderer core's process-wide state.
pub struct Device {
    /// The three logical queues, indexed per [`CommandType::spec_index`].
    pub queues: [CommandQueue; 3],
    /// The global frame timeline counter.
    pub frame_sema: Semaphore,
    /// The highest value the GPU has been observed to signal on the global
    /// timeline.
    pub gpu_frame_signaled: u64,
    /// How many frames the CPU may record ahead of GPU completion.
    pub frame_count: u32,
    /// The shader-visible descriptor table.
    pub bindless: BindlessTable,
    /// Raw identifier of the driver-side descriptor pool.
    pub descriptor_pool: DescriptorPool,
    /// Raw identifier of the driver-side descriptor set layout.
    pub descriptor_set_layout: DescriptorSetLayout,
    /// Raw identifier of the driver-side descriptor set.
    pub descriptor_set: DescriptorSet,
}

impl Device {
    /// The device invariant: at least one frame in flight, the observed GPU
    /// progress never ahead of the CPU counter, and a whole bindless table.
    pub open spec fn wf(self) -> bool {
        &&& self.frame_count >= 1
        &&& self.gpu_frame_signaled <= self.frame_sema.counter
        &&& self.bindless.wf()
    }

    /// Build the device context from the negotiated queue family table.
    ///
    /// Picks one family per logical queue, fatally reporting capability
    /// absence when some logical queue has no admissible family, and starts
    /// every counter at zero with an unwritten bindless table. The driver-side
    /// identifiers (semaphores, descriptor pool, layout and set) start null;
    /// the surrounding layer fills them in after creating the objects the
    /// layout describes.
    pub fn new(
        frame_count: u32,
        queue_family_properties: &[(usize, u32)],
        descriptor_capacity: u32,
    ) -> (r: Result<Device, GpuError>)
        requires
            frame_count >= 1,
            descriptor_capacity <= MAX_RESOURCE_COUNT,
            forall|j: int|
                0 <= j < queue_family_properties@.len() ==> (#[trigger] queue_family_properties@[j].0)
                    <= u32::MAX,
        ensures
            match r {
                Ok(d) => {
                    &&& d.wf()
                    &&& d.frame_count == frame_count
                    &&& d.frame_sema == (Semaphore { counter: 0, handle: 0 })
                    &&& d.gpu_frame_signaled == 0
                    &&& d.bindless.spec_capacity() == descriptor_capacity
                    &&& forall|c: DescriptorCategory, s: u32| d.bindless.entry(c, s) is None
                    &&& spec_queue_family_selection(queue_family_properties@) == (
                        Some(d.queues@[CommandType::Graphics.spec_index()].family_index as usize),
                        Some(d.queues@[CommandType::Transfer.spec_index()].family_index as usize),
                        Some(d.queues@[CommandType::Compute.spec_index()].family_index as usize),
                    )
                    &&& forall|q: int|
                        0 <= q < 3 ==> (#[trigger] d.queues@[q]).semaphore == (Semaphore {
                            counter: 0,
                            handle: 0,
                        })
                },
                Err(e) => {
                    &&& e == GpuError::CapabilityAbsence
                    &&& {
                        let (g, t, c) = spec_queue_family_selection(queue_family_properties@);
                        g is None || t is None || c is None
                    }
                },
            },
    {
        let picks = match select_queue_families(queue_family_properties) {
            Ok(p) => p,
            Err(e) => {
                return Err(e);
            },
        };
        proof {
            lemma_first_match_in_table(queue_family_properties@, QUEUE_FLAG_GRAPHICS);
            lemma_separate_match_in_table(
                queue_family_properties@,
                QUEUE_FLAG_TRANSFER,
                QUEUE_FLAG_COMPUTE,
                None,
            );
            lemma_separate_match_in_table(
                queue_family_properties@,
                QUEUE_FLAG_COMPUTE,
                QUEUE_FLAG_TRANSFER,
                None,
            );
        }
        let fresh = Semaphore { counter: 0, handle: 0 };
        let queues = [
            CommandQueue { family_index: picks[0] as u32, semaphore: fresh },
            CommandQueue { family_index: picks[1] as u32, semaphore: fresh },
            CommandQueue { family_index: picks[2] as u32, semaphore: fresh },
        ];
        Ok(
            Device {
                queues,
                frame_sema: fresh,
                gpu_frame_signaled: 0,
                frame_count,
                bindless: BindlessTable::new(descriptor_capacity),
                descriptor_pool: DescriptorPool(0),
                descriptor_set_layout: DescriptorSetLayout(0),
                descriptor_set: DescriptorSet(0),
            },
        )
    }

    /// The queue serving a command type.
    pub fn queue_at(&self, command_type: CommandType) -> (r: &CommandQueue)
        ensures
            *r == self.queues@[command_type.spec_index()],
    {
        &self.queues[command_type.table_index()]
    }

    /// A binary synchronization primitive's progress counter, starting at
    /// zero; `handle` is the driver identifier of the primitive.
    pub fn create_binary_semaphore(&self, handle: u64) -> (r: Semaphore)
        ensures
            r == (Semaphore { counter: 0, handle }),
    {
        Semaphore { counter: 0, handle }
    }

    /// A timeline counter starting at zero; `handle` is the driver identifier
    /// of the underlying timeline primitive.
    pub fn create_timeline_semaphore(&self, handle: u64) -> (r: Semaphore)
        ensures
            r == (Semaphore { counter: 0, handle }),
    {
        Semaphore { counter: 0, handle }
    }

    /// The global-timeline value the GPU must have signaled before the next
    /// frame may begin: `counter - (frame_in_flight_count - 1)`, floored at
    /// zero.
    pub open spec fn spec_frame_wait_value(self) -> int {
        if self.frame_sema.counter >= self.frame_count - 1 {
            self.frame_sema.counter - (self.frame_count - 1)
        } else {
            0
        }
    }

    /// Beginning a frame would not block: the GPU has been observed at or
    /// past the wait value.
    pub open spec fn frame_ready(self) -> bool {
        self.gpu_frame_signaled >= self.spec_frame_wait_value()
    }

    /// The timeline value to hand the driver-side wait before beginning the
    /// next frame.
    pub fn frame_wait_value(&self) -> (r: u64)
        requires
            self.wf(),
        ensures
            r == self.spec_frame_wait_value(),
    {
        let behind = (self.frame_count - 1) as u64;
        if self.frame_sema.counter >= behind {
            self.frame_sema.counter - behind
        } else {
            0
        }
    }

    /// Record that the GPU has signaled the global timeline up to `value`.
    ///
    /// The GPU can only complete work the CPU has accounted for, so the value
    /// never exceeds the frame counter; observation never moves backwards.
    pub fn observe_frame_signal(&mut self, value: u64)
        requires
            old(self).wf(),
            value <= old(self).frame_sema.counter,
        ensures
            final(self).wf(),
            *final(self) == (Device {
                gpu_frame_signaled: if value > old(self).gpu_frame_signaled {
                    value
                } else {
                    old(self).gpu_frame_signaled
                },
                ..*old(self)
            }),
    {
        if value > self.gpu_frame_signaled {
            self.gpu_frame_signaled = value;
        }
    }

    /// The frame slot to reuse for the frame now beginning.
    ///
    /// Callable only once the GPU's observed progress has reached the wait
    /// value, so the slot's prior submission is confirmed complete; the slot
    /// is the frame counter modulo the frames in flight.
    pub fn new_frame(&self) -> (slot: usize)
        requires
            self.wf(),
            self.frame_ready(),
        ensures
            slot == self.frame_sema.counter as int % self.frame_count as int,
            slot < self.frame_count,
    {
        (self.frame_sema.counter % (self.frame_count as u64)) as usize
    }

    /// Begin a frame without blocking, or report that the GPU has not yet
    /// been observed far enough and a wait is due first.
    pub fn try_new_frame(&self) -> (r: Option<usize>)
        requires
            self.wf(),
        ensures
            match r {
                Some(slot) => {
                    &&& self.frame_ready()
                    &&& slot == self.frame_sema.counter as int % self.frame_count as int
                    &&& slot < self.frame_count
                },
                None => !self.frame_ready(),
            },
    {
        let wait_value = self.frame_wait_value();
        if self.gpu_frame_signaled >= wait_value {
            Some(self.new_frame())
        } else {
            None
        }
    }

    /// Account the frame just recorded: advance the global timeline counter
    /// by one. The caller must have included a signal of the new value in the
    /// frame's submitted batch.
    pub fn end_frame(&mut self)
        requires
            old(self).wf(),
            old(self).frame_sema.counter < u64::MAX,
        ensures
            final(self).wf(),
            *final(self) == spec_after_end_frames(*old(self), 1),
    {
        self.frame_sema.advance();
    }

    /// Every list of a batch is ready for this queue: ended, and recorded for
    /// the same queue kind.
    pub open spec fn batch_submittable(
        command_type: CommandType,
        lists: Seq<CommandList>,
    ) -> bool {
        forall|i: int|
            0 <= i < lists.len() ==> (#[trigger] lists[i].state) is Executable
                && lists[i].command_type == command_type
    }

    /// Check a batch against the queue it is bound for before it is handed to
    /// the driver: every list must be ended and recorded for that queue kind.
    ///
    /// Submission is fire-and-forget past this point; completion is only
    /// observable through the signaled counters.
    pub fn submit(&self, command_type: CommandType, lists: &Vec<CommandList>) -> (r: Result<
        (),
        GpuError,
    >)
        ensures
            match r {
                Ok(_) => Self::batch_submittable(command_type, lists@),
                Err(e) => {
                    &&& e == GpuError::InvalidHandle
                    &&& !Self::batch_submittable(command_type, lists@)
                },
            },
    {
        let n = lists.len();
        let mut i: usize = 0;
        while i < n
            invariant
                i <= n,
                n == lists@.len(),
                forall|j: int|
                    0 <= j < i ==> (#[trigger] lists@[j].state) is Executable
                        && lists@[j].command_type == command_type,
        decreases n - i,
        {
            let ok_state = matches!(lists[i].state, ListState::Executable);
            let ok_type = lists[i].command_type.table_index() == command_type.table_index();
            proof {
                if lists@[i as int].command_type.spec_index() == command_type.spec_index() {
                    lemma_command_type_index_injective(
                        lists@[i as int].command_type,
                        command_type,
                    );
                }
            }
            if !(ok_state && ok_type) {
                return Err(GpuError::InvalidHandle);
            }
            i = i + 1;
        }
        Ok(())
    }

    /// A recording-context allocator for one queue kind.
    pub fn create_command_allocator(&self, command_type: CommandType) -> (r: CommandAllocator)
        ensures
            r.command_type == command_type,
    {
        CommandAllocator { command_type }
    }

    /// A fresh recording context owned by an allocator's queue kind.
    pub fn create_command_list(&self, command_allocator: &CommandAllocator) -> (r: CommandList)
        ensures
            r.command_type == command_allocator.command_type,
            r.state is Initial,
            r.barriers@ == Seq::<ImageBarrier>::empty(),
    {
        CommandList {
            command_type: command_allocator.command_type,
            state: ListState::Initial,
            barriers: Vec::new(),
        }
    }

    /// Return a list to its initial state, discarding what it recorded.
    ///
    /// Only to be called once the frame synchronizer has confirmed the GPU is
    /// done consuming the slot's prior submission; that pacing is the
    /// caller's, via the wait `new_frame` is gated on.
    pub fn reset_command_allocator(
        &self,
        command_allocator: &CommandAllocator,
        list: &mut CommandList,
    )
        requires
            old(list).command_type == command_allocator.command_type,
            !(old(list).state is Recording),
        ensures
            final(list).state is Initial,
            final(list).barriers@ == Seq::<ImageBarrier>::empty(),
            final(list).command_type == old(list).command_type,
    {
        list.state = ListState::Initial;
        list.barriers.clear();
    }

    /// Begin recording into an initial list.
    pub fn begin_command_list(&self, list: &mut CommandList)
        requires
            old(list).state is Initial,
        ensures
            final(list).state is Recording,
            final(list).barriers@ == old(list).barriers@,
            final(list).command_type == old(list).command_type,
    {
        list.state = ListState::Recording;
    }

    /// End recording, leaving the list executable.
    pub fn end_command_list(&self, list: &mut CommandList)
        requires
            old(list).state is Recording,
        ensures
            final(list).state is Executable,
            final(list).barriers@ == old(list).barriers@,
            final(list).command_type == old(list).command_type,
    {
        list.state = ListState::Executable;
    }
}

/// The device state after `n` further frames are ended with no new GPU signal
/// observed.
pub open spec fn spec_after_end_frames(d: Device, n: int) -> Device {
    Device {
        frame_sema: Semaphore {
            counter: (d.frame_sema.counter + n) as u64,
            handle: d.frame_sema.handle,
        },
        ..d
    }
}

/// Distinct command types sit at distinct table positions.
proof fn lemma_command_type_index_injective(a: CommandType, b: CommandType)
    requires
        a.spec_index() == b.spec_index(),
    ensures
        a == b,
{
}

/// A first-match pick names an index stored in the table.
proof fn lemma_first_match_in_table(s: Seq<(usize, u32)>, desired: u32)
    ensures
        first_match(s, desired) matches Some(i) ==> exists|j: int|
            0 <= j < s.len() && (#[trigger] s[j]).0 == i,
    decreases s.len(),
{
    if s.len() > 0 {
        if flags_satisfy(s[0].1, desired) {
            assert(first_match(s, desired) == Some(s[0].0));
        } else {
            lemma_first_match_in_table(s.drop_first(), desired);
            let r = first_match(s, desired);
            if r is Some {
                let i = r->0;
                let j = choose|j: int|
                    0 <= j < s.drop_first().len() && (#[trigger] s.drop_first()[j]).0 == i;
                assert(s[j + 1] == s.drop_first()[j]);
            }
        }
    }
}

/// A separate-queue pick names an index stored in the table, unless it is the
/// accumulated fallback handed in.
proof fn lemma_separate_match_in_table(
    s: Seq<(usize, u32)>,
    desired: u32,
    undesired: u32,
    acc: Option<usize>,
)
    ensures
        separate_match(s, desired, undesired, acc) matches Some(i) ==> (acc == Some(i) || exists|
            j: int,
        |
            0 <= j < s.len() && (#[trigger] s[j]).0 == i),
    decreases s.len(),
{
    if s.len() > 0 {
        if dedicated_family(s[0].1, desired, undesired) {
            assert(separate_match(s, desired, undesired, acc) == Some(s[0].0));
        } else if separate_family(s[0].1, desired) {
            lemma_separate_match_in_table(s.drop_first(), desired, undesired, Some(s[0].0));
            let r = separate_match(s, desired, undesired, acc);
            if r is Some {
                let i = r->0;
                if s[0].0 != i {
                    let j = choose|j: int|
                        0 <= j < s.drop_first().len() && (#[trigger] s.drop_first()[j]).0 == i;
                    assert(s[j + 1] == s.drop_first()[j]);
                }
            }
        } else {
            lemma_separate_match_in_table(s.drop_first(), desired, undesired, acc);
            let r = separate_match(s, desired, undesired, acc);
            if r is Some {
                let i = r->0;
                if acc != Some(i) {
                    let j = choose|j: int|
                        0 <= j < s.drop_first().len() && (#[trigger] s.drop_first()[j]).0 == i;
                    assert(s[j + 1] == s.drop_first()[j]);
                }
            }
        }
    }
}

/// Frames of one in-flight window never share a slot: two frame counters
/// fewer than `frame_in_flight_count` apart select distinct frame slots, so
/// the resources a beginning frame reuses belong to the one frame the pacing
/// bound has confirmed complete, never to a frame still in flight.
pub proof fn lemma_frame_slots_distinct(frame_count: u32, a: u64, b: u64)
    requires
        frame_count >= 1,
        a < b,
        b - a < frame_count,
    ensures
        a as int % frame_count as int != b as int % frame_count as int,
{
    let fc = frame_count as int;
    let ai = a as int;
    let bi = b as int;
    lemma_fundamental_div_mod(ai, fc);
    lemma_fundamental_div_mod(bi, fc);
    if ai % fc == bi % fc {
        let q = bi / fc - ai / fc;
        assert(bi - ai == fc * q) by (nonlinear_arith)
            requires
                ai == fc * (ai / fc) + ai % fc,
                bi == fc * (bi / fc) + bi % fc,
                ai % fc == bi % fc,
                q == bi / fc - ai / fc,
        ;
        assert(0 < fc * q < fc);
        assert(false) by (nonlinear_arith)
            requires
                fc >= 1,
                0 < fc * q,
                fc * q < fc,
        ;
    }
}

/// Pacing bound: once at least `frame_in_flight_count` frames have ended, a
/// frame may begin only after the GPU's observed progress on the global
/// timeline has reached `counter - frame_in_flight_count + 1` — in
/// particular, past `counter - frame_in_flight_count`. The returned slot's
/// prior submission signalled exactly that value, so it is confirmed complete.
pub proof fn lemma_frame_pacing_bound(d: Device)
    requires
        d.wf(),
        d.frame_sema.counter >= d.frame_count,
        d.frame_ready(),
    ensures
        d.gpu_frame_signaled >= d.frame_sema.counter - d.frame_count + 1,
        d.gpu_frame_signaled > d.frame_sema.counter - d.frame_count,
{
}

/// A GPU stall blocks the pipeline after exactly the frames in flight: from a
/// state with nothing outstanding, ending frames without any further GPU
/// signal leaves the first `frame_in_flight_count - 1` new frames ready, and
/// blocks the `frame_in_flight_count`-th.
pub proof fn lemma_gpu_stall_blocks(d: Device, i: int)
    requires
        d.wf(),
        d.gpu_frame_signaled == d.frame_sema.counter,
        d.frame_sema.counter + d.frame_count <= u64::MAX,
        1 <= i <= d.frame_count,
    ensures
        i < d.frame_count ==> spec_after_end_frames(d, i).frame_ready(),
        i == d.frame_count ==> !spec_after_end_frames(d, i).frame_ready(),
{
}

} // verus!
