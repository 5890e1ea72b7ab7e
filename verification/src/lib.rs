use vstd::prelude::*;

pub mod bindless;
pub mod command;
pub mod device;
pub mod gpu_resource;
pub mod physical_device;
pub mod pool;
pub mod swapchain;

verus! {

/// The error taxonomy of the renderer core.
///
/// Construction-time capability errors are fatal to device setup; per-frame
/// errors (exhaustion, invalid handles, a stale surface) are recoverable.
#[derive(Clone, Copy, PartialEq, Eq, Structural, Debug)]
pub enum GpuError {
    /// A required queue family or device feature is missing.
    CapabilityAbsence,
    /// A slot allocator or memory pool is out of room.
    Exhausted,
    /// A wait on a progress counter never completed: treated as device loss.
    SyncTimeout,
    /// The presentation surface no longer matches the window.
    Suboptimal,
    /// A lookup used a freed, null, or out-of-range handle.
    InvalidHandle,
}

} // verus!
