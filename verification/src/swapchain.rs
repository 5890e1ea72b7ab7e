//! Swap surface negotiation and the presentable-image rotation.
//!
//! Configuring the swap chain is a pure decision over what the surface
//! provider negotiated: how many images to rotate, which surface format and
//! present mode to pick, the image extent, and the pre-transform. Creating
//! the driver object is the surrounding layer's work; each frame slot is
//! paired with one binary acquire counter and one binary present counter.

use vstd::prelude::*;
use crate::command::Semaphore;

verus! {

/// Raw format code of the preferred surface format.
pub const FORMAT_R8G8B8A8_SRGB: i32 = 43;

/// Raw format code of the fallback surface format.
pub const FORMAT_B8G8R8A8_UNORM: i32 = 44;

/// Raw color-space code paired with the fallback format.
pub const COLOR_SPACE_SRGB_NONLINEAR: i32 = 0;

/// Raw present-mode code of immediate presentation, the fallback.
pub const PRESENT_MODE_IMMEDIATE: i32 = 0;

/// Raw present-mode code of mailbox presentation, preferred when offered.
pub const PRESENT_MODE_MAILBOX: i32 = 1;

/// Bit of the identity transform in the surface's supported-transform mask.
pub const TRANSFORM_IDENTITY: u32 = 1;

/// The special extent width by which a surface reports that the window's own
/// size decides the image extent.
pub const EXTENT_UNDETERMINED: u32 = 0xffff_ffff;

/// What the surface provider negotiated: the capabilities the configuration
/// reads, the offered formats as (format, color space) pairs, and the offered
/// present modes.
pub struct Surface {
    pub max_image_count: u32,
    pub current_width: u32,
    pub current_height: u32,
    pub supported_transforms: u32,
    pub current_transform: u32,
    pub formats: Vec<(i32, i32)>,
    pub present_modes: Vec<i32>,
    /// Raw driver identifier; opaque to this library.
    pub handle: u64,
}

/// The settled swap chain configuration.
#[derive(Clone, Copy, PartialEq, Eq, Structural, Debug)]
pub struct SwapchainConfig {
    pub image_count: u32,
    pub format: i32,
    pub color_space: i32,
    pub width: u32,
    pub height: u32,
    pub pre_transform: u32,
    pub present_mode: i32,
}

/// The first offered (format, color space) pair whose format is the preferred
/// one, if any is offered.
pub open spec fn chosen_format(formats: Seq<(i32, i32)>) -> Option<(i32, i32)>
    decreases formats.len(),
{
    if formats.len() == 0 {
        None
    } else if formats[0].0 == FORMAT_R8G8B8A8_SRGB {
        Some(formats[0])
    } else {
        chosen_format(formats.drop_first())
    }
}

/// What the format choice means: the offered pair at the least position
/// whose format is preferred, and none exactly when no offered pair has the
/// preferred format.
pub proof fn lemma_chosen_format_characterization(formats: Seq<(i32, i32)>)
    ensures
        chosen_format(formats) is Some ==> exists|j: int|
            {
                &&& 0 <= j < formats.len()
                &&& (#[trigger] formats[j]).0 == FORMAT_R8G8B8A8_SRGB
                &&& chosen_format(formats) == Some(formats[j])
                &&& forall|k: int| 0 <= k < j ==> (#[trigger] formats[k]).0 != FORMAT_R8G8B8A8_SRGB
            },
        chosen_format(formats) is None <==> forall|j: int|
            0 <= j < formats.len() ==> (#[trigger] formats[j]).0 != FORMAT_R8G8B8A8_SRGB,
    decreases formats.len(),
{
    if formats.len() == 0 {
    } else if formats[0].0 == FORMAT_R8G8B8A8_SRGB {
        assert(chosen_format(formats) == Some(formats[0]));
    } else {
        let t = formats.drop_first();
        lemma_chosen_format_characterization(t);
        assert forall|j: int| 0 <= j < t.len() implies t[j] == formats[j + 1] by {}
        if chosen_format(formats) is Some {
            let j = choose|j: int|
                {
                    &&& 0 <= j < t.len()
                    &&& (#[trigger] t[j]).0 == FORMAT_R8G8B8A8_SRGB
                    &&& chosen_format(t) == Some(t[j])
                    &&& forall|k: int| 0 <= k < j ==> (#[trigger] t[k]).0 != FORMAT_R8G8B8A8_SRGB
                };
            assert(formats[j + 1].0 == FORMAT_R8G8B8A8_SRGB);
            assert(chosen_format(formats) == Some(formats[j + 1]));
            assert forall|k: int| 0 <= k < j + 1 implies (#[trigger] formats[k]).0
                != FORMAT_R8G8B8A8_SRGB by {
                if k > 0 {
                    assert(formats[k] == t[k - 1]);
                }
            }
        } else {
            assert forall|j: int| 0 <= j < formats.len() implies (#[trigger] formats[j]).0
                != FORMAT_R8G8B8A8_SRGB by {
                if j > 0 {
                    assert(formats[j] == t[j - 1]);
                }
            }
        }
    }
}

/// Some offered present mode is the preferred mailbox mode.
pub open spec fn offers_mailbox(modes: Seq<i32>) -> bool {
    exists|i: int| 0 <= i < modes.len() && modes[i] == PRESENT_MODE_MAILBOX
}

/// The configuration the negotiation settles to.
///
/// The rotation holds `frame_count` images, clamped by the surface's maximum;
/// the format is the first offered preferred pair, else the fallback format
/// with the nonlinear color space; the extent is the surface's current extent
/// unless the surface leaves it to the window; the pre-transform is identity
/// when supported, else the surface's current transform; the present mode is
/// mailbox when offered, else immediate.
pub open spec fn spec_swapchain_config(
    frame_count: u32,
    surface: Surface,
    window_width: u32,
    window_height: u32,
) -> SwapchainConfig {
    SwapchainConfig {
        image_count: if frame_count <= surface.max_image_count {
            frame_count
        } else {
            surface.max_image_count
        },
        format: match chosen_format(surface.formats@) {
            Some(f) => f.0,
            None => FORMAT_B8G8R8A8_UNORM,
        },
        color_space: match chosen_format(surface.formats@) {
            Some(f) => f.1,
            None => COLOR_SPACE_SRGB_NONLINEAR,
        },
        width: if surface.current_width == EXTENT_UNDETERMINED {
            window_width
        } else {
            surface.current_width
        },
        height: if surface.current_width == EXTENT_UNDETERMINED {
            window_height
        } else {
            surface.current_height
        },
        pre_transform: if surface.supported_transforms & TRANSFORM_IDENTITY != 0 {
            TRANSFORM_IDENTITY
        } else {
            surface.current_transform
        },
        present_mode: if offers_mailbox(surface.present_modes@) {
            PRESENT_MODE_MAILBOX
        } else {
            PRESENT_MODE_IMMEDIATE
        },
    }
}

/// Settle the swap chain configuration from what the surface provider
/// negotiated and the window's size.
pub fn swapchain_config(
    frame_count: u32,
    surface: &Surface,
    window_width: u32,
    window_height: u32,
) -> (r: SwapchainConfig)
    ensures
        r == spec_swapchain_config(frame_count, *surface, window_width, window_height),
{
    let image_count = if frame_count <= surface.max_image_count {
        frame_count
    } else {
        surface.max_image_count
    };

    let mut format = FORMAT_B8G8R8A8_UNORM;
    let mut color_space = COLOR_SPACE_SRGB_NONLINEAR;
    let n = surface.formats.len();
    let mut i: usize = 0;
    let mut found = false;
    proof {
        assert(surface.formats@.skip(0) =~= surface.formats@);
    }
    while i < n && !found
        invariant
            i <= n,
            n == surface.formats@.len(),
            !found ==> chosen_format(surface.formats@) == chosen_format(
                surface.formats@.skip(i as int),
            ),
            found ==> {
                &&& chosen_format(surface.formats@) matches Some(f)
                &&& format == f.0
                &&& color_space == f.1
            },
            !found ==> format == FORMAT_B8G8R8A8_UNORM && color_space
                == COLOR_SPACE_SRGB_NONLINEAR,
        decreases n - i + (if found { 0int } else { 1int }),
    {
        let (f, cs) = surface.formats[i];
        proof {
            assert(surface.formats@.skip(i as int)[0] == surface.formats@[i as int]);
            assert(surface.formats@.skip(i as int).drop_first() =~= surface.formats@.skip(i + 1));
        }
        if f == FORMAT_R8G8B8A8_SRGB {
            format = f;
            color_space = cs;
            found = true;
        } else {
            i = i + 1;
        }
    }
    proof {
        if !found {
            assert(surface.formats@.skip(n as int) =~= Seq::<(i32, i32)>::empty());
        }
    }

    let (width, height) = if surface.current_width == EXTENT_UNDETERMINED {
        (window_width, window_height)
    } else {
        (surface.current_width, surface.current_height)
    };

    let pre_transform = if surface.supported_transforms & TRANSFORM_IDENTITY != 0 {
        TRANSFORM_IDENTITY
    } else {
        surface.current_transform
    };

    let m = surface.present_modes.len();
    let mut k: usize = 0;
    let mut mailbox = false;
    while k < m && !mailbox
        invariant
            k <= m,
            m == surface.present_modes@.len(),
            mailbox ==> offers_mailbox(surface.present_modes@),
            !mailbox ==> forall|q: int|
                0 <= q < k ==> surface.present_modes@[q] != PRESENT_MODE_MAILBOX,
        decreases m - k + (if mailbox { 0int } else { 1int }),
    {
        if surface.present_modes[k] == PRESENT_MODE_MAILBOX {
            mailbox = true;
        } else {
            k = k + 1;
        }
    }
    let present_mode = if mailbox {
        PRESENT_MODE_MAILBOX
    } else {
        PRESENT_MODE_IMMEDIATE
    };

    SwapchainConfig { image_count, format, color_space, width, height, pre_transform, present_mode }
}

/// The rotation of presentable images: the settled configuration plus one
/// acquire counter and one present counter per frame slot.
pub struct SwapChain {
    pub config: SwapchainConfig,
    pub acquire_semas: Vec<Semaphore>,
    pub present_semas: Vec<Semaphore>,
    /// Raw driver identifier; opaque to this library.
    pub handle: u64,
}

impl SwapChain {
    /// One acquire and one present counter per frame slot.
    pub open spec fn wf(self, frame_count: u32) -> bool {
        &&& self.acquire_semas@.len() == frame_count
        &&& self.present_semas@.len() == frame_count
    }

    /// A swap chain over `frame_count` frame slots, every counter fresh.
    ///
    /// The driver identifiers of the chain and of its binary primitives start
    /// null; the surrounding layer fills them in.
    pub fn new(config: SwapchainConfig, frame_count: u32) -> (r: SwapChain)
        ensures
            r.wf(frame_count),
            r.config == config,
            forall|q: int|
                0 <= q < frame_count ==> (#[trigger] r.acquire_semas@[q]) == (Semaphore {
                    counter: 0,
                    handle: 0,
                }),
            forall|q: int|
                0 <= q < frame_count ==> (#[trigger] r.present_semas@[q]) == (Semaphore {
                    counter: 0,
                    handle: 0,
                }),
    {
        let acquire_semas = fresh_semas(frame_count);
        let present_semas = fresh_semas(frame_count);
        SwapChain { config, acquire_semas, present_semas, handle: 0 }
    }

    /// The acquire and present counters paired with a frame slot.
    pub fn frame_semas(&self, frame_counter: u64) -> (r: (&Semaphore, &Semaphore))
        requires
            frame_counter < self.acquire_semas@.len(),
            frame_counter < self.present_semas@.len(),
        ensures
            *r.0 == self.acquire_semas@[frame_counter as int],
            *r.1 == self.present_semas@[frame_counter as int],
    {
        let n = self.acquire_semas.len();
        let idx = frame_counter as usize;
        (&self.acquire_semas[idx], &self.present_semas[idx])
    }
}

/// A vector of `n` fresh counters.
fn fresh_semas(n: u32) -> (r: Vec<Semaphore>)
    ensures
        r@.len() == n,
        forall|q: int|
            0 <= q < n ==> (#[trigger] r@[q]) == (Semaphore { counter: 0, handle: 0 }),
{
    let mut r: Vec<Semaphore> = Vec::new();
    let mut k: u32 = 0;
    while k < n
        invariant
            k <= n,
            r@.len() == k,
            forall|q: int|
                0 <= q < k ==> (#[trigger] r@[q]) == (Semaphore { counter: 0, handle: 0 }),
        decreases n - k,
    {
        r.push(Semaphore { counter: 0, handle: 0 });
        k = k + 1;
    }
    r
}

} // verus!
