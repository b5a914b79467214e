use vstd::prelude::*;

verus! {

/// A width and a height in pixels.
#[derive(Clone, Copy, PartialEq, Eq, Structural, Debug)]
pub struct Extent2D {
    pub width: u32,
    pub height: u32,
}

/// What a surface supports, as the device reports it.
#[derive(Clone, Copy, PartialEq, Eq, Structural, Debug)]
pub struct SurfaceCapabilities {
    pub min_image_count: u32,
    /// Zero where the device sets no maximum.
    pub max_image_count: u32,
    /// `u32::MAX` in the width where the swapchain decides the extent.
    pub current_extent: Extent2D,
    pub min_image_extent: Extent2D,
    pub max_image_extent: Extent2D,
    pub supported_transforms: u32,
    pub current_transform: u32,
}

/// The settings chosen for a new swapchain.
#[derive(Clone, Copy, PartialEq, Eq, Structural, Debug)]
pub struct SwapchainPlan {
    pub image_count: u32,
    pub extent: Extent2D,
    pub pre_transform: u32,
    pub present_mode: i32,
}

/// The identity surface transform flag.
pub const SURFACE_TRANSFORM_IDENTITY: u32 = 1;

/// The mailbox present mode.
pub const PRESENT_MODE_MAILBOX: i32 = 1;

/// The first-in first-out present mode, which every device supports.
pub const PRESENT_MODE_FIFO: i32 = 2;

/// One image more than the minimum, but no more than the maximum where there
/// is one.
pub open spec fn image_count_spec(caps: SurfaceCapabilities) -> int {
    let desired = caps.min_image_count + 1;
    if caps.max_image_count > 0 && desired > caps.max_image_count {
        caps.max_image_count as int
    } else {
        desired
    }
}

/// `v` limited to the range from `lo` to `hi`.
pub open spec fn clamp_spec(v: u32, lo: u32, hi: u32) -> u32 {
    if v < lo {
        lo
    } else if v > hi {
        hi
    } else {
        v
    }
}

/// The surface's current extent, or where the swapchain decides it, the
/// window's size limited to the supported extents.
pub open spec fn extent_spec(caps: SurfaceCapabilities, window: Extent2D) -> Extent2D {
    if caps.current_extent.width == u32::MAX {
        Extent2D {
            width: clamp_spec(window.width, caps.min_image_extent.width, caps.max_image_extent.width),
            height: clamp_spec(
                window.height,
                caps.min_image_extent.height,
                caps.max_image_extent.height,
            ),
        }
    } else {
        caps.current_extent
    }
}

/// The identity transform where supported, otherwise the current one.
pub open spec fn pre_transform_spec(caps: SurfaceCapabilities) -> u32 {
    if caps.supported_transforms & SURFACE_TRANSFORM_IDENTITY == SURFACE_TRANSFORM_IDENTITY {
        SURFACE_TRANSFORM_IDENTITY
    } else {
        caps.current_transform
    }
}

/// Mailbox where the surface offers it, first-in first-out otherwise.
pub open spec fn present_mode_spec(modes: Seq<i32>) -> i32 {
    if modes.contains(PRESENT_MODE_MAILBOX) {
        PRESENT_MODE_MAILBOX
    } else {
        PRESENT_MODE_FIFO
    }
}

/// The capabilities can be planned for: one more image than the minimum is
/// representable, and where the swapchain decides the extent, each minimum
/// extent is at most the maximum.
pub open spec fn plannable(caps: SurfaceCapabilities) -> bool {
    &&& caps.min_image_count < u32::MAX
    &&& caps.current_extent.width == u32::MAX ==> {
        &&& caps.min_image_extent.width <= caps.max_image_extent.width
        &&& caps.min_image_extent.height <= caps.max_image_extent.height
    }
}

fn choose_present_mode(modes: &[i32]) -> (r: i32)
    ensures
        r == present_mode_spec(modes@),
{
    let mut i: usize = 0;
    while i < modes.len()
        invariant
            i <= modes@.len(),
            forall|j: int| 0 <= j < i ==> modes@[j] != PRESENT_MODE_MAILBOX,
        decreases modes@.len() - i,
    {
        if modes[i] == PRESENT_MODE_MAILBOX {
            return PRESENT_MODE_MAILBOX;
        }
        i = i + 1;
    }
    PRESENT_MODE_FIFO
}

fn clamp(v: u32, lo: u32, hi: u32) -> (r: u32)
    requires
        lo <= hi,
    ensures
        r == clamp_spec(v, lo, hi),
{
    if v < lo {
        lo
    } else if v > hi {
        hi
    } else {
        v
    }
}

/// Chooses the image count, extent, transform and present mode of a new
/// swapchain for a surface with capabilities `caps`, a window of size
/// `window`, and the present modes `present_modes` that the surface offers.
pub fn plan_swapchain(caps: &SurfaceCapabilities, window: Extent2D, present_modes: &[i32]) -> (r:
    SwapchainPlan)
    requires
        plannable(*caps),
    ensures
        r.image_count == image_count_spec(*caps),
        r.extent == extent_spec(*caps, window),
        r.pre_transform == pre_transform_spec(*caps),
        r.present_mode == present_mode_spec(present_modes@),
{
    let mut desired_image_count = caps.min_image_count + 1;
    if caps.max_image_count > 0 && desired_image_count > caps.max_image_count {
        desired_image_count = caps.max_image_count;
    }
    let extent = if caps.current_extent.width == u32::MAX {
        Extent2D {
            width: clamp(window.width, caps.min_image_extent.width, caps.max_image_extent.width),
            height: clamp(window.height, caps.min_image_extent.height, caps.max_image_extent.height),
        }
    } else {
        caps.current_extent
    };
    let pre_transform = if caps.supported_transforms & SURFACE_TRANSFORM_IDENTITY
        == SURFACE_TRANSFORM_IDENTITY {
        SURFACE_TRANSFORM_IDENTITY
    } else {
        caps.current_transform
    };
    let present_mode = choose_present_mode(present_modes);
    SwapchainPlan { image_count: desired_image_count, extent, pre_transform, present_mode }
}

/// Mailbox is planned exactly when the surface offers it, wherever it
/// stands among the offered modes; otherwise first-in first-out. So the plan
/// does not depend on the order in which the modes are listed.
pub proof fn lemma_present_mode_prefers_mailbox(modes: Seq<i32>, others: Seq<i32>)
    ensures
        modes.contains(PRESENT_MODE_MAILBOX) ==> present_mode_spec(modes) == PRESENT_MODE_MAILBOX,
        !modes.contains(PRESENT_MODE_MAILBOX) ==> present_mode_spec(modes) == PRESENT_MODE_FIFO,
        present_mode_spec(modes + others) == present_mode_spec(others + modes),
        (modes + others).contains(PRESENT_MODE_MAILBOX) ==> present_mode_spec(modes + others)
            == PRESENT_MODE_MAILBOX,
{
    let a = modes + others;
    let b = others + modes;
    assert(a.contains(PRESENT_MODE_MAILBOX) <==> b.contains(PRESENT_MODE_MAILBOX)) by {
        if a.contains(PRESENT_MODE_MAILBOX) {
            let i = choose|i: int| 0 <= i < a.len() && a[i] == PRESENT_MODE_MAILBOX;
            if i < modes.len() {
                assert(b[others.len() + i] == PRESENT_MODE_MAILBOX);
            } else {
                assert(b[i - modes.len()] == PRESENT_MODE_MAILBOX);
            }
        }
        if b.contains(PRESENT_MODE_MAILBOX) {
            let i = choose|i: int| 0 <= i < b.len() && b[i] == PRESENT_MODE_MAILBOX;
            if i < others.len() {
                assert(a[modes.len() + i] == PRESENT_MODE_MAILBOX);
            } else {
                assert(a[i - others.len()] == PRESENT_MODE_MAILBOX);
            }
        }
    }
}

} // verus!
