use vstd::prelude::*;

verus! {

/// The graphics capability flag of a queue family.
pub const QUEUE_GRAPHICS: u32 = 1;

/// What a physical device reports about its queue families: the capability
/// flags of each family, and whether each family can present to the surface.
pub struct DeviceQueues {
    pub queue_flags: Vec<u32>,
    pub present_support: Vec<bool>,
}

/// The first family with the graphics capability.
pub open spec fn graphics_family(flags: Seq<u32>) -> Option<int> {
    if exists|i: int| 0 <= i < flags.len() && flags[i] & QUEUE_GRAPHICS == QUEUE_GRAPHICS {
        Some(
            choose|i: int|
                0 <= i < flags.len() && flags[i] & QUEUE_GRAPHICS == QUEUE_GRAPHICS && forall|j: int|
                    0 <= j < i ==> flags[j] & QUEUE_GRAPHICS != QUEUE_GRAPHICS,
        )
    } else {
        None
    }
}

/// The first family that can present.
pub open spec fn present_family(support: Seq<bool>) -> Option<int> {
    support.index_of_first(true)
}

/// The device has both a graphics family and a presenting family.
pub open spec fn device_suitable(d: DeviceQueues) -> bool {
    graphics_family(d.queue_flags@) is Some && present_family(d.present_support@) is Some
}

/// The first family of `flags` with the graphics capability.
fn first_graphics_family(flags: &Vec<u32>) -> (r: Option<usize>)
    ensures
        match r {
            Some(i) => i < flags@.len() && flags@[i as int] & QUEUE_GRAPHICS == QUEUE_GRAPHICS
                && forall|j: int| 0 <= j < i ==> flags@[j] & QUEUE_GRAPHICS != QUEUE_GRAPHICS,
            None => forall|j: int|
                0 <= j < flags@.len() ==> flags@[j] & QUEUE_GRAPHICS != QUEUE_GRAPHICS,
        },
        r matches Some(i) ==> graphics_family(flags@) == Some(i as int),
        r is None ==> graphics_family(flags@) is None,
{
    let mut i: usize = 0;
    while i < flags.len()
        invariant
            i <= flags@.len(),
            forall|j: int| 0 <= j < i ==> flags@[j] & QUEUE_GRAPHICS != QUEUE_GRAPHICS,
        decreases flags@.len() - i,
    {
        if flags[i] & QUEUE_GRAPHICS == QUEUE_GRAPHICS {
            proof {
                let c = choose|k: int|
                    0 <= k < flags@.len() && flags@[k] & QUEUE_GRAPHICS == QUEUE_GRAPHICS
                        && forall|j: int| 0 <= j < k ==> flags@[j] & QUEUE_GRAPHICS != QUEUE_GRAPHICS;
                assert(0 <= i < flags@.len() && flags@[i as int] & QUEUE_GRAPHICS == QUEUE_GRAPHICS
                    && forall|j: int| 0 <= j < i ==> flags@[j] & QUEUE_GRAPHICS != QUEUE_GRAPHICS);
                if c < i {
                } else if c > i {
                    assert(flags@[i as int] & QUEUE_GRAPHICS != QUEUE_GRAPHICS);
                }
            }
            return Some(i);
        }
        i = i + 1;
    }
    None
}

/// The first family in `support` that can present.
fn first_present_family(support: &Vec<bool>) -> (r: Option<usize>)
    ensures
        r matches Some(i) ==> present_family(support@) == Some(i as int),
        r is None ==> present_family(support@) is None,
{
    let mut i: usize = 0;
    while i < support.len()
        invariant
            i <= support@.len(),
            forall|j: int| 0 <= j < i ==> !support@[j],
        decreases support@.len() - i,
    {
        if support[i] {
            proof {
                support@.index_of_first_ensures(true);
            }
            return Some(i);
        }
        i = i + 1;
    }
    proof {
        support@.index_of_first_ensures(true);
    }
    None
}

/// Picks the first device that has a graphics family and a family that can
/// present, and returns the device's position with the first such family of
/// each kind.
pub fn select_queue_families(devices: &Vec<DeviceQueues>) -> (r: Option<(usize, u32, u32)>)
    requires
        forall|d: int|
            0 <= d < devices@.len() ==> #[trigger] devices@[d].queue_flags@.len() <= u32::MAX
                && devices@[d].present_support@.len() <= u32::MAX,
    ensures
        match r {
            Some((d, g, p)) => {
                &&& d < devices@.len()
                &&& graphics_family(devices@[d as int].queue_flags@) == Some(g as int)
                &&& present_family(devices@[d as int].present_support@) == Some(p as int)
                &&& forall|e: int| 0 <= e < d ==> !device_suitable(#[trigger] devices@[e])
            },
            None => forall|e: int| 0 <= e < devices@.len() ==> !device_suitable(#[trigger] devices@[e]),
        },
{
    let mut d: usize = 0;
    while d < devices.len()
        invariant
            d <= devices@.len(),
            forall|d2: int|
                0 <= d2 < devices@.len() ==> #[trigger] devices@[d2].queue_flags@.len() <= u32::MAX
                    && devices@[d2].present_support@.len() <= u32::MAX,
            forall|e: int| 0 <= e < d ==> !device_suitable(#[trigger] devices@[e]),
        decreases devices@.len() - d,
    {
        let device = &devices[d];
        let graphics = first_graphics_family(&device.queue_flags);
        let present = first_present_family(&device.present_support);
        if let (Some(g), Some(p)) = (graphics, present) {
            proof {
                devices@[d as int].present_support@.index_of_first_ensures(true);
            }
            return Some((d, g as u32, p as u32));
        }
        d = d + 1;
    }
    None
}

/// The layout of an image's texels in memory.
#[derive(Clone, Copy, PartialEq, Eq, Structural, Debug)]
pub enum ImageTiling {
    Linear,
    Optimal,
    /// A tiling given by a format modifier; no format is chosen for it.
    Other,
}

/// A format with the features that the device supports for it under each
/// tiling.
#[derive(Clone, Copy, PartialEq, Eq, Structural, Debug)]
pub struct FormatCandidate {
    pub format: i32,
    pub linear_tiling_features: u32,
    pub optimal_tiling_features: u32,
}

/// The depth-stencil attachment feature of a format.
pub const FORMAT_FEATURE_DEPTH_STENCIL_ATTACHMENT: u32 = 0x200;

/// The 32-bit float depth format.
pub const FORMAT_D32_SFLOAT: i32 = 126;

/// The 32-bit float depth format with an 8-bit stencil.
pub const FORMAT_D32_SFLOAT_S8_UINT: i32 = 130;

/// The 24-bit normalized depth format with an 8-bit stencil.
pub const FORMAT_D24_UNORM_S8_UINT: i32 = 129;

/// The 16-bit normalized depth format.
pub const FORMAT_D16_UNORM: i32 = 124;

/// The candidate supports every feature of `features` under `tiling`.
pub open spec fn format_supports(c: FormatCandidate, tiling: ImageTiling, features: u32) -> bool {
    match tiling {
        ImageTiling::Linear => c.linear_tiling_features & features == features,
        ImageTiling::Optimal => c.optimal_tiling_features & features == features,
        ImageTiling::Other => false,
    }
}

/// The first candidate format that supports every feature of `features` under
/// `tiling`.
pub fn get_supported_format(candidates: &[FormatCandidate], tiling: ImageTiling, features: u32) -> (r:
    Option<i32>)
    ensures
        match r {
            Some(f) => exists|i: int|
                0 <= i < candidates@.len() && #[trigger] candidates@[i].format == f && format_supports(
                    candidates@[i],
                    tiling,
                    features,
                ) && forall|j: int|
                    0 <= j < i ==> !format_supports(candidates@[j], tiling, features),
            None => forall|j: int|
                0 <= j < candidates@.len() ==> !format_supports(candidates@[j], tiling, features),
        },
{
    let mut i: usize = 0;
    while i < candidates.len()
        invariant
            i <= candidates@.len(),
            forall|j: int| 0 <= j < i ==> !format_supports(candidates@[j], tiling, features),
        decreases candidates@.len() - i,
    {
        let c = candidates[i];
        let supported = match tiling {
            ImageTiling::Linear => c.linear_tiling_features & features == features,
            ImageTiling::Optimal => c.optimal_tiling_features & features == features,
            ImageTiling::Other => false,
        };
        if supported {
            return Some(c.format);
        }
        i = i + 1;
    }
    None
}

/// The depth formats to try, in order of preference.
pub fn depth_format_candidates() -> (r: Vec<i32>)
    ensures
        r@ == seq![
            FORMAT_D32_SFLOAT,
            FORMAT_D32_SFLOAT_S8_UINT,
            FORMAT_D24_UNORM_S8_UINT,
            FORMAT_D16_UNORM,
        ],
{
    let mut v = Vec::new();
    v.push(FORMAT_D32_SFLOAT);
    v.push(FORMAT_D32_SFLOAT_S8_UINT);
    v.push(FORMAT_D24_UNORM_S8_UINT);
    v.push(FORMAT_D16_UNORM);
    v
}

/// The first depth format that supports depth-stencil attachment with
/// optimal tiling, given the candidates in the order of
/// [`depth_format_candidates`] with their features.
pub fn get_depth_format(candidates: &[FormatCandidate]) -> (r: Option<i32>)
    ensures
        match r {
            Some(f) => exists|i: int|
                0 <= i < candidates@.len() && #[trigger] candidates@[i].format == f && format_supports(
                    candidates@[i],
                    ImageTiling::Optimal,
                    FORMAT_FEATURE_DEPTH_STENCIL_ATTACHMENT,
                ) && forall|j: int|
                    0 <= j < i ==> !format_supports(
                        candidates@[j],
                        ImageTiling::Optimal,
                        FORMAT_FEATURE_DEPTH_STENCIL_ATTACHMENT,
                    ),
            None => forall|j: int|
                0 <= j < candidates@.len() ==> !format_supports(
                    candidates@[j],
                    ImageTiling::Optimal,
                    FORMAT_FEATURE_DEPTH_STENCIL_ATTACHMENT,
                ),
        },
{
    get_supported_format(candidates, ImageTiling::Optimal, FORMAT_FEATURE_DEPTH_STENCIL_ATTACHMENT)
}

/// Frames that may be recorded while earlier ones are still on the GPU.
pub const MAX_FRAMES_IN_FLIGHT: u8 = 2;

/// The frame slot that follows `frame`.
pub fn next_frame(frame: usize) -> (r: usize)
    requires
        frame < usize::MAX,
    ensures
        r == (frame + 1) % (MAX_FRAMES_IN_FLIGHT as int),
        r < MAX_FRAMES_IN_FLIGHT,
{
    (frame + 1) % (MAX_FRAMES_IN_FLIGHT as usize)
}

/// Descriptors of each kind, and sets, that a model's descriptor pool needs:
/// one per material and swapchain image.
pub fn descriptor_pool_size(material_count: u32, swapchain_count: u32) -> (r: u32)
    requires
        material_count * swapchain_count <= u32::MAX,
    ensures
        r == material_count * swapchain_count,
{
    material_count * swapchain_count
}

} // verus!
