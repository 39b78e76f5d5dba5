//! The device context: what the painter asks of the instance and the device,
//! which device and queue family it picks, and the formats it settles on.

use vstd::prelude::*;
use crate::vulkan;

verus! {

/// The platform that the window system belongs to.
#[derive(Debug, Clone, Copy, PartialEq, Eq, Structural)]
pub enum Platform {
    Windows,
    Linux,
    MacOs,
    Android,
    Other,
}

/// The instance layers to enable: the validation layer where validation is asked
/// for, and no other.
pub open spec fn spec_instance_layers(validation: bool) -> Seq<&'static str> {
    if validation {
        seq!["VK_LAYER_KHRONOS_validation"]
    } else {
        seq![]
    }
}

/// The instance extensions to enable: debug utilities where validation is asked
/// for, the surface extensions, and those of the platform's window system.
pub open spec fn spec_instance_extensions(validation: bool, platform: Platform) -> Seq<
    &'static str,
> {
    let debug: Seq<&'static str> = if validation {
        seq!["VK_EXT_debug_utils"]
    } else {
        seq![]
    };
    let common: Seq<&'static str> = seq![
        "VK_KHR_get_physical_device_properties2",
        "VK_KHR_surface",
    ];
    let native: Seq<&'static str> = match platform {
        Platform::Windows => seq!["VK_KHR_win32_surface"],
        Platform::Linux => seq!["VK_KHR_xlib_surface", "VK_KHR_wayland_surface"],
        Platform::MacOs => seq!["VK_KHR_portability_enumeration", "VK_EXT_metal_surface"],
        Platform::Android => seq!["VK_KHR_android_surface"],
        Platform::Other => seq![],
    };
    debug + common + native
}

/// The device extensions to enable.
pub open spec fn spec_device_extensions(platform: Platform) -> Seq<&'static str> {
    let common: Seq<&'static str> = seq![
        "VK_KHR_swapchain",
        "VK_EXT_descriptor_indexing",
        "VK_KHR_dynamic_rendering",
    ];
    match platform {
        Platform::MacOs => common.push("VK_KHR_portability_subset"),
        _ => common,
    }
}

pub fn get_instance_layers(validation: bool) -> (layers: Vec<&'static str>)
    ensures
        layers@ == spec_instance_layers(validation),
{
    let mut layers: Vec<&'static str> = Vec::new();
    if validation {
        layers.push("VK_LAYER_KHRONOS_validation");
    }
    assert(layers@ =~= spec_instance_layers(validation));
    layers
}

pub fn get_instance_extensions(validation: bool, platform: Platform) -> (extensions: Vec<
    &'static str,
>)
    ensures
        extensions@ == spec_instance_extensions(validation, platform),
{
    let mut extensions: Vec<&'static str> = Vec::new();
    if validation {
        extensions.push("VK_EXT_debug_utils");
    }
    extensions.push("VK_KHR_get_physical_device_properties2");
    extensions.push("VK_KHR_surface");
    match platform {
        Platform::Windows => {
            extensions.push("VK_KHR_win32_surface");
        },
        Platform::Linux => {
            extensions.push("VK_KHR_xlib_surface");
            extensions.push("VK_KHR_wayland_surface");
        },
        Platform::MacOs => {
            extensions.push("VK_KHR_portability_enumeration");
            extensions.push("VK_EXT_metal_surface");
        },
        Platform::Android => {
            extensions.push("VK_KHR_android_surface");
        },
        Platform::Other => {},
    }
    assert(extensions@ =~= spec_instance_extensions(validation, platform));
    extensions
}

pub fn get_device_extensions(platform: Platform) -> (extensions: Vec<&'static str>)
    ensures
        extensions@ == spec_device_extensions(platform),
{
    let mut extensions: Vec<&'static str> = Vec::new();
    extensions.push("VK_KHR_swapchain");
    extensions.push("VK_EXT_descriptor_indexing");
    extensions.push("VK_KHR_dynamic_rendering");
    match platform {
        Platform::MacOs => {
            extensions.push("VK_KHR_portability_subset");
        },
        _ => {},
    }
    assert(extensions@ =~= spec_device_extensions(platform));
    extensions
}

/// The kinds of image format that the context settles on at start-up.
#[derive(Debug, Clone, Copy, PartialEq, Eq, Hash, Structural)]
pub enum ImageFormatType {
    Rgba8Unorm,
    DepthStencilOptimal,
}

impl ImageFormatType {
    /// The number of kinds.
    pub const COUNT: usize = 2;

    /// The place of the kind's format in the context's table of formats.
    pub open spec fn spec_index(self) -> usize {
        match self {
            ImageFormatType::Rgba8Unorm => 0,
            ImageFormatType::DepthStencilOptimal => 1,
        }
    }

    pub fn index(&self) -> (place: usize)
        ensures
            place == self.spec_index(),
            place < 2,
    {
        match self {
            ImageFormatType::Rgba8Unorm => 0,
            ImageFormatType::DepthStencilOptimal => 1,
        }
    }

    /// The kind's name, as it reads in messages.
    pub fn name(&self) -> (name: &'static str)
        ensures
            name == (match *self {
                ImageFormatType::Rgba8Unorm => "Rgba8Unorm",
                ImageFormatType::DepthStencilOptimal => "DepthStencilOptimal",
            }),
    {
        match self {
            ImageFormatType::Rgba8Unorm => "Rgba8Unorm",
            ImageFormatType::DepthStencilOptimal => "DepthStencilOptimal",
        }
    }
}

/// A handle that its owner has given up, for the context to destroy once the
/// device is done with it.
#[derive(Debug, Clone, Copy, PartialEq, Eq, Structural)]
pub enum PainterDelete {
    CommandPool(u64),
    ImageView(u64),
    Image(u64),
    Buffer(u64),
    Fence(u64),
    Semaphore(u64),
}

/// Why the device context could not be set up.
#[derive(Debug, Clone, PartialEq, Eq)]
pub enum PainterError {
    /// The Vulkan library could not be loaded.
    VkLoadError(String),
    VkInstanceError(i32),
    GetRawDisplayHandleError(String),
    GetRawWindowHandleError(String),
    SurfaceCreationError(i32),
    GetGpusError(i32),
    NoSupportedGpu,
    LogicalDeviceCreateError(i32),
    NoSuitableImageFormat(ImageFormatType),
    UnableToCreateAllocator(crate::allocator::AllocationError),
}

/// What the device says of one of its queue families, and whether the family can
/// present to the surface.
#[derive(Debug, Clone, Copy, PartialEq, Eq, Structural)]
pub struct QueueFamilyInfo {
    pub queue_flags: u32,
    pub queue_count: u32,
    pub supports_present: bool,
}

impl QueueFamilyInfo {
    /// Whether the family both draws and presents.
    pub open spec fn usable(self) -> bool {
        self.queue_flags & vulkan::QUEUE_GRAPHICS == vulkan::QUEUE_GRAPHICS
            && self.supports_present
    }
}

/// A device that can draw to the surface, with the queue family to use on it.
#[derive(Debug, Clone, Copy, PartialEq, Eq, Structural)]
pub struct GpuCandidate {
    pub physical_device: u64,
    pub queue_family_index: u32,
    pub device_type: i32,
}

impl GpuCandidate {
    /// Whether the device is a discrete GPU.
    pub open spec fn dedicated(self) -> bool {
        self.device_type == vulkan::PHYSICAL_DEVICE_TYPE_DISCRETE_GPU
    }
}

/// Whether the candidate at `place` is the one to use: it is a discrete GPU if any
/// candidate is, and it is the last of its kind: the last discrete GPU, or the
/// last candidate where none is discrete.
pub open spec fn favoured_gpu(candidates: Seq<GpuCandidate>, place: int) -> bool {
    &&& 0 <= place < candidates.len()
    &&& forall|j: int|
        place < j < candidates.len() ==> !(#[trigger] candidates[j]).dedicated()
            && candidates[place].dedicated()
    &&& forall|j: int|
        0 <= j < candidates.len() && (#[trigger] candidates[j]).dedicated()
            ==> candidates[place].dedicated()
}

/// The depth formats that the context tries, most wanted first.
pub open spec fn depth_format_preference() -> Seq<i32> {
    seq![
        vulkan::FORMAT_D24_UNORM_S8_UINT,
        vulkan::FORMAT_D32_SFLOAT,
        vulkan::FORMAT_D32_SFLOAT_S8_UINT,
        vulkan::FORMAT_D16_UNORM,
    ]
}

/// Whether a format with the given optimal-tiling features serves as a depth
/// attachment.
pub open spec fn serves_as_depth(optimal_tiling_features: u32) -> bool {
    optimal_tiling_features & vulkan::FORMAT_FEATURE_DEPTH_STENCIL_ATTACHMENT
        == vulkan::FORMAT_FEATURE_DEPTH_STENCIL_ATTACHMENT
}

/// The first of the preferred depth formats that serves as a depth attachment,
/// given the device's optimal-tiling features for each preferred format, in the
/// order of the preference list.
pub open spec fn spec_find_depth_format(optimal_tiling_features: [u32; 4]) -> Option<i32> {
    if serves_as_depth(optimal_tiling_features[0]) {
        Some(vulkan::FORMAT_D24_UNORM_S8_UINT)
    } else if serves_as_depth(optimal_tiling_features[1]) {
        Some(vulkan::FORMAT_D32_SFLOAT)
    } else if serves_as_depth(optimal_tiling_features[2]) {
        Some(vulkan::FORMAT_D32_SFLOAT_S8_UINT)
    } else if serves_as_depth(optimal_tiling_features[3]) {
        Some(vulkan::FORMAT_D16_UNORM)
    } else {
        None
    }
}

/// Whether the family at `place` is the one to use: it draws and presents, no
/// family that does has more queues, and none after it has as many.
pub open spec fn best_queue_family(families: Seq<QueueFamilyInfo>, place: int) -> bool {
    &&& 0 <= place < families.len()
    &&& families[place].usable()
    &&& forall|j: int|
        0 <= j < families.len() && (#[trigger] families[j]).usable() ==> families[j].queue_count
            <= families[place].queue_count
    &&& forall|j: int|
        place < j < families.len() && (#[trigger] families[j]).usable() ==> families[j].queue_count
            < families[place].queue_count
}

/// The depth formats that the context tries, most wanted first.
pub fn depth_format_preference_list() -> (formats: [i32; 4])
    ensures
        formats@ == depth_format_preference(),
{
    let formats = [
        vulkan::FORMAT_D24_UNORM_S8_UINT,
        vulkan::FORMAT_D32_SFLOAT,
        vulkan::FORMAT_D32_SFLOAT_S8_UINT,
        vulkan::FORMAT_D16_UNORM,
    ];
    assert(formats@ =~= depth_format_preference());
    formats
}

/// The first of the preferred depth formats that the device can use as a depth
/// attachment. `optimal_tiling_features` holds the device's features for each
/// preferred format, in the order of the preference list.
pub fn find_depth_format(optimal_tiling_features: &[u32; 4]) -> (found: Option<i32>)
    ensures
        found == spec_find_depth_format(*optimal_tiling_features),
{
    let formats = depth_format_preference_list();
    let mut i: usize = 0;
    while i < 4
        invariant
            i <= 4,
            formats@ == depth_format_preference(),
            forall|j: int| 0 <= j < i ==> !serves_as_depth(optimal_tiling_features[j]),
        decreases 4 - i,
    {
        if optimal_tiling_features[i] & vulkan::FORMAT_FEATURE_DEPTH_STENCIL_ATTACHMENT
            == vulkan::FORMAT_FEATURE_DEPTH_STENCIL_ATTACHMENT {
            return Some(formats[i]);
        }
        i += 1;
    }
    None
}

/// The device context: the handles of the instance, the surface, the device and
/// its queue, and the formats that the device was found to support.
#[derive(Debug, Clone, Copy, PartialEq, Eq)]
pub struct Painter {
    pub image_formats: [i32; 2],
    pub graphics_queue: u64,
    pub graphics_queue_family_index: u32,
    pub device: u64,
    pub physical_device: u64,
    pub surface: u64,
    pub instance: u64,
}

impl Painter {
    /// The queue family to use on a device: among the families that both draw
    /// and present, one with the most queues, and of those the last. `None` if
    /// no family both draws and presents. The device numbers families with 32
    /// bits.
    pub fn select_gpu_queue(queue_families: &[QueueFamilyInfo]) -> (selected: Option<u32>)
        ensures
            selected is None <==> forall|i: int|
                0 <= i < queue_families@.len() ==> !(#[trigger] queue_families@[i]).usable(),
            selected is Some ==> exists|i: int|
                #[trigger] best_queue_family(queue_families@, i) && selected->0 == i as u32,
    {
        let mut best: Option<usize> = None;
        let mut i: usize = 0;
        while i < queue_families.len()
            invariant
                i <= queue_families.len(),
                best is None <==> forall|k: int|
                    0 <= k < i ==> !(#[trigger] queue_families@[k]).usable(),
                best is Some ==> best_queue_family(queue_families@.take(i as int), best->0 as int),
            decreases queue_families.len() - i,
        {
            let family = &queue_families[i];
            let usable = family.queue_flags & vulkan::QUEUE_GRAPHICS == vulkan::QUEUE_GRAPHICS
                && family.supports_present;
            if usable {
                let better = match best {
                    None => true,
                    Some(b) => queue_families[b].queue_count <= family.queue_count,
                };
                if better {
                    best = Some(i);
                }
            }
            i += 1;
        }
        assert(queue_families@.take(i as int) =~= queue_families@);
        match best {
            None => None,
            Some(b) => Some(#[verifier::truncate] (b as u32)),
        }
    }

    /// The device to use: a discrete GPU if there is one, and of the devices of
    /// the favoured kind the last.
    pub fn select_gpu(candidates: &[GpuCandidate]) -> (selected: Result<GpuCandidate, PainterError>)
        ensures
            candidates@.len() == 0 <==> selected == Err::<GpuCandidate, PainterError>(
                PainterError::NoSupportedGpu,
            ),
            candidates@.len() > 0 ==> selected is Ok && exists|i: int|
                #[trigger] favoured_gpu(candidates@, i) && selected->Ok_0 == candidates@[i],
    {
        if candidates.len() == 0 {
            return Err(PainterError::NoSupportedGpu);
        }
        let mut best: usize = 0;
        let mut i: usize = 1;
        while i < candidates.len()
            invariant
                1 <= i <= candidates.len(),
                best < i,
                favoured_gpu(candidates@.take(i as int), best as int),
            decreases candidates.len() - i,
        {
            let dedicated = candidates[i].device_type == vulkan::PHYSICAL_DEVICE_TYPE_DISCRETE_GPU;
            let best_dedicated = candidates[best].device_type
                == vulkan::PHYSICAL_DEVICE_TYPE_DISCRETE_GPU;
            if dedicated || !best_dedicated {
                best = i;
            }
            i += 1;
        }
        assert(candidates@.take(i as int) =~= candidates@);
        Ok(candidates[best])
    }

    /// The context for a device that was created: its formats are RGBA8 for colour
    /// and the first preferred depth format that the device supports. Without such
    /// a depth format there is no context.
    pub fn new(
        instance: u64,
        surface: u64,
        gpu: GpuCandidate,
        device: u64,
        graphics_queue: u64,
        depth_features: &[u32; 4],
    ) -> (painter: Result<Painter, PainterError>)
        ensures
            painter == (match spec_find_depth_format(*depth_features) {
                Some(depth_format) => Ok::<Painter, PainterError>(
                    Painter {
                        image_formats: [vulkan::FORMAT_R8G8B8A8_UNORM, depth_format],
                        graphics_queue,
                        graphics_queue_family_index: gpu.queue_family_index,
                        device,
                        physical_device: gpu.physical_device,
                        surface,
                        instance,
                    },
                ),
                None => Err(
                    PainterError::NoSuitableImageFormat(ImageFormatType::DepthStencilOptimal),
                ),
            }),
    {
        match find_depth_format(depth_features) {
            None => Err(
                PainterError::NoSuitableImageFormat(ImageFormatType::DepthStencilOptimal),
            ),
            Some(depth_format) => Ok(
                Painter {
                    image_formats: [vulkan::FORMAT_R8G8B8A8_UNORM, depth_format],
                    graphics_queue,
                    graphics_queue_family_index: gpu.queue_family_index,
                    device,
                    physical_device: gpu.physical_device,
                    surface,
                    instance,
                },
            ),
        }
    }
}

} // verus!
