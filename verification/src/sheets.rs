//! The presentation surface manager: the rotating set of images that are shown on
//! the surface, how it is set up from what the surface offers, and how acquiring
//! an image recovers from a surface that has gone stale.

use vstd::prelude::*;
use crate::command::GpuCommand;
use crate::image::{Image2d, ImageAccess};
use crate::recorder::RecordError;
use crate::vulkan;
use crate::vulkan::Extent2D;

verus! {

/// A format and colour space that the surface can show (`VkSurfaceFormatKHR`).
#[derive(Debug, Clone, Copy, PartialEq, Eq, Structural)]
pub struct SurfaceFormat {
    pub format: i32,
    pub color_space: i32,
}

/// A surface format, with the device's optimal-tiling features for the format.
#[derive(Debug, Clone, Copy, PartialEq, Eq, Structural)]
pub struct SurfaceFormatInfo {
    pub surface_format: SurfaceFormat,
    pub optimal_tiling_features: u32,
}

/// What the surface can do at the moment (`VkSurfaceCapabilitiesKHR`).
#[derive(Debug, Clone, Copy, PartialEq, Eq, Structural)]
pub struct SurfaceCapabilities {
    pub min_image_count: u32,
    pub max_image_count: u32,
    pub current_extent: Extent2D,
    pub current_transform: u32,
}

/// How to create a swapchain (`VkSwapchainCreateInfoKHR`).
#[derive(Debug, Clone, Copy, PartialEq, Eq, Structural)]
pub struct SwapchainCreateInfo {
    pub surface: u64,
    pub min_image_count: u32,
    pub image_format: i32,
    pub image_color_space: i32,
    pub image_extent: Extent2D,
    pub image_array_layers: u32,
    pub image_usage: u32,
    pub image_sharing_mode: i32,
    pub pre_transform: u32,
    pub composite_alpha: u32,
    pub present_mode: i32,
    pub clipped: bool,
    pub old_swapchain: u64,
}

/// The features that the images of the set need: they are drawn to, copied to and
/// written as storage images.
pub open spec fn sheet_features() -> u32 {
    vulkan::FORMAT_FEATURE_COLOR_ATTACHMENT | vulkan::FORMAT_FEATURE_TRANSFER_DST
        | vulkan::FORMAT_FEATURE_STORAGE_IMAGE
}

/// The usage that the images of the set are created with.
pub open spec fn sheet_usage() -> u32 {
    vulkan::IMAGE_USAGE_COLOR_ATTACHMENT | vulkan::IMAGE_USAGE_TRANSFER_DST
        | vulkan::IMAGE_USAGE_STORAGE
}

impl SurfaceFormatInfo {
    /// Whether the format serves for the images of the set: sRGB colour space, one
    /// of the four 8-bit RGBA formats, and the features that the images need.
    pub open spec fn suitable(self) -> bool {
        &&& self.surface_format.color_space == vulkan::COLOR_SPACE_SRGB_NONLINEAR
        &&& self.optimal_tiling_features & sheet_features() == sheet_features()
        &&& (self.surface_format.format == vulkan::FORMAT_B8G8R8A8_UNORM
            || self.surface_format.format == vulkan::FORMAT_R8G8B8A8_UNORM
            || self.surface_format.format == vulkan::FORMAT_B8G8R8A8_SRGB
            || self.surface_format.format == vulkan::FORMAT_R8G8B8A8_SRGB)
    }

    pub fn is_suitable(&self) -> (suitable: bool)
        ensures
            suitable == self.suitable(),
    {
        let needed = vulkan::FORMAT_FEATURE_COLOR_ATTACHMENT | vulkan::FORMAT_FEATURE_TRANSFER_DST
            | vulkan::FORMAT_FEATURE_STORAGE_IMAGE;
        self.surface_format.color_space == vulkan::COLOR_SPACE_SRGB_NONLINEAR
            && self.optimal_tiling_features & needed == needed && (self.surface_format.format
            == vulkan::FORMAT_B8G8R8A8_UNORM || self.surface_format.format
            == vulkan::FORMAT_R8G8B8A8_UNORM || self.surface_format.format
            == vulkan::FORMAT_B8G8R8A8_SRGB || self.surface_format.format
            == vulkan::FORMAT_R8G8B8A8_SRGB)
    }
}

/// Whether the format at `place` is the first that serves for the images.
pub open spec fn first_suitable(formats: Seq<SurfaceFormatInfo>, place: int) -> bool {
    &&& 0 <= place < formats.len()
    &&& formats[place].suitable()
    &&& forall|j: int| 0 <= j < place ==> !(#[trigger] formats[j]).suitable()
}

/// The size of the images: the surface's current extent, or the window's size
/// where the surface leaves the extent open.
pub open spec fn spec_resolution(current_extent: Extent2D, window_size: Extent2D) -> Extent2D {
    if current_extent.width == u32::MAX || current_extent.height == u32::MAX {
        window_size
    } else {
        current_extent
    }
}

/// The number of images to ask for: one more than the surface's minimum, but no
/// more than its maximum, where it has one (a maximum of 0 stands for none).
pub open spec fn spec_image_count(capabilities: SurfaceCapabilities) -> int {
    let wanted = capabilities.min_image_count + 1;
    let most: int = if capabilities.max_image_count == 0 {
        u32::MAX as int
    } else {
        capabilities.max_image_count as int
    };
    if wanted <= most {
        wanted
    } else {
        most
    }
}

/// The way to present: mailbox where the surface offers it, first in first out
/// otherwise.
pub open spec fn spec_present_mode(modes: Seq<i32>) -> i32 {
    if modes.contains(vulkan::PRESENT_MODE_MAILBOX) {
        vulkan::PRESENT_MODE_MAILBOX
    } else {
        vulkan::PRESENT_MODE_FIFO
    }
}

/// Why the images of the set could not be built or rebuilt. Each variant names
/// the step that failed and carries the device's result code.
#[derive(Debug, Clone, Copy, PartialEq, Eq, Structural)]
pub enum RefreshError {
    SurfaceFormats(i32),
    SurfaceCapabilities(i32),
    SurfacePresentModes(i32),
    NoSuitableSurfaceFormat,
    SwapchainCreation(i32),
    SwapchainImages(i32),
    ImageViewCreation(i32),
    CommandBufferRecord(RecordError),
    CommandBufferBegin(i32),
    CommandBufferEnd(i32),
    FenceCreation(i32),
    CommandBufferSubmit(i32),
    FenceWait(i32),
    CommandBufferReset(i32),
}

/// Why an image could not be acquired or presented.
#[derive(Debug, Clone, Copy, PartialEq, Eq, Structural)]
pub enum SheetsError {
    /// Neither a fence nor a semaphore was given to signal.
    NoSignal,
    AcquireImage(i32),
    RefreshResolution(RefreshError),
    FenceWait(i32),
    FenceReset(i32),
    PresentImage(i32),
    /// The device's answer is not one to the call that was to be made.
    OutOfTurn,
}

/// What the manager does next while it acquires an image.
#[derive(Debug, Clone, Copy, PartialEq, Eq, Structural)]
pub enum AcquireState {
    /// Ask the device for the next image.
    Acquire,
    /// Rebuild the images at the surface's present extent. `signalled` says
    /// whether the acquiring that called for the rebuilding handed out an image,
    /// and so signals what it was given to signal; a stale surface hands out no
    /// image and signals nothing.
    Refresh { signalled: bool },
    /// Wait for the fence that the acquiring has signalled or will signal.
    WaitFence,
    /// Reset that fence.
    ResetFence,
    /// The image with this index is acquired.
    Acquired(u32),
    Failed(SheetsError),
}

/// What came of the call that the manager made.
#[derive(Debug, Clone, Copy, PartialEq, Eq, Structural)]
pub enum AcquireEvent {
    /// The device handed out an image, and says whether the images still fit the
    /// surface well.
    Image { image_index: u32, suboptimal: bool },
    /// The device refused to hand out an image.
    NoImage(i32),
    Refreshed,
    RefreshFailed(RefreshError),
    FenceWaited,
    FenceWaitFailed(i32),
    FenceReset,
    FenceResetFailed(i32),
}

/// Where acquiring starts: it needs a fence or a semaphore to signal.
pub open spec fn acquire_start(has_semaphore: bool, has_fence: bool) -> AcquireState {
    if !has_semaphore && !has_fence {
        AcquireState::Failed(SheetsError::NoSignal)
    } else {
        AcquireState::Acquire
    }
}

/// One step of acquiring. An image that fits the surface is the result. A stale
/// surface, or images that fit it badly, have the images rebuilt, and the image is
/// asked for again. Where the acquiring handed out an image that fits badly and
/// was given a fence, that fence is signalled: it is waited for and reset before
/// the image is asked for again. After a stale surface there is nothing to wait
/// for. Any other failure ends the acquiring. Once it has ended, nothing changes
/// it.
pub open spec fn acquire_step(state: AcquireState, has_fence: bool, event: AcquireEvent) -> AcquireState {
    match state {
        AcquireState::Acquire => match event {
            AcquireEvent::Image { image_index, suboptimal } => if suboptimal {
                AcquireState::Refresh { signalled: true }
            } else {
                AcquireState::Acquired(image_index)
            },
            AcquireEvent::NoImage(code) => if code == vulkan::RESULT_ERROR_OUT_OF_DATE_KHR {
                AcquireState::Refresh { signalled: false }
            } else {
                AcquireState::Failed(SheetsError::AcquireImage(code))
            },
            _ => AcquireState::Failed(SheetsError::OutOfTurn),
        },
        AcquireState::Refresh { signalled } => match event {
            AcquireEvent::Refreshed => if has_fence && signalled {
                AcquireState::WaitFence
            } else {
                AcquireState::Acquire
            },
            AcquireEvent::RefreshFailed(error) => AcquireState::Failed(
                SheetsError::RefreshResolution(error),
            ),
            _ => AcquireState::Failed(SheetsError::OutOfTurn),
        },
        AcquireState::WaitFence => match event {
            AcquireEvent::FenceWaited => AcquireState::ResetFence,
            AcquireEvent::FenceWaitFailed(code) => AcquireState::Failed(SheetsError::FenceWait(code)),
            _ => AcquireState::Failed(SheetsError::OutOfTurn),
        },
        AcquireState::ResetFence => match event {
            AcquireEvent::FenceReset => AcquireState::Acquire,
            AcquireEvent::FenceResetFailed(code) => AcquireState::Failed(
                SheetsError::FenceReset(code),
            ),
            _ => AcquireState::Failed(SheetsError::OutOfTurn),
        },
        AcquireState::Acquired(image_index) => AcquireState::Acquired(image_index),
        AcquireState::Failed(error) => AcquireState::Failed(error),
    }
}

/// A surface that is stale at the first try is recovered from without the caller
/// and without a wait: the images are rebuilt, the image is asked for a second
/// time, and what the second try hands out is the result, whether a fence, a
/// semaphore or both were given to signal.
pub proof fn lemma_stale_surface_is_retried(has_semaphore: bool, has_fence: bool, image_index: u32)
    requires
        has_semaphore || has_fence,
    ensures
        ({
            let stale = acquire_step(
                acquire_start(has_semaphore, has_fence),
                has_fence,
                AcquireEvent::NoImage(vulkan::RESULT_ERROR_OUT_OF_DATE_KHR),
            );
            let rebuilt = acquire_step(stale, has_fence, AcquireEvent::Refreshed);
            &&& stale == AcquireState::Refresh { signalled: false }
            &&& rebuilt == AcquireState::Acquire
            &&& acquire_step(
                rebuilt,
                has_fence,
                AcquireEvent::Image { image_index, suboptimal: false },
            ) == AcquireState::Acquired(image_index)
        }),
{
}

/// The images of a set: each image with its view, all of one format and size.
pub open spec fn sheet_images(
    handles: Seq<(u64, u64)>,
    surface_format: SurfaceFormat,
    extent: Extent2D,
) -> Seq<Image2d> {
    Seq::new(
        handles.len(),
        |i: int|
            Image2d {
                image_view: handles[i].1,
                image: handles[i].0,
                format: surface_format.format,
                extent,
                bound_mem: None,
            },
    )
}

/// The commands that put new images of a set in the state to be presented from.
pub open spec fn initial_commands<'a>(images: Seq<Image2d>) -> Seq<GpuCommand<'a>> {
    Seq::new(
        images.len(),
        |i: int| GpuCommand::ImageAccessInit { image: &images[i], access: ImageAccess::Present },
    )
}

/// The rotating set of images that are presented on the surface.
#[derive(Debug, Clone, PartialEq, Eq)]
pub struct Sheets {
    pub swapchain_images: Vec<Image2d>,
    pub present_mode: i32,
    pub surface_format: SurfaceFormat,
    pub surface_resolution: Extent2D,
    pub swapchain: u64,
}

impl Sheets {
    /// The first of the surface's formats that serves for the images.
    pub fn select_surface_format(formats: &[SurfaceFormatInfo]) -> (selected: Result<
        SurfaceFormat,
        RefreshError,
    >)
        ensures
            selected is Err <==> forall|i: int|
                0 <= i < formats@.len() ==> !(#[trigger] formats@[i]).suitable(),
            selected is Err ==> selected == Err::<SurfaceFormat, RefreshError>(
                RefreshError::NoSuitableSurfaceFormat,
            ),
            selected is Ok ==> exists|i: int|
                #[trigger] first_suitable(formats@, i) && selected->Ok_0
                    == formats@[i].surface_format,
    {
        let mut i: usize = 0;
        while i < formats.len()
            invariant
                i <= formats.len(),
                forall|j: int| 0 <= j < i ==> !(#[trigger] formats@[j]).suitable(),
            decreases formats.len() - i,
        {
            if formats[i].is_suitable() {
                assert(first_suitable(formats@, i as int));
                return Ok(formats[i].surface_format);
            }
            i += 1;
        }
        Err(RefreshError::NoSuitableSurfaceFormat)
    }

    pub fn select_resolution(current_extent: Extent2D, window_size: Extent2D) -> (resolution:
        Extent2D)
        ensures
            resolution == spec_resolution(current_extent, window_size),
    {
        if current_extent.width == u32::MAX || current_extent.height == u32::MAX {
            window_size
        } else {
            current_extent
        }
    }

    pub fn select_present_mode(modes: &[i32]) -> (mode: i32)
        ensures
            mode == spec_present_mode(modes@),
    {
        let mut i: usize = 0;
        while i < modes.len()
            invariant
                i <= modes.len(),
                forall|j: int| 0 <= j < i ==> modes@[j] != vulkan::PRESENT_MODE_MAILBOX,
            decreases modes.len() - i,
        {
            if modes[i] == vulkan::PRESENT_MODE_MAILBOX {
                return vulkan::PRESENT_MODE_MAILBOX;
            }
            i += 1;
        }
        vulkan::PRESENT_MODE_FIFO
    }

    pub fn select_image_count(capabilities: &SurfaceCapabilities) -> (count: u32)
        ensures
            count == spec_image_count(*capabilities),
    {
        let most = if capabilities.max_image_count == 0 {
            u32::MAX
        } else {
            capabilities.max_image_count
        };
        if capabilities.min_image_count < most {
            capabilities.min_image_count + 1
        } else {
            most
        }
    }

    /// How to create the swapchain of a new set.
    pub fn swapchain_create_info(
        surface: u64,
        capabilities: &SurfaceCapabilities,
        surface_format: SurfaceFormat,
        resolution: Extent2D,
        present_mode: i32,
    ) -> (info: SwapchainCreateInfo)
        ensures
            info == (SwapchainCreateInfo {
                surface,
                min_image_count: spec_image_count(*capabilities) as u32,
                image_format: surface_format.format,
                image_color_space: surface_format.color_space,
                image_extent: resolution,
                image_array_layers: 1,
                image_usage: sheet_usage(),
                image_sharing_mode: vulkan::SHARING_MODE_EXCLUSIVE,
                pre_transform: capabilities.current_transform,
                composite_alpha: vulkan::COMPOSITE_ALPHA_OPAQUE,
                present_mode,
                clipped: true,
                old_swapchain: vulkan::NULL_HANDLE,
            }),
    {
        SwapchainCreateInfo {
            surface,
            min_image_count: Self::select_image_count(capabilities),
            image_format: surface_format.format,
            image_color_space: surface_format.color_space,
            image_extent: resolution,
            image_array_layers: 1,
            image_usage: vulkan::IMAGE_USAGE_COLOR_ATTACHMENT | vulkan::IMAGE_USAGE_TRANSFER_DST
                | vulkan::IMAGE_USAGE_STORAGE,
            image_sharing_mode: vulkan::SHARING_MODE_EXCLUSIVE,
            pre_transform: capabilities.current_transform,
            composite_alpha: vulkan::COMPOSITE_ALPHA_OPAQUE,
            present_mode,
            clipped: true,
            old_swapchain: vulkan::NULL_HANDLE,
        }
    }

    /// The images of a swapchain: `handles` holds each image with its view.
    pub fn make_images(handles: &[(u64, u64)], surface_format: SurfaceFormat, extent: Extent2D) -> (images:
        Vec<Image2d>)
        ensures
            images@ == sheet_images(handles@, surface_format, extent),
    {
        let mut images: Vec<Image2d> = Vec::new();
        let mut i: usize = 0;
        while i < handles.len()
            invariant
                i <= handles.len(),
                images@ == sheet_images(handles@.take(i as int), surface_format, extent),
            decreases handles.len() - i,
        {
            images.push(
                Image2d {
                    image_view: handles[i].1,
                    image: handles[i].0,
                    format: surface_format.format,
                    extent,
                    bound_mem: None,
                },
            );
            i += 1;
            assert(images@ =~= sheet_images(handles@.take(i as int), surface_format, extent));
        }
        assert(handles@.take(i as int) =~= handles@);
        images
    }

    /// The set for a swapchain that was created.
    pub fn new(
        swapchain: u64,
        handles: &[(u64, u64)],
        surface_format: SurfaceFormat,
        resolution: Extent2D,
        present_mode: i32,
    ) -> (sheets: Sheets)
        ensures
            sheets.swapchain == swapchain,
            sheets.swapchain_images@ == sheet_images(handles@, surface_format, resolution),
            sheets.present_mode == present_mode,
            sheets.surface_format == surface_format,
            sheets.surface_resolution == resolution,
    {
        Sheets {
            swapchain_images: Self::make_images(handles, surface_format, resolution),
            present_mode,
            surface_format,
            surface_resolution: resolution,
            swapchain,
        }
    }

    /// The commands that put the images of the set in the state to be presented
    /// from. They are recorded and run once, when the images are new.
    pub fn initial_layout_commands<'a>(&'a self) -> (commands: Vec<GpuCommand<'a>>)
        ensures
            commands@ == initial_commands::<'a>(self.swapchain_images@),
    {
        let mut commands: Vec<GpuCommand<'a>> = Vec::new();
        let mut i: usize = 0;
        while i < self.swapchain_images.len()
            invariant
                i <= self.swapchain_images.len(),
                commands@ == initial_commands::<'a>(self.swapchain_images@.take(i as int)),
            decreases self.swapchain_images.len() - i,
        {
            commands.push(
                GpuCommand::ImageAccessInit {
                    image: &self.swapchain_images[i],
                    access: ImageAccess::Present,
                },
            );
            i += 1;
            assert(commands@ =~= initial_commands::<'a>(self.swapchain_images@.take(i as int)));
        }
        assert(self.swapchain_images@.take(i as int) =~= self.swapchain_images@);
        commands
    }

    /// How to create the swapchain that replaces the present one: as many images,
    /// the same format and way to present, at the surface's present extent.
    pub fn refresh_create_info(&self, surface: u64, capabilities: &SurfaceCapabilities) -> (info:
        SwapchainCreateInfo)
        ensures
            info == (SwapchainCreateInfo {
                surface,
                min_image_count: self.swapchain_images@.len() as u32,
                image_format: self.surface_format.format,
                image_color_space: self.surface_format.color_space,
                image_extent: capabilities.current_extent,
                image_array_layers: 1,
                image_usage: sheet_usage(),
                image_sharing_mode: vulkan::SHARING_MODE_EXCLUSIVE,
                pre_transform: capabilities.current_transform,
                composite_alpha: vulkan::COMPOSITE_ALPHA_OPAQUE,
                present_mode: self.present_mode,
                clipped: true,
                old_swapchain: self.swapchain,
            }),
    {
        SwapchainCreateInfo {
            surface,
            min_image_count: #[verifier::truncate] (self.swapchain_images.len() as u32),
            image_format: self.surface_format.format,
            image_color_space: self.surface_format.color_space,
            image_extent: capabilities.current_extent,
            image_array_layers: 1,
            image_usage: vulkan::IMAGE_USAGE_COLOR_ATTACHMENT | vulkan::IMAGE_USAGE_TRANSFER_DST
                | vulkan::IMAGE_USAGE_STORAGE,
            image_sharing_mode: vulkan::SHARING_MODE_EXCLUSIVE,
            pre_transform: capabilities.current_transform,
            composite_alpha: vulkan::COMPOSITE_ALPHA_OPAQUE,
            present_mode: self.present_mode,
            clipped: true,
            old_swapchain: self.swapchain,
        }
    }

    /// Puts a new swapchain in the place of the present one: the set then holds
    /// the new images, at the extent that the surface reported. The result is the
    /// old swapchain, for the caller to destroy.
    pub fn refresh_resolution(
        &mut self,
        swapchain: u64,
        handles: &[(u64, u64)],
        capabilities: &SurfaceCapabilities,
    ) -> (replaced: u64)
        ensures
            replaced == old(self).swapchain,
            final(self).swapchain == swapchain,
            final(self).swapchain_images@ == sheet_images(
                handles@,
                old(self).surface_format,
                capabilities.current_extent,
            ),
            final(self).surface_resolution == capabilities.current_extent,
            final(self).surface_format == old(self).surface_format,
            final(self).present_mode == old(self).present_mode,
    {
        let replaced = self.swapchain;
        self.swapchain_images = Self::make_images(
            handles,
            self.surface_format,
            capabilities.current_extent,
        );
        self.swapchain = swapchain;
        self.surface_resolution = capabilities.current_extent;
        replaced
    }

    /// Where acquiring an image starts.
    pub fn acquire_begin(has_semaphore: bool, has_fence: bool) -> (state: AcquireState)
        ensures
            state == acquire_start(has_semaphore, has_fence),
    {
        if !has_semaphore && !has_fence {
            AcquireState::Failed(SheetsError::NoSignal)
        } else {
            AcquireState::Acquire
        }
    }

    /// One step of acquiring an image: from what the manager was doing and what
    /// came of it to what it does next.
    pub fn acquire_next_image(state: AcquireState, has_fence: bool, event: AcquireEvent) -> (next:
        AcquireState)
        ensures
            next == acquire_step(state, has_fence, event),
    {
        match state {
            AcquireState::Acquire => match event {
                AcquireEvent::Image { image_index, suboptimal } => {
                    if suboptimal {
                        AcquireState::Refresh { signalled: true }
                    } else {
                        AcquireState::Acquired(image_index)
                    }
                },
                AcquireEvent::NoImage(code) => {
                    if code == vulkan::RESULT_ERROR_OUT_OF_DATE_KHR {
                        AcquireState::Refresh { signalled: false }
                    } else {
                        AcquireState::Failed(SheetsError::AcquireImage(code))
                    }
                },
                _ => AcquireState::Failed(SheetsError::OutOfTurn),
            },
            AcquireState::Refresh { signalled } => match event {
                AcquireEvent::Refreshed => {
                    if has_fence && signalled {
                        AcquireState::WaitFence
                    } else {
                        AcquireState::Acquire
                    }
                },
                AcquireEvent::RefreshFailed(error) => AcquireState::Failed(
                    SheetsError::RefreshResolution(error),
                ),
                _ => AcquireState::Failed(SheetsError::OutOfTurn),
            },
            AcquireState::WaitFence => match event {
                AcquireEvent::FenceWaited => AcquireState::ResetFence,
                AcquireEvent::FenceWaitFailed(code) => AcquireState::Failed(
                    SheetsError::FenceWait(code),
                ),
                _ => AcquireState::Failed(SheetsError::OutOfTurn),
            },
            AcquireState::ResetFence => match event {
                AcquireEvent::FenceReset => AcquireState::Acquire,
                AcquireEvent::FenceResetFailed(code) => AcquireState::Failed(
                    SheetsError::FenceReset(code),
                ),
                _ => AcquireState::Failed(SheetsError::OutOfTurn),
            },
            AcquireState::Acquired(image_index) => AcquireState::Acquired(image_index),
            AcquireState::Failed(error) => AcquireState::Failed(error),
        }
    }

    /// What presenting comes to, given the device's answer. A stale surface is no
    /// failure: the next acquiring rebuilds the images.
    pub fn present_image(answer: Result<bool, i32>) -> (outcome: Result<(), SheetsError>)
        ensures
            outcome == (match answer {
                Ok(_) => Ok::<(), SheetsError>(()),
                Err(code) => if code == vulkan::RESULT_ERROR_OUT_OF_DATE_KHR {
                    Ok(())
                } else {
                    Err(SheetsError::PresentImage(code))
                },
            }),
    {
        match answer {
            Ok(_) => Ok(()),
            Err(code) => {
                if code == vulkan::RESULT_ERROR_OUT_OF_DATE_KHR {
                    Ok(())
                } else {
                    Err(SheetsError::PresentImage(code))
                }
            },
        }
    }
}

} // verus!
