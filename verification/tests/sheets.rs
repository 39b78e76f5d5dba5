use painter::command::GpuCommand;
use painter::image::{Image2d, ImageAccess};
use painter::sheets::{
    AcquireEvent, AcquireState, RefreshError, Sheets, SheetsError, SurfaceCapabilities,
    SurfaceFormat, SurfaceFormatInfo, SwapchainCreateInfo,
};
use painter::vulkan;
use painter::vulkan::Extent2D;

const OUT_OF_DATE: i32 = -1_000_001_004;
const SURFACE_LOST: i32 = -1_000_000_000;
const NEEDED: u32 = 0x80 | 0x8000 | 0x2;

fn format(format: i32, color_space: i32, features: u32) -> SurfaceFormatInfo {
    SurfaceFormatInfo {
        surface_format: SurfaceFormat { format, color_space },
        optimal_tiling_features: features,
    }
}

fn capabilities(min: u32, max: u32, width: u32, height: u32) -> SurfaceCapabilities {
    SurfaceCapabilities {
        min_image_count: min,
        max_image_count: max,
        current_extent: Extent2D { width, height },
        current_transform: 1,
    }
}

fn sheets() -> Sheets {
    Sheets::new(
        0x500,
        &[(0x10, 0x11), (0x20, 0x21), (0x30, 0x31)],
        SurfaceFormat { format: vulkan::FORMAT_B8G8R8A8_UNORM, color_space: 0 },
        Extent2D { width: 800, height: 600 },
        vulkan::PRESENT_MODE_MAILBOX,
    )
}

fn run(has_semaphore: bool, has_fence: bool, events: &[AcquireEvent]) -> AcquireState {
    let mut state = Sheets::acquire_begin(has_semaphore, has_fence);
    for event in events {
        state = Sheets::acquire_next_image(state, has_fence, *event);
    }
    state
}

#[test]
fn a_stale_surface_is_rebuilt_and_the_second_try_succeeds() {
    // with a semaphore to signal: rebuild, then ask again
    let mut state = Sheets::acquire_begin(true, false);
    assert_eq!(state, AcquireState::Acquire);
    state = Sheets::acquire_next_image(state, false, AcquireEvent::NoImage(OUT_OF_DATE));
    assert_eq!(state, AcquireState::Refresh { signalled: false });
    // the images are rebuilt at the extent that the surface reports now
    let mut set = sheets();
    let now = capabilities(2, 8, 1024, 768);
    let info = set.refresh_create_info(0x5f, &now);
    assert_eq!(info.image_extent, Extent2D { width: 1024, height: 768 });
    assert_eq!(info.old_swapchain, 0x500);
    let replaced = set.refresh_resolution(0x501, &[(0x40, 0x41), (0x50, 0x51), (0x60, 0x61)], &now);
    assert_eq!(replaced, 0x500);
    assert_eq!(set.swapchain, 0x501);
    assert_eq!(set.surface_resolution, Extent2D { width: 1024, height: 768 });
    assert_eq!(set.swapchain_images.len(), 3);
    for image in set.swapchain_images.iter() {
        assert_eq!(image.extent, Extent2D { width: 1024, height: 768 });
    }
    state = Sheets::acquire_next_image(state, false, AcquireEvent::Refreshed);
    assert_eq!(state, AcquireState::Acquire);
    state = Sheets::acquire_next_image(
        state,
        false,
        AcquireEvent::Image { image_index: 2, suboptimal: false },
    );
    assert_eq!(state, AcquireState::Acquired(2));
}

#[test]
fn after_a_stale_surface_nothing_is_waited_for() {
    // the failed try has signalled nothing: with a fence too, the second try
    // follows the rebuilding at once
    let events = [
        AcquireEvent::NoImage(OUT_OF_DATE),
        AcquireEvent::Refreshed,
        AcquireEvent::Image { image_index: 1, suboptimal: false },
    ];
    for (has_semaphore, has_fence) in [(false, true), (true, true), (true, false)] {
        assert_eq!(
            run(has_semaphore, has_fence, &events[..1]),
            AcquireState::Refresh { signalled: false }
        );
        assert_eq!(run(has_semaphore, has_fence, &events[..2]), AcquireState::Acquire);
        assert_eq!(run(has_semaphore, has_fence, &events), AcquireState::Acquired(1));
    }
}

#[test]
fn after_an_image_that_fits_badly_the_fence_is_recycled_before_the_next_try() {
    let events = [
        AcquireEvent::Image { image_index: 0, suboptimal: true },
        AcquireEvent::Refreshed,
        AcquireEvent::FenceWaited,
        AcquireEvent::FenceReset,
        AcquireEvent::Image { image_index: 1, suboptimal: false },
    ];
    assert_eq!(run(false, true, &events[..1]), AcquireState::Refresh { signalled: true });
    assert_eq!(run(false, true, &events[..2]), AcquireState::WaitFence);
    assert_eq!(run(false, true, &events[..3]), AcquireState::ResetFence);
    assert_eq!(run(false, true, &events[..4]), AcquireState::Acquire);
    assert_eq!(run(false, true, &events), AcquireState::Acquired(1));
    assert_eq!(run(true, true, &events), AcquireState::Acquired(1));
    // without a fence there is nothing to recycle
    let events = [
        AcquireEvent::Image { image_index: 0, suboptimal: true },
        AcquireEvent::Refreshed,
        AcquireEvent::Image { image_index: 1, suboptimal: false },
    ];
    assert_eq!(run(true, false, &events[..2]), AcquireState::Acquire);
    assert_eq!(run(true, false, &events), AcquireState::Acquired(1));
}

#[test]
fn an_image_that_fits_is_the_result_at_once() {
    let events = [AcquireEvent::Image { image_index: 0, suboptimal: false }];
    assert_eq!(run(true, false, &events), AcquireState::Acquired(0));
    // once acquired, nothing changes it
    let events = [
        AcquireEvent::Image { image_index: 0, suboptimal: false },
        AcquireEvent::NoImage(SURFACE_LOST),
        AcquireEvent::Refreshed,
    ];
    assert_eq!(run(true, false, &events), AcquireState::Acquired(0));
}

#[test]
fn images_that_fit_badly_are_rebuilt_as_often_as_it_takes() {
    let events = [
        AcquireEvent::Image { image_index: 1, suboptimal: true },
        AcquireEvent::Refreshed,
        AcquireEvent::NoImage(OUT_OF_DATE),
        AcquireEvent::Refreshed,
        AcquireEvent::Image { image_index: 0, suboptimal: true },
        AcquireEvent::Refreshed,
        AcquireEvent::Image { image_index: 2, suboptimal: false },
    ];
    assert_eq!(run(true, false, &events[..5]), AcquireState::Refresh { signalled: true });
    assert_eq!(run(true, false, &events), AcquireState::Acquired(2));
}

#[test]
fn acquiring_needs_something_to_signal() {
    assert_eq!(Sheets::acquire_begin(false, false), AcquireState::Failed(SheetsError::NoSignal));
    assert_eq!(Sheets::acquire_begin(true, false), AcquireState::Acquire);
    assert_eq!(Sheets::acquire_begin(false, true), AcquireState::Acquire);
    assert_eq!(Sheets::acquire_begin(true, true), AcquireState::Acquire);
    let events = [AcquireEvent::Image { image_index: 0, suboptimal: false }];
    assert_eq!(run(false, false, &events), AcquireState::Failed(SheetsError::NoSignal));
}

#[test]
fn other_failures_end_the_acquiring() {
    assert_eq!(
        run(true, false, &[AcquireEvent::NoImage(SURFACE_LOST)]),
        AcquireState::Failed(SheetsError::AcquireImage(SURFACE_LOST))
    );
    assert_eq!(
        run(
            true,
            false,
            &[
                AcquireEvent::NoImage(OUT_OF_DATE),
                AcquireEvent::RefreshFailed(RefreshError::SwapchainCreation(-3)),
                AcquireEvent::Image { image_index: 0, suboptimal: false },
            ]
        ),
        AcquireState::Failed(SheetsError::RefreshResolution(RefreshError::SwapchainCreation(-3)))
    );
    assert_eq!(
        run(
            false,
            true,
            &[
                AcquireEvent::Image { image_index: 0, suboptimal: true },
                AcquireEvent::Refreshed,
                AcquireEvent::FenceWaitFailed(-4),
            ]
        ),
        AcquireState::Failed(SheetsError::FenceWait(-4))
    );
    assert_eq!(
        run(
            false,
            true,
            &[
                AcquireEvent::Image { image_index: 0, suboptimal: true },
                AcquireEvent::Refreshed,
                AcquireEvent::FenceWaited,
                AcquireEvent::FenceResetFailed(-4),
            ]
        ),
        AcquireState::Failed(SheetsError::FenceReset(-4))
    );
}

#[test]
fn an_answer_out_of_turn_ends_the_acquiring() {
    assert_eq!(
        run(true, false, &[AcquireEvent::Refreshed]),
        AcquireState::Failed(SheetsError::OutOfTurn)
    );
    assert_eq!(
        run(true, true, &[AcquireEvent::NoImage(OUT_OF_DATE), AcquireEvent::FenceWaited]),
        AcquireState::Failed(SheetsError::OutOfTurn)
    );
    assert_eq!(
        run(
            true,
            true,
            &[
                AcquireEvent::Image { image_index: 0, suboptimal: true },
                AcquireEvent::Refreshed,
                AcquireEvent::FenceReset,
            ]
        ),
        AcquireState::Failed(SheetsError::OutOfTurn)
    );
    // after a stale surface the next answer is that of the second try
    assert_eq!(
        run(
            true,
            true,
            &[AcquireEvent::NoImage(OUT_OF_DATE), AcquireEvent::Refreshed, AcquireEvent::FenceWaited]
        ),
        AcquireState::Failed(SheetsError::OutOfTurn)
    );
}

#[test]
fn presenting_to_a_stale_surface_is_no_failure() {
    assert_eq!(Sheets::present_image(Ok(false)), Ok(()));
    assert_eq!(Sheets::present_image(Ok(true)), Ok(()));
    assert_eq!(Sheets::present_image(Err(OUT_OF_DATE)), Ok(()));
    assert_eq!(
        Sheets::present_image(Err(SURFACE_LOST)),
        Err(SheetsError::PresentImage(SURFACE_LOST))
    );
    assert_eq!(Sheets::present_image(Err(-4)), Err(SheetsError::PresentImage(-4)));
}

#[test]
fn the_first_suitable_surface_format_is_taken() {
    let formats = [
        format(vulkan::FORMAT_R8G8B8A8_UNORM, 1, NEEDED),
        format(vulkan::FORMAT_R8G8B8A8_UNORM, 0, 0x80 | 0x8000),
        format(vulkan::FORMAT_D32_SFLOAT, 0, NEEDED),
        format(vulkan::FORMAT_B8G8R8A8_SRGB, 0, NEEDED | 0x1),
        format(vulkan::FORMAT_R8G8B8A8_UNORM, 0, NEEDED),
    ];
    assert_eq!(
        Sheets::select_surface_format(&formats),
        Ok(SurfaceFormat { format: vulkan::FORMAT_B8G8R8A8_SRGB, color_space: 0 })
    );
    assert_eq!(
        Sheets::select_surface_format(&formats[..3]),
        Err(RefreshError::NoSuitableSurfaceFormat)
    );
    assert_eq!(Sheets::select_surface_format(&[]), Err(RefreshError::NoSuitableSurfaceFormat));
    for code in [
        vulkan::FORMAT_B8G8R8A8_UNORM,
        vulkan::FORMAT_R8G8B8A8_UNORM,
        vulkan::FORMAT_B8G8R8A8_SRGB,
        vulkan::FORMAT_R8G8B8A8_SRGB,
    ] {
        assert!(format(code, 0, NEEDED).is_suitable());
    }
}

#[test]
fn the_resolution_is_the_surfaces_or_the_windows() {
    let window = Extent2D { width: 1280, height: 720 };
    let surface = Extent2D { width: 800, height: 600 };
    assert_eq!(Sheets::select_resolution(surface, window), surface);
    assert_eq!(
        Sheets::select_resolution(Extent2D { width: u32::MAX, height: u32::MAX }, window),
        window
    );
    assert_eq!(
        Sheets::select_resolution(Extent2D { width: 800, height: u32::MAX }, window),
        window
    );
    assert_eq!(
        Sheets::select_resolution(Extent2D { width: u32::MAX, height: 600 }, window),
        window
    );
}

#[test]
fn mailbox_is_preferred() {
    assert_eq!(Sheets::select_present_mode(&[2, 0, 1, 3]), vulkan::PRESENT_MODE_MAILBOX);
    assert_eq!(Sheets::select_present_mode(&[2, 0, 3]), vulkan::PRESENT_MODE_FIFO);
    assert_eq!(Sheets::select_present_mode(&[]), vulkan::PRESENT_MODE_FIFO);
}

#[test]
fn one_image_more_than_the_minimum_within_the_maximum() {
    assert_eq!(Sheets::select_image_count(&capabilities(2, 8, 1, 1)), 3);
    assert_eq!(Sheets::select_image_count(&capabilities(2, 0, 1, 1)), 3);
    assert_eq!(Sheets::select_image_count(&capabilities(2, 2, 1, 1)), 2);
    assert_eq!(Sheets::select_image_count(&capabilities(3, 2, 1, 1)), 2);
    assert_eq!(Sheets::select_image_count(&capabilities(u32::MAX, 0, 1, 1)), u32::MAX);
    assert_eq!(Sheets::select_image_count(&capabilities(u32::MAX - 1, 0, 1, 1)), u32::MAX);
    assert_eq!(Sheets::select_image_count(&capabilities(0, 0, 1, 1)), 1);
}

#[test]
fn the_swapchain_is_described_to_the_device() {
    let caps = SurfaceCapabilities { current_transform: 0x10, ..capabilities(2, 3, 640, 480) };
    let chosen = SurfaceFormat { format: vulkan::FORMAT_B8G8R8A8_UNORM, color_space: 0 };
    let info = Sheets::swapchain_create_info(
        0x5f,
        &caps,
        chosen,
        Extent2D { width: 640, height: 480 },
        vulkan::PRESENT_MODE_FIFO,
    );
    assert_eq!(
        info,
        SwapchainCreateInfo {
            surface: 0x5f,
            min_image_count: 3,
            image_format: vulkan::FORMAT_B8G8R8A8_UNORM,
            image_color_space: 0,
            image_extent: Extent2D { width: 640, height: 480 },
            image_array_layers: 1,
            image_usage: (ash::vk::ImageUsageFlags::COLOR_ATTACHMENT
                | ash::vk::ImageUsageFlags::TRANSFER_DST
                | ash::vk::ImageUsageFlags::STORAGE)
                .as_raw(),
            image_sharing_mode: ash::vk::SharingMode::EXCLUSIVE.as_raw(),
            pre_transform: 0x10,
            composite_alpha: ash::vk::CompositeAlphaFlagsKHR::OPAQUE.as_raw(),
            present_mode: vulkan::PRESENT_MODE_FIFO,
            clipped: true,
            old_swapchain: 0,
        }
    );
    let refresh = sheets().refresh_create_info(0x5f, &caps);
    assert_eq!(
        refresh,
        SwapchainCreateInfo {
            min_image_count: 3,
            present_mode: vulkan::PRESENT_MODE_MAILBOX,
            old_swapchain: 0x500,
            ..info
        }
    );
}

#[test]
fn new_images_are_made_ready_to_present() {
    let set = sheets();
    assert_eq!(set.swapchain, 0x500);
    assert_eq!(set.present_mode, vulkan::PRESENT_MODE_MAILBOX);
    assert_eq!(
        set.swapchain_images,
        vec![
            Image2d {
                image_view: 0x11,
                image: 0x10,
                format: vulkan::FORMAT_B8G8R8A8_UNORM,
                extent: Extent2D { width: 800, height: 600 },
                bound_mem: None,
            },
            Image2d {
                image_view: 0x21,
                image: 0x20,
                format: vulkan::FORMAT_B8G8R8A8_UNORM,
                extent: Extent2D { width: 800, height: 600 },
                bound_mem: None,
            },
            Image2d {
                image_view: 0x31,
                image: 0x30,
                format: vulkan::FORMAT_B8G8R8A8_UNORM,
                extent: Extent2D { width: 800, height: 600 },
                bound_mem: None,
            },
        ]
    );
    let commands = set.initial_layout_commands();
    assert_eq!(commands.len(), 3);
    for (command, image) in commands.iter().zip(set.swapchain_images.iter()) {
        assert_eq!(
            *command,
            GpuCommand::ImageAccessInit { image, access: ImageAccess::Present }
        );
    }
}
