use painter::allocator::{
    write_to_mem, AllocationError, GAllocator, GAllocatorError, MemoryLocation, MemoryRequirements,
};
use painter::buffer::{gpu_local, BoundMemory, Buffer, BufferCreateInfo, BufferError};
use painter::image::ImageAccess;
use painter::painter::Painter;
use painter::vulkan;
use painter::vulkan::{Extent2D, Extent3D};

fn context() -> Painter {
    Painter {
        image_formats: [vulkan::FORMAT_R8G8B8A8_UNORM, vulkan::FORMAT_D32_SFLOAT],
        graphics_queue: 0x51,
        graphics_queue_family_index: 3,
        device: 0xd0,
        physical_device: 0xd1,
        surface: 0x5f,
        instance: 0x1,
    }
}

#[test]
fn what_is_written_is_read_back() {
    let data = [1u8, 2, 3, 4, 5];
    let mut region = vec![0xeeu8; 8];
    assert_eq!(write_to_mem(Some(&mut region[..]), 0, &data), Ok(()));
    assert_eq!(&region[..data.len()], &data);
    assert_eq!(region, vec![1, 2, 3, 4, 5, 0xee, 0xee, 0xee]);
}

#[test]
fn writing_at_an_offset_leaves_the_rest() {
    let mut region = vec![9u8; 6];
    assert_eq!(write_to_mem(Some(&mut region[..]), 2, &[7, 8]), Ok(()));
    assert_eq!(region, vec![9, 9, 7, 8, 9, 9]);
    // up to the last byte
    assert_eq!(write_to_mem(Some(&mut region[..]), 4, &[1, 2]), Ok(()));
    assert_eq!(region, vec![9, 9, 7, 8, 1, 2]);
    // nothing, at the very end
    assert_eq!(write_to_mem(Some(&mut region[..]), 6, &[]), Ok(()));
    assert_eq!(region, vec![9, 9, 7, 8, 1, 2]);
}

#[test]
fn a_region_of_exactly_the_size_takes_the_data() {
    let data = [4u8, 3, 2, 1];
    let mut region = vec![0u8; 4];
    assert_eq!(write_to_mem(Some(&mut region[..]), 0, &data), Ok(()));
    assert_eq!(region, data.to_vec());
}

#[test]
fn memory_that_is_not_mapped_is_not_written() {
    assert_eq!(write_to_mem(None, 0, &[1, 2, 3]), Err(GAllocatorError::MemoryNotWritable));
    assert_eq!(write_to_mem(None, 0, &[]), Err(GAllocatorError::MemoryNotWritable));
}

#[test]
fn data_that_does_not_fit_is_refused_and_nothing_is_written() {
    let mut region = vec![5u8; 4];
    assert_eq!(
        write_to_mem(Some(&mut region[..]), 0, &[1, 2, 3, 4, 5]),
        Err(GAllocatorError::MemoryWriteError)
    );
    assert_eq!(
        write_to_mem(Some(&mut region[..]), 3, &[1, 2]),
        Err(GAllocatorError::MemoryWriteError)
    );
    assert_eq!(write_to_mem(Some(&mut region[..]), 5, &[]), Err(GAllocatorError::MemoryWriteError));
    assert_eq!(
        write_to_mem(Some(&mut region[..]), usize::MAX, &[1, 2]),
        Err(GAllocatorError::MemoryWriteError)
    );
    assert_eq!(region, vec![5, 5, 5, 5]);
}

/// Processes the list as its owner does: each allocation that is handed out is
/// released, and the memory manager's answer to that is handed in at the next
/// step. `fails` says which release fails.
fn process(
    allocator: &mut GAllocator<u32>,
    fails: Option<u32>,
) -> (Vec<u32>, Result<(), GAllocatorError>) {
    let mut released = Vec::new();
    let mut last = None;
    loop {
        match allocator.process_free_events(last) {
            Ok(Some(allocation)) => {
                if fails == Some(allocation) {
                    last = Some(Err(AllocationError::Internal(format!("{allocation}"))));
                } else {
                    released.push(allocation);
                    last = Some(Ok(()));
                }
            }
            Ok(None) => return (released, Ok(())),
            Err(error) => return (released, Err(error)),
        }
    }
}

#[test]
fn an_enqueued_allocation_is_released_by_processing_and_once_only() {
    let mut allocator: GAllocator<u32> = GAllocator::new();
    assert_eq!(allocator.pending_count(), 0);
    allocator.enqueue_free(7);
    assert_eq!(allocator.pending_count(), 1);
    assert_eq!(allocator.process_free_events(None), Ok(Some(7)));
    assert_eq!(allocator.pending_count(), 0);
    assert_eq!(allocator.process_free_events(Some(Ok(()))), Ok(None));
    assert_eq!(allocator.pending_count(), 0);
    // a second processing has nothing to release
    assert_eq!(allocator.process_free_events(None), Ok(None));
    assert_eq!(allocator.pending_count(), 0);
    assert_eq!(process(&mut allocator, None), (vec![], Ok(())));
}

#[test]
fn enqueueing_releases_nothing() {
    let mut allocator: GAllocator<u32> = GAllocator::new();
    for id in 0..5 {
        allocator.enqueue_free(id);
    }
    assert_eq!(allocator.pending_count(), 5);
}

#[test]
fn allocations_are_released_oldest_first() {
    let mut allocator: GAllocator<u32> = GAllocator::new();
    allocator.enqueue_free(10);
    allocator.enqueue_free(20);
    allocator.enqueue_free(30);
    assert_eq!(allocator.process_free_events(None), Ok(Some(10)));
    assert_eq!(allocator.pending_count(), 2);
    allocator.enqueue_free(40);
    assert_eq!(process(&mut allocator, None), (vec![20, 30, 40], Ok(())));
    assert_eq!(allocator.pending_count(), 0);
}

#[test]
fn a_failed_release_ends_the_processing_and_keeps_the_rest() {
    let mut allocator: GAllocator<u32> = GAllocator::new();
    for id in [1, 2, 3, 4, 5] {
        allocator.enqueue_free(id);
    }
    let (released, outcome) = process(&mut allocator, Some(3));
    assert_eq!(released, vec![1, 2]);
    assert_eq!(
        outcome,
        Err(GAllocatorError::MemoryFreeError(AllocationError::Internal("3".to_string())))
    );
    // what came after the failure is still there for a later processing
    assert_eq!(allocator.pending_count(), 2);
    assert_eq!(process(&mut allocator, None), (vec![4, 5], Ok(())));
    assert_eq!(allocator.pending_count(), 0);
}

#[test]
fn a_failure_handed_in_takes_nothing_off_the_list() {
    let mut allocator: GAllocator<u32> = GAllocator::new();
    allocator.enqueue_free(9);
    assert_eq!(
        allocator.process_free_events(Some(Err(AllocationError::OutOfMemory))),
        Err(GAllocatorError::MemoryFreeError(AllocationError::OutOfMemory))
    );
    assert_eq!(allocator.pending_count(), 1);
    let mut empty: GAllocator<u32> = GAllocator::new();
    assert_eq!(
        empty.process_free_events(Some(Err(AllocationError::OutOfMemory))),
        Err(GAllocatorError::MemoryFreeError(AllocationError::OutOfMemory))
    );
}

#[test]
fn requests_go_to_device_memory_or_to_host_written_memory() {
    let allocator: GAllocator<u32> = GAllocator::new();
    let requirements = MemoryRequirements { size: 4096, alignment: 256, memory_type_bits: 0b1011 };
    let request = allocator.allocate_mem("0x80", requirements, true);
    assert_eq!(request.name, "0x80");
    assert_eq!(request.requirements, requirements);
    assert_eq!(request.location, MemoryLocation::GpuOnly);
    assert!(!request.linear);
    let request = allocator.allocate_mem("scene", requirements, false);
    assert_eq!(request.name, "scene");
    assert_eq!(request.location, MemoryLocation::CpuToGpu);
    assert!(!request.linear);
}

#[test]
fn the_memory_managers_failures_are_passed_on() {
    assert_eq!(GAllocator::<u32>::allocation_outcome(Ok(7)), Ok(7));
    assert_eq!(
        GAllocator::<u32>::allocation_outcome(Err(AllocationError::OutOfMemory)),
        Err(GAllocatorError::MemoryAllocationError(AllocationError::OutOfMemory))
    );
}

#[test]
fn memory_is_the_devices_alone_unless_the_host_is_to_see_it() {
    assert!(gpu_local(None));
    assert!(gpu_local(Some(false)));
    assert!(!gpu_local(Some(true)));
}

#[test]
fn a_buffer_without_memory_cannot_be_written() {
    let buffer = Buffer { buffer: 1, size: 16, bound_mem: None };
    let mut region = vec![0u8; 16];
    assert_eq!(
        buffer.write_to_mem(Some(&mut region[..]), &[1, 2]),
        Err(BufferError::MemoryNotAllocatedError)
    );
    assert_eq!(buffer.write_to_mem(None, &[1, 2]), Err(BufferError::MemoryNotAllocatedError));
    assert_eq!(region, vec![0u8; 16]);
}

#[test]
fn a_buffer_with_mapped_memory_is_written_from_its_start() {
    let bound = BoundMemory { memory: 0x30, offset: 256, size: 16 };
    let buffer = Buffer { buffer: 1, size: 16, bound_mem: Some(bound) };
    let mut region = vec![0u8; 16];
    assert_eq!(buffer.write_to_mem(Some(&mut region[..]), &[1, 2, 3]), Ok(()));
    assert_eq!(&region[..4], &[1, 2, 3, 0]);
    assert_eq!(buffer.write_to_mem(None, &[1, 2, 3]), Err(BufferError::MemoryWriteError));
    assert_eq!(
        buffer.write_to_mem(Some(&mut region[..]), &[0u8; 17]),
        Err(BufferError::MemoryWriteError)
    );
    assert_eq!(&region[..4], &[1, 2, 3, 0]);
}

#[test]
fn buffer_plans() {
    let plan = context().new_buffer(4096, 0x82, true, Some(true));
    assert_eq!(plan.create_info, BufferCreateInfo { size: 4096, usage: 0x82 });
    assert_eq!(plan.gpu_local, Some(false));
    assert_eq!(context().new_buffer(1, 0, true, None).gpu_local, Some(true));
    assert_eq!(context().new_buffer(1, 0, false, Some(true)).gpu_local, None);
}

#[test]
fn image_plans_collect_the_usage_of_the_states() {
    let extent = Extent2D { width: 320, height: 200 };
    let plan = context().new_image_2d(
        vulkan::FORMAT_R8G8B8A8_UNORM,
        extent,
        &[ImageAccess::PipelineAttachment, ImageAccess::TransferRead],
        true,
        Some(true),
    );
    assert_eq!(plan.create_info.image_type, ash::vk::ImageType::TYPE_2D.as_raw());
    assert_eq!(plan.create_info.format, vulkan::FORMAT_R8G8B8A8_UNORM);
    assert_eq!(plan.create_info.extent, Extent3D { width: 320, height: 200, depth: 1 });
    assert_eq!(plan.create_info.mip_levels, 1);
    assert_eq!(plan.create_info.array_layers, 1);
    assert_eq!(plan.create_info.samples, ash::vk::SampleCountFlags::TYPE_1.as_raw());
    assert_eq!(
        plan.create_info.usage,
        (ash::vk::ImageUsageFlags::COLOR_ATTACHMENT
            | ash::vk::ImageUsageFlags::STORAGE
            | ash::vk::ImageUsageFlags::TRANSFER_SRC)
            .as_raw()
    );
    assert_eq!(plan.gpu_local, Some(false));
    let plan = context().new_image_2d(
        vulkan::FORMAT_D32_SFLOAT,
        extent,
        &[ImageAccess::PipelineAttachment],
        false,
        None,
    );
    assert_eq!(
        plan.create_info.usage,
        ash::vk::ImageUsageFlags::DEPTH_STENCIL_ATTACHMENT.as_raw()
    );
    assert_eq!(plan.gpu_local, None);
    let plan = context().new_image_2d(vulkan::FORMAT_D32_SFLOAT, extent, &[], true, None);
    assert_eq!(plan.create_info.usage, 0);
    assert_eq!(plan.gpu_local, Some(true));
    let plan = context().new_image_2d(
        vulkan::FORMAT_R8G8B8A8_UNORM,
        extent,
        &[ImageAccess::TransferWrite, ImageAccess::ShaderRead, ImageAccess::Present],
        true,
        None,
    );
    assert_eq!(plan.create_info.usage, 0x6);
}
