use painter::command::{CommandBuffer, CommandBufferError, CommandPool, CommandPoolError};
use painter::painter::Painter;
use painter::sync::{
    fence_create_flags, CpuFuture, CpuFutureError, GpuFuture, GpuFutureError, Recycle, SignalState,
};
use painter::vulkan;

fn context() -> Painter {
    Painter {
        image_formats: [vulkan::FORMAT_R8G8B8A8_UNORM, vulkan::FORMAT_D32_SFLOAT],
        graphics_queue: 0x51,
        graphics_queue_family_index: 3,
        device: 0xd0,
        physical_device: 0xd1,
        surface: 0x5f,
        instance: 0x1,
    }
}

const DEVICE_LOST: i32 = -4;

#[test]
fn a_future_starts_as_it_is_asked_to() {
    let painter = context();
    assert_eq!(fence_create_flags(true), ash::vk::FenceCreateFlags::SIGNALED.as_raw());
    assert_eq!(fence_create_flags(false), ash::vk::FenceCreateFlags::empty().as_raw());
    let signaled = painter.create_cpu_future(true, Ok(0xf1)).unwrap();
    assert_eq!(signaled, CpuFuture { fence: 0xf1, state: SignalState::Signaled });
    assert!(signaled.is_signaled());
    let unsignaled = painter.create_cpu_future(false, Ok(0xf2)).unwrap();
    assert_eq!(unsignaled, CpuFuture { fence: 0xf2, state: SignalState::Unsignaled });
    assert!(!unsignaled.is_signaled());
    assert_eq!(
        painter.create_cpu_future(true, Err(-1)),
        Err(CpuFutureError::CreateError(-1))
    );
    assert_eq!(painter.create_gpu_future(Ok(0xe1)), Ok(GpuFuture { semaphore: 0xe1 }));
    assert_eq!(painter.create_gpu_future(Err(-2)), Err(GpuFutureError::CreateError(-2)));
}

#[test]
fn waiting_twice_without_a_new_signal_returns_twice() {
    let painter = context();
    let mut future = painter.create_cpu_future(false, Ok(0xf1)).unwrap();
    future.signal();
    assert!(future.is_signaled());
    assert_eq!(painter.cpu_future_wait(&mut future, Ok(())), Ok(()));
    assert!(future.is_signaled());
    // the signal is still there
    assert_eq!(painter.cpu_future_wait(&mut future, Ok(())), Ok(()));
    assert!(future.is_signaled());
    assert_eq!(future.fence, 0xf1);
}

#[test]
fn a_reset_future_waits_for_a_new_signal() {
    let painter = context();
    let mut future = painter.create_cpu_future(true, Ok(0xf1)).unwrap();
    assert_eq!(painter.cpu_future_wait(&mut future, Ok(())), Ok(()));
    assert_eq!(painter.cpu_future_reset(&mut future, Ok(())), Ok(()));
    assert!(!future.is_signaled());
    future.signal();
    assert!(future.is_signaled());
}

#[test]
fn a_failed_wait_or_reset_changes_nothing() {
    let painter = context();
    let mut future = painter.create_cpu_future(false, Ok(0xf1)).unwrap();
    assert_eq!(
        painter.cpu_future_wait(&mut future, Err(DEVICE_LOST)),
        Err(CpuFutureError::WaitError(DEVICE_LOST))
    );
    assert!(!future.is_signaled());
    future.signal();
    assert_eq!(
        painter.cpu_future_reset(&mut future, Err(DEVICE_LOST)),
        Err(CpuFutureError::ResetError(DEVICE_LOST))
    );
    assert!(future.is_signaled());
}

#[test]
fn recycling_waits_and_then_resets() {
    let painter = context();
    let mut future = painter.create_cpu_future(true, Ok(0xf1)).unwrap();
    let next = painter.cpu_future_wait_and_reset(&mut future, Recycle::Wait, Ok(()));
    assert_eq!(next, Ok(Recycle::Reset));
    assert!(future.is_signaled());
    let next = painter.cpu_future_wait_and_reset(&mut future, Recycle::Reset, Ok(()));
    assert_eq!(next, Ok(Recycle::Done));
    assert!(!future.is_signaled());
    let next = painter.cpu_future_wait_and_reset(&mut future, Recycle::Done, Err(1));
    assert_eq!(next, Ok(Recycle::Done));
    assert!(!future.is_signaled());
}

#[test]
fn recycling_ends_at_a_failed_wait() {
    let painter = context();
    let mut future = painter.create_cpu_future(true, Ok(0xf1)).unwrap();
    let next = painter.cpu_future_wait_and_reset(&mut future, Recycle::Wait, Err(DEVICE_LOST));
    assert_eq!(next, Err(CpuFutureError::WaitError(DEVICE_LOST)));
    assert!(future.is_signaled());
    let next = painter.cpu_future_wait_and_reset(&mut future, Recycle::Reset, Err(DEVICE_LOST));
    assert_eq!(next, Err(CpuFutureError::ResetError(DEVICE_LOST)));
    assert!(future.is_signaled());
}

#[test]
fn command_pools_and_buffers() {
    let painter = context();
    let info = painter.command_pool_create_info();
    assert_eq!(info.flags, ash::vk::CommandPoolCreateFlags::RESET_COMMAND_BUFFER.as_raw());
    assert_eq!(info.queue_family_index, 3);
    let pool = painter.new_command_pool(Ok(0x90)).unwrap();
    assert_eq!(pool, CommandPool { command_pool: 0x90, queue: 0x51 });
    assert_eq!(painter.new_command_pool(Err(-1)), Err(CommandPoolError::CreateError(-1)));
    let info = painter.command_buffer_allocate_info(&pool, 3);
    assert_eq!(info.command_pool, 0x90);
    assert_eq!(info.level, ash::vk::CommandBufferLevel::PRIMARY.as_raw());
    assert_eq!(info.command_buffer_count, 3);
    assert_eq!(
        painter.allocate_command_buffers(&pool, Ok(vec![0x91, 0x92])),
        Ok(vec![
            CommandBuffer { command_buffer: 0x91, command_pool: 0x90, queue: 0x51 },
            CommandBuffer { command_buffer: 0x92, command_pool: 0x90, queue: 0x51 },
        ])
    );
    assert_eq!(painter.allocate_command_buffers(&pool, Ok(vec![])), Ok(vec![]));
    assert_eq!(
        painter.allocate_command_buffers(&pool, Err(-2)),
        Err(CommandPoolError::CommandBufferAllocationError(-2))
    );
    assert_eq!(painter.begin_cmd_buffer(Ok(())), Ok(()));
    assert_eq!(painter.begin_cmd_buffer(Err(-1)), Err(CommandBufferError::BeginError(-1)));
    assert_eq!(painter.end_cmd_buffer(Ok(())), Ok(()));
    assert_eq!(painter.end_cmd_buffer(Err(-2)), Err(CommandBufferError::EndError(-2)));
    assert_eq!(painter.reset_cmd_buffer(Ok(())), Ok(()));
    assert_eq!(painter.reset_cmd_buffer(Err(-4)), Err(CommandBufferError::ResetError(-4)));
}

#[test]
fn a_submission_names_its_semaphores_in_order() {
    let painter = context();
    let buffer = CommandBuffer { command_buffer: 0x91, command_pool: 0x90, queue: 0x51 };
    let acquired = GpuFuture { semaphore: 0xe1 };
    let drawn = GpuFuture { semaphore: 0xe2 };
    let uploaded = GpuFuture { semaphore: 0xe3 };
    let done = CpuFuture { fence: 0xf1, state: SignalState::Unsignaled };
    let submission = painter.submit_cmd_buffer(
        &buffer,
        &[&drawn],
        &[&acquired, &uploaded],
        &[0x400, 0x1000],
        Some(&done),
    );
    assert_eq!(submission.queue, 0x51);
    assert_eq!(submission.command_buffer, 0x91);
    assert_eq!(submission.signal_semaphores, vec![0xe2]);
    assert_eq!(submission.wait_semaphores, vec![0xe1, 0xe3]);
    assert_eq!(submission.wait_dst_stage_mask, vec![0x400, 0x1000]);
    assert_eq!(submission.fence, 0xf1);
    let submission = painter.submit_cmd_buffer(&buffer, &[], &[], &[], None);
    assert!(submission.signal_semaphores.is_empty());
    assert!(submission.wait_semaphores.is_empty());
    assert!(submission.wait_dst_stage_mask.is_empty());
    assert_eq!(submission.fence, 0);
}
