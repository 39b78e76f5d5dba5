//! Buffers.

use vstd::prelude::*;
use crate::allocator::{fits, written, GAllocatorError};
use crate::painter::{Painter, PainterDelete};

verus! {

/// The memory that a resource is bound to: the device memory, where in it the
/// resource lies, and how much of it the resource has.
#[derive(Debug, Clone, Copy, PartialEq, Eq, Structural)]
pub struct BoundMemory {
    pub memory: u64,
    pub offset: u64,
    pub size: u64,
}

/// Why a buffer could not be created or written.
#[derive(Debug, Clone, PartialEq, Eq)]
pub enum BufferError {
    /// The device could not create the buffer; its result code.
    CreateError(i32),
    MemoryAllocationError(GAllocatorError),
    /// The buffer has no memory.
    MemoryNotAllocatedError,
    /// The device could not bind the memory to the buffer; its result code.
    MemoryBindError(i32),
    /// The buffer's memory is not mapped into host memory, or does not hold what
    /// was to be written.
    MemoryWriteError,
}

/// A device buffer: its handle, its size in bytes, and the memory it is bound to,
/// if it is bound to any.
#[derive(Debug, Clone, Copy, PartialEq, Eq, Structural)]
pub struct Buffer {
    pub buffer: u64,
    pub size: u64,
    pub bound_mem: Option<BoundMemory>,
}

/// How to create a buffer (`VkBufferCreateInfo`).
#[derive(Debug, Clone, Copy, PartialEq, Eq, Structural)]
pub struct BufferCreateInfo {
    pub size: u64,
    pub usage: u32,
}

/// What creating a buffer takes: the buffer to create, and, where it is to get
/// memory of its own, whether that memory is the device's alone.
#[derive(Debug, Clone, Copy, PartialEq, Eq, Structural)]
pub struct BufferPlan {
    pub create_info: BufferCreateInfo,
    pub gpu_local: Option<bool>,
}

/// Whether memory is asked of the device alone: it is, unless the resource is
/// to be visible to the host.
pub open spec fn spec_gpu_local(mem_host_visible: Option<bool>) -> bool {
    match mem_host_visible {
        Some(visible) => !visible,
        None => true,
    }
}

pub fn gpu_local(mem_host_visible: Option<bool>) -> (local: bool)
    ensures
        local == spec_gpu_local(mem_host_visible),
{
    match mem_host_visible {
        Some(visible) => !visible,
        None => true,
    }
}

impl Buffer {
    /// What is to be destroyed when the buffer is given up.
    pub fn delete_event(&self) -> (event: PainterDelete)
        ensures
            event == PainterDelete::Buffer(self.buffer),
    {
        PainterDelete::Buffer(self.buffer)
    }

    /// Writes `data` to the start of the buffer's memory. `mapped` is the mapped
    /// region of that memory, or `None` where it is not mapped into host memory.
    /// A buffer without memory, memory that is not mapped, and data longer than
    /// the region are refused, and nothing is written.
    pub fn write_to_mem(&self, mapped: Option<&mut [u8]>, data: &[u8]) -> (outcome: Result<
        (),
        BufferError,
    >)
        ensures
            self.bound_mem is None ==> outcome == Err::<(), BufferError>(
                BufferError::MemoryNotAllocatedError,
            ),
            self.bound_mem is Some && (mapped is None || !fits(mapped->0@, 0, data@)) ==> outcome
                == Err::<(), BufferError>(BufferError::MemoryWriteError),
            self.bound_mem is Some && mapped is Some && fits(mapped->0@, 0, data@) ==> outcome
                == Ok::<(), BufferError>(()),
            mapped is Some ==> final(mapped->0)@ == (if outcome is Ok {
                written(mapped->0@, 0, data@)
            } else {
                mapped->0@
            }),
    {
        if self.bound_mem.is_none() {
            return Err(BufferError::MemoryNotAllocatedError);
        }
        match crate::allocator::write_to_mem(mapped, 0, data) {
            Ok(()) => Ok(()),
            Err(_) => Err(BufferError::MemoryWriteError),
        }
    }
}

impl Painter {
    /// What creating a buffer of `size` bytes takes. `with_memory` says whether the
    /// buffer gets memory from an allocator, `mem_host_visible` whether the host
    /// is to see that memory.
    pub fn new_buffer(
        &self,
        size: u64,
        buffer_usage_flags: u32,
        with_memory: bool,
        mem_host_visible: Option<bool>,
    ) -> (plan: BufferPlan)
        ensures
            plan.create_info == (BufferCreateInfo { size, usage: buffer_usage_flags }),
            plan.gpu_local == (if with_memory {
                Some(spec_gpu_local(mem_host_visible))
            } else {
                None
            }),
    {
        BufferPlan {
            create_info: BufferCreateInfo { size, usage: buffer_usage_flags },
            gpu_local: if with_memory {
                Some(gpu_local(mem_host_visible))
            } else {
                None
            },
        }
    }
}

} // verus!
