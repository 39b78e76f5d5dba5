//! Device memory: what is asked of the memory manager, writes into mapped memory,
//! and the list of allocations that wait to be released.
//!
//! An allocation that backs a resource must not be released while the device may
//! still use it. Releasing is therefore done in two steps. Destroying a resource
//! enqueues its allocation; the owner of the allocator processes the list once it
//! knows that the device is done with everything in it.

use vstd::prelude::*;

verus! {

/// Where an allocation lives.
#[derive(Debug, Clone, Copy, PartialEq, Eq, Structural)]
pub enum MemoryLocation {
    /// Memory that only the device reaches.
    GpuOnly,
    /// Memory that the host writes and the device reads.
    CpuToGpu,
}

/// What a resource needs of its memory (`VkMemoryRequirements`).
#[derive(Debug, Clone, Copy, PartialEq, Eq, Structural)]
pub struct MemoryRequirements {
    pub size: u64,
    pub alignment: u64,
    pub memory_type_bits: u32,
}

/// A request to the memory manager.
#[derive(Debug, Clone, PartialEq, Eq)]
pub struct AllocationRequest {
    pub name: String,
    pub requirements: MemoryRequirements,
    pub location: MemoryLocation,
    pub linear: bool,
}

/// Why the memory manager failed.
#[derive(Debug, Clone, PartialEq, Eq)]
pub enum AllocationError {
    OutOfMemory,
    FailedToMap(String),
    NoCompatibleMemoryTypeFound,
    InvalidAllocationCreateDesc,
    InvalidAllocatorCreateDesc(String),
    Internal(String),
    BarrierLayoutNeedsDevice10,
    CastableFormatsRequiresEnhancedBarriers,
    CastableFormatsRequiresAtLeastDevice12,
}

/// Why the allocator could not do what was asked of it.
#[derive(Debug, Clone, PartialEq, Eq)]
pub enum GAllocatorError {
    /// The memory manager could not be created.
    CreateError(AllocationError),
    /// The memory manager could not satisfy a request.
    MemoryAllocationError(AllocationError),
    /// The memory manager could not release an allocation.
    MemoryFreeError(AllocationError),
    MemoryNotFound,
    /// The allocation is not mapped into host memory.
    MemoryNotWritable,
    /// The data does not fit into the mapped region at the given offset.
    MemoryWriteError,
    /// The list of allocations to release could not be locked.
    TbdListLockError(String),
}

/// Where memory is asked for: memory of the device alone for a resource that the
/// device alone uses, host-written memory otherwise.
pub open spec fn spec_memory_location(gpu_local: bool) -> MemoryLocation {
    if gpu_local {
        MemoryLocation::GpuOnly
    } else {
        MemoryLocation::CpuToGpu
    }
}

/// The mapped region after `data` is written at `byte_offset`.
pub open spec fn written(region: Seq<u8>, byte_offset: int, data: Seq<u8>) -> Seq<u8> {
    Seq::new(
        region.len(),
        |i: int|
            if byte_offset <= i < byte_offset + data.len() {
                data[i - byte_offset]
            } else {
                region[i]
            },
    )
}

/// Whether `data` fits into the region at `byte_offset`.
pub open spec fn fits(region: Seq<u8>, byte_offset: int, data: Seq<u8>) -> bool {
    0 <= byte_offset && byte_offset + data.len() <= region.len()
}

/// Reading back what was written gives what was written: the region holds `data`
/// from `byte_offset` on, and is otherwise as before. Written at the start of the
/// region, `data` is the first bytes of the region.
pub proof fn lemma_write_round_trip(region: Seq<u8>, byte_offset: int, data: Seq<u8>)
    requires
        fits(region, byte_offset, data),
    ensures
        written(region, byte_offset, data).len() == region.len(),
        written(region, byte_offset, data).subrange(byte_offset, byte_offset + data.len())
            == data,
        written(region, byte_offset, data).take(byte_offset) == region.take(byte_offset),
        written(region, byte_offset, data).skip(byte_offset + data.len()) == region.skip(
            byte_offset + data.len(),
        ),
        byte_offset == 0 ==> written(region, byte_offset, data).take(data.len() as int) == data,
{
    let after = written(region, byte_offset, data);
    assert(after.subrange(byte_offset, byte_offset + data.len()) =~= data);
    assert(after.take(byte_offset) =~= region.take(byte_offset));
    assert(after.skip(byte_offset + data.len()) =~= region.skip(byte_offset + data.len()));
    if byte_offset == 0 {
        assert(after.take(data.len() as int) =~= data);
    }
}

/// Writes `data` into an allocation's mapped region at `byte_offset`. `mapped` is
/// the region, or `None` for an allocation that is not mapped into host memory.
pub fn write_to_mem(mapped: Option<&mut [u8]>, byte_offset: usize, data: &[u8]) -> (outcome: Result<
    (),
    GAllocatorError,
>)
    ensures
        mapped is None ==> outcome == Err::<(), GAllocatorError>(GAllocatorError::MemoryNotWritable),
        mapped is Some && !fits(mapped->0@, byte_offset as int, data@) ==> outcome == Err::<
            (),
            GAllocatorError,
        >(GAllocatorError::MemoryWriteError) && final(mapped->0)@ == mapped->0@,
        mapped is Some && fits(mapped->0@, byte_offset as int, data@) ==> outcome == Ok::<
            (),
            GAllocatorError,
        >(()) && final(mapped->0)@ == written(mapped->0@, byte_offset as int, data@),
{
    match mapped {
        None => Err(GAllocatorError::MemoryNotWritable),
        Some(region) => {
            if byte_offset > region.len() || data.len() > region.len() - byte_offset {
                return Err(GAllocatorError::MemoryWriteError);
            }
            let ghost before = region@;
            let mut i: usize = 0;
            while i < data.len()
                invariant
                    i <= data.len(),
                    byte_offset + data.len() <= region.len(),
                    region@.len() == before.len(),
                    region@ == written(before, byte_offset as int, data@.take(i as int)),
                decreases data.len() - i,
            {
                region[byte_offset + i] = data[i];
                i += 1;
                assert(region@ =~= written(before, byte_offset as int, data@.take(i as int)));
            }
            assert(data@.take(i as int) =~= data@);
            Ok(())
        },
    }
}

/// The allocator's side of the work: what it asks of the memory manager, and the
/// allocations that wait to be released. `A` is the memory manager's allocation.
pub struct GAllocator<A> {
    pending: Vec<A>,
}

impl<A> GAllocator<A> {
    /// The allocations that wait to be released, oldest first.
    pub closed spec fn pending(&self) -> Seq<A> {
        self.pending@
    }

    /// An allocator with nothing to release.
    pub fn new() -> (allocator: Self)
        ensures
            allocator.pending() == Seq::<A>::empty(),
    {
        GAllocator { pending: Vec::new() }
    }

    /// How many allocations wait to be released.
    pub fn pending_count(&self) -> (count: usize)
        ensures
            count == self.pending().len(),
    {
        self.pending.len()
    }

    /// The request to make of the memory manager for a resource with the given
    /// requirements.
    pub fn allocate_mem(
        &self,
        name: &str,
        requirements: MemoryRequirements,
        gpu_local: bool,
    ) -> (request: AllocationRequest)
        ensures
            request.name@ == name@,
            request.requirements == requirements,
            request.location == spec_memory_location(gpu_local),
            !request.linear,
    {
        let location = if gpu_local {
            MemoryLocation::GpuOnly
        } else {
            MemoryLocation::CpuToGpu
        };
        AllocationRequest { name: name.to_string(), requirements, location, linear: false }
    }

    /// What allocating comes to, given what the memory manager answered.
    pub fn allocation_outcome(answer: Result<A, AllocationError>) -> (outcome: Result<
        A,
        GAllocatorError,
    >)
        ensures
            outcome == (match answer {
                Ok(allocation) => Ok::<A, GAllocatorError>(allocation),
                Err(error) => Err(GAllocatorError::MemoryAllocationError(error)),
            }),
    {
        match answer {
            Ok(allocation) => Ok(allocation),
            Err(error) => Err(GAllocatorError::MemoryAllocationError(error)),
        }
    }

    /// Puts an allocation on the list of those to release. Nothing is released.
    pub fn enqueue_free(&mut self, allocation: A)
        ensures
            final(self).pending() == list_after_enqueue(old(self).pending(), allocation),
    {
        self.pending.push(allocation);
    }

    /// One step of releasing what is on the list. `last` is the memory manager's
    /// answer to releasing the allocation that the step before handed out, `None`
    /// at the first step. After a failed release the processing ends with that
    /// failure, and what is still on the list stays there for a later processing.
    /// Otherwise the oldest allocation is taken off the list and handed out, for
    /// the caller to release; `Ok(None)` says that the list is empty and the
    /// processing done. The caller must know that the device is done with what it
    /// releases.
    pub fn process_free_events(&mut self, last: Option<Result<(), AllocationError>>) -> (next:
        Result<Option<A>, GAllocatorError>)
        ensures
            (next, final(self).pending()) == process_step(old(self).pending(), last),
    {
        match last {
            Some(Err(error)) => Err(GAllocatorError::MemoryFreeError(error)),
            _ => {
                if self.pending.len() == 0 {
                    Ok(None)
                } else {
                    let next = self.pending.remove(0);
                    assert(self.pending@ =~= old(self).pending@.skip(1));
                    Ok(Some(next))
                }
            },
        }
    }
}

/// The list of pending allocations after one more is enqueued.
pub open spec fn list_after_enqueue<A>(pending: Seq<A>, allocation: A) -> Seq<A> {
    pending.push(allocation)
}

/// What one step of processing hands out, and the list after it. A failed
/// release ends the processing and leaves the list as it is; otherwise the oldest
/// allocation leaves the list, if there is one.
pub open spec fn process_step<A>(pending: Seq<A>, last: Option<Result<(), AllocationError>>) -> (
    Result<Option<A>, GAllocatorError>,
    Seq<A>,
) {
    match last {
        Some(Err(error)) => (Err(GAllocatorError::MemoryFreeError(error)), pending),
        _ => if pending.len() == 0 {
            (Ok(None), pending)
        } else {
            (Ok(Some(pending[0])), pending.skip(1))
        },
    }
}

/// The list after `steps` steps of processing before which no release failed.
pub open spec fn left_after<A>(pending: Seq<A>, steps: nat) -> Seq<A>
    decreases steps,
{
    if steps == 0 {
        pending
    } else {
        process_step(left_after(pending, (steps - 1) as nat), Some(Ok(()))).1
    }
}

/// While no release fails, processing hands out what is on the list one by one,
/// oldest first, each allocation once.
pub proof fn lemma_process_in_order<A>(pending: Seq<A>, steps: nat)
    requires
        steps <= pending.len(),
    ensures
        left_after(pending, steps) == pending.skip(steps as int),
        steps < pending.len() ==> process_step(left_after(pending, steps), Some(Ok(()))).0 == Ok::<
            Option<A>,
            GAllocatorError,
        >(Some(pending[steps as int])),
        steps == pending.len() ==> process_step(left_after(pending, steps), Some(Ok(()))) == (
            Ok::<Option<A>, GAllocatorError>(None),
            Seq::<A>::empty(),
        ),
    decreases steps,
{
    if steps == 0 {
        assert(pending.skip(0) =~= pending);
    } else {
        lemma_process_in_order(pending, (steps - 1) as nat);
        assert(pending.skip(steps - 1).skip(1) =~= pending.skip(steps as int));
    }
    assert(pending.skip(pending.len() as int) =~= Seq::<A>::empty());
}

/// An allocation that is enqueued and then processed is released, and once only.
/// It is handed out after everything that was enqueued before it, and the list
/// is then empty; processing an empty list hands out nothing and leaves the list
/// empty. A failed release ends a processing and takes nothing off the list.
pub proof fn lemma_free_then_process<A>(pending: Seq<A>, allocation: A)
    ensures
        ({
            let list = list_after_enqueue(pending, allocation);
            &&& left_after(list, pending.len()) == seq![allocation]
            &&& process_step(left_after(list, pending.len()), Some(Ok(()))) == (
                Ok::<Option<A>, GAllocatorError>(Some(allocation)),
                Seq::<A>::empty(),
            )
            &&& left_after(list, pending.len() + 1) == Seq::<A>::empty()
            &&& process_step(Seq::<A>::empty(), None) == (
                Ok::<Option<A>, GAllocatorError>(None),
                Seq::<A>::empty(),
            )
            &&& forall|left: Seq<A>, error: AllocationError|
                #[trigger] process_step(left, Some(Err(error))) == (
                    Err::<Option<A>, GAllocatorError>(GAllocatorError::MemoryFreeError(error)),
                    left,
                )
        }),
{
    let list = list_after_enqueue(pending, allocation);
    lemma_process_in_order(list, pending.len());
    lemma_process_in_order(list, pending.len() + 1);
    assert(list.skip(pending.len() as int) =~= seq![allocation]);
    assert(seq![allocation].skip(1) =~= Seq::<A>::empty());
}

} // verus!
