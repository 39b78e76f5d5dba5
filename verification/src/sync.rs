//! Futures: the signals that order the host and the device.
//!
//! A `CpuFuture` is a signal that the host waits on; a `GpuFuture` orders work on
//! the device and is never waited on by the host. The device signals a future
//! when the work it was handed to completes. A `CpuFuture` stays signalled until
//! the host resets it.
//!
//! The library keeps the host's record of each future. The calls to the device
//! are made by the caller, who hands the device's answers in.

use vstd::prelude::*;
use crate::painter::{Painter, PainterDelete};
use crate::vulkan;

verus! {

/// Whether a future is signalled.
#[derive(Debug, Clone, Copy, PartialEq, Eq, Structural)]
pub enum SignalState {
    Unsignaled,
    Signaled,
}

/// Why a host-waitable future could not be created, waited for or reset.
#[derive(Debug, Clone, Copy, PartialEq, Eq, Structural)]
pub enum CpuFutureError {
    /// The device could not create the fence; its result code.
    CreateError(i32),
    /// The device failed while the host waited; its result code.
    WaitError(i32),
    /// The device refused to reset the fence; its result code.
    ResetError(i32),
}

/// Why a device-side future could not be created.
#[derive(Debug, Clone, Copy, PartialEq, Eq, Structural)]
pub enum GpuFutureError {
    /// The device could not create the semaphore; its result code.
    CreateError(i32),
}

/// The state of a new future.
pub open spec fn initial_state(signaled: bool) -> SignalState {
    if signaled {
        SignalState::Signaled
    } else {
        SignalState::Unsignaled
    }
}

/// Whether a wait on a future in this state returns without a signal from the
/// device.
pub open spec fn wait_returns(state: SignalState) -> bool {
    state == SignalState::Signaled
}

/// The state after the device has signalled.
pub open spec fn after_signal(state: SignalState) -> SignalState {
    SignalState::Signaled
}

/// The state after a wait has returned: the future is signalled, whether it was so
/// before or the device signalled it during the wait.
pub open spec fn after_wait(state: SignalState) -> SignalState {
    SignalState::Signaled
}

/// The state after the host has reset the future.
pub open spec fn after_reset(state: SignalState) -> SignalState {
    SignalState::Unsignaled
}

/// Waiting does not use a signal up: once a wait has returned, every further wait
/// returns, without a new signal, until the future is reset. After a wait and a
/// reset, a wait returns only once the device has signalled anew.
pub proof fn lemma_signal_persists(state: SignalState)
    ensures
        wait_returns(after_wait(state)),
        wait_returns(after_wait(after_wait(state))),
        after_wait(after_wait(state)) == after_wait(state),
        !wait_returns(after_reset(after_wait(state))),
        wait_returns(after_signal(after_reset(after_wait(state)))),
{
}

/// The host's record of a signal that it can wait on.
#[derive(Debug, Clone, Copy, PartialEq, Eq, Structural)]
pub struct CpuFuture {
    pub fence: u64,
    pub state: SignalState,
}

/// The host's record of a signal between pieces of work on the device.
#[derive(Debug, Clone, Copy, PartialEq, Eq, Structural)]
pub struct GpuFuture {
    pub semaphore: u64,
}

/// The flags to create a fence with.
pub open spec fn spec_fence_create_flags(signaled: bool) -> u32 {
    if signaled {
        vulkan::FENCE_CREATE_SIGNALED
    } else {
        vulkan::FENCE_CREATE_NONE
    }
}

pub fn fence_create_flags(signaled: bool) -> (flags: u32)
    ensures
        flags == spec_fence_create_flags(signaled),
{
    if signaled {
        vulkan::FENCE_CREATE_SIGNALED
    } else {
        vulkan::FENCE_CREATE_NONE
    }
}

/// What the caller asks of the device next while it recycles a future.
#[derive(Debug, Clone, Copy, PartialEq, Eq, Structural)]
pub enum Recycle {
    /// Wait for the fence.
    Wait,
    /// Reset the fence.
    Reset,
    /// Nothing: the future is ready for reuse.
    Done,
}

impl CpuFuture {
    /// Notes that the device has signalled the future.
    pub fn signal(&mut self)
        ensures
            final(self).fence == old(self).fence,
            final(self).state == after_signal(old(self).state),
    {
        self.state = SignalState::Signaled;
    }

    /// What is to be destroyed when the future is given up.
    pub fn delete_event(&self) -> (event: PainterDelete)
        ensures
            event == PainterDelete::Fence(self.fence),
    {
        PainterDelete::Fence(self.fence)
    }

    /// Whether a wait returns at once.
    pub fn is_signaled(&self) -> (signaled: bool)
        ensures
            signaled == wait_returns(self.state),
    {
        self.state == SignalState::Signaled
    }
}

impl GpuFuture {
    /// What is to be destroyed when the future is given up.
    pub fn delete_event(&self) -> (event: PainterDelete)
        ensures
            event == PainterDelete::Semaphore(self.semaphore),
    {
        PainterDelete::Semaphore(self.semaphore)
    }
}

impl Painter {
    /// The record of a new future, given the device's answer to creating its
    /// fence: the handle, or a result code.
    pub fn create_cpu_future(&self, signaled: bool, created: Result<u64, i32>) -> (future: Result<
        CpuFuture,
        CpuFutureError,
    >)
        ensures
            future == (match created {
                Ok(fence) => Ok::<CpuFuture, CpuFutureError>(
                    CpuFuture { fence, state: initial_state(signaled) },
                ),
                Err(code) => Err(CpuFutureError::CreateError(code)),
            }),
    {
        match created {
            Ok(fence) => Ok(
                CpuFuture {
                    fence,
                    state: if signaled {
                        SignalState::Signaled
                    } else {
                        SignalState::Unsignaled
                    },
                },
            ),
            Err(code) => Err(CpuFutureError::CreateError(code)),
        }
    }

    /// Notes the outcome of a wait, given the device's answer: a wait that returned
    /// has seen the signal; one that failed has changed nothing.
    pub fn cpu_future_wait(&self, cpu_future: &mut CpuFuture, answer: Result<(), i32>) -> (outcome:
        Result<(), CpuFutureError>)
        ensures
            final(cpu_future).fence == old(cpu_future).fence,
            outcome == (match answer {
                Ok(()) => Ok::<(), CpuFutureError>(()),
                Err(code) => Err(CpuFutureError::WaitError(code)),
            }),
            final(cpu_future).state == (match answer {
                Ok(()) => after_wait(old(cpu_future).state),
                Err(_) => old(cpu_future).state,
            }),
    {
        match answer {
            Ok(()) => {
                cpu_future.state = SignalState::Signaled;
                Ok(())
            },
            Err(code) => Err(CpuFutureError::WaitError(code)),
        }
    }

    /// Notes the outcome of a reset, given the device's answer.
    pub fn cpu_future_reset(&self, cpu_future: &mut CpuFuture, answer: Result<(), i32>) -> (outcome:
        Result<(), CpuFutureError>)
        ensures
            final(cpu_future).fence == old(cpu_future).fence,
            outcome == (match answer {
                Ok(()) => Ok::<(), CpuFutureError>(()),
                Err(code) => Err(CpuFutureError::ResetError(code)),
            }),
            final(cpu_future).state == (match answer {
                Ok(()) => after_reset(old(cpu_future).state),
                Err(_) => old(cpu_future).state,
            }),
    {
        match answer {
            Ok(()) => {
                cpu_future.state = SignalState::Unsignaled;
                Ok(())
            },
            Err(code) => Err(CpuFutureError::ResetError(code)),
        }
    }

    /// One step of recycling a future before reuse: wait, then reset. `asked` is
    /// what the device was asked, `answer` what it answered; the result is what to
    /// ask next. A failed wait ends the recycling: the fence is not reset.
    pub fn cpu_future_wait_and_reset(
        &self,
        cpu_future: &mut CpuFuture,
        asked: Recycle,
        answer: Result<(), i32>,
    ) -> (next: Result<Recycle, CpuFutureError>)
        ensures
            final(cpu_future).fence == old(cpu_future).fence,
            next == (match (asked, answer) {
                (Recycle::Wait, Ok(())) => Ok::<Recycle, CpuFutureError>(Recycle::Reset),
                (Recycle::Wait, Err(code)) => Err(CpuFutureError::WaitError(code)),
                (Recycle::Reset, Ok(())) => Ok(Recycle::Done),
                (Recycle::Reset, Err(code)) => Err(CpuFutureError::ResetError(code)),
                (Recycle::Done, _) => Ok(Recycle::Done),
            }),
            final(cpu_future).state == (match (asked, answer) {
                (Recycle::Wait, Ok(())) => after_wait(old(cpu_future).state),
                (Recycle::Reset, Ok(())) => after_reset(old(cpu_future).state),
                _ => old(cpu_future).state,
            }),
    {
        match asked {
            Recycle::Wait => match self.cpu_future_wait(cpu_future, answer) {
                Ok(()) => Ok(Recycle::Reset),
                Err(error) => Err(error),
            },
            Recycle::Reset => match self.cpu_future_reset(cpu_future, answer) {
                Ok(()) => Ok(Recycle::Done),
                Err(error) => Err(error),
            },
            Recycle::Done => Ok(Recycle::Done),
        }
    }

    /// The record of a new future, given the device's answer to creating its
    /// semaphore: the handle, or a result code. A new semaphore is unsignalled.
    pub fn create_gpu_future(&self, created: Result<u64, i32>) -> (future: Result<
        GpuFuture,
        GpuFutureError,
    >)
        ensures
            future == (match created {
                Ok(semaphore) => Ok::<GpuFuture, GpuFutureError>(GpuFuture { semaphore }),
                Err(code) => Err(GpuFutureError::CreateError(code)),
            }),
    {
        match created {
            Ok(semaphore) => Ok(GpuFuture { semaphore }),
            Err(code) => Err(GpuFutureError::CreateError(code)),
        }
    }
}

} // verus!
