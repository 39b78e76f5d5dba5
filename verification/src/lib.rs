//! A painter for an explicit graphics API: what to ask of the device, in what
//! order, and with which barriers in between.
//!
//! The library decides; it does not talk to the device. Its functions take the
//! device's answers as plain values and say what to do next: what to create, which
//! commands to put into a command buffer, what to release. Handles are raw 64-bit
//! values and enumerants and flags are the API's numbers (see [`vulkan`]).
//!
//! The heart of it is the command recorder ([`recorder`]): from a list of
//! declarative commands it derives, for every image, the states that the image
//! goes through, and lays out the device's command stream with one barrier for
//! each change of state. What holds of those barriers for every command list is
//! proved in [`barrier_laws`] and [`independence_laws`].

pub mod allocator;
pub mod barrier_laws;
pub mod buffer;
pub mod command;
pub mod image;
pub mod image_index;
pub mod independence_laws;
pub mod mesh_painter;
pub mod painter;
pub mod recorder;
pub mod render_pipeline;
pub mod shader_input;
pub mod sheets;
pub mod sync;
pub mod vulkan;
