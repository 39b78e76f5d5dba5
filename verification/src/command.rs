//! Declarative commands and the device commands that they stand for.

use vstd::prelude::*;
use crate::buffer::Buffer;
use crate::image::{Image2d, ImageAccess};
use crate::painter::{Painter, PainterDelete};
use crate::sync::{CpuFuture, GpuFuture};
use crate::vulkan;
use crate::vulkan::{Extent2D, Extent3D, ImageSubresourceLayers, ImageSubresourceRange, Offset3D};

verus! {

/// What a render pass clears an attachment to: the four 32-bit words of the value,
/// as the device reads them (a colour's channels, or depth and stencil).
#[derive(Debug, Clone, Copy, PartialEq, Eq)]
pub struct ClearValue {
    pub words: [u32; 4],
}

/// The framebuffer that a render pass draws into, and its size.
#[derive(Debug, Clone, Copy, PartialEq, Eq, Structural)]
pub struct RenderOutput {
    pub extent: Extent2D,
    pub render_pass: u64,
    pub framebuffer: u64,
}

/// A state that a command needs an image in, and the state that it assumes the
/// image to be in beforehand, if it declares one.
#[derive(Debug, Clone, Copy, PartialEq, Eq)]
pub struct ImageTransitionInfo<'a> {
    pub image: &'a Image2d,
    pub old_access: Option<ImageAccess>,
    pub new_access: Option<ImageAccess>,
}

/// The offsets at which buffers are bound, one for each buffer: `count` offsets,
/// each of them `each`.
#[derive(Debug, Clone, Copy, PartialEq, Eq, Structural)]
pub struct BufferOffsets {
    pub count: usize,
    pub each: u64,
}

impl View for BufferOffsets {
    type V = Seq<u64>;

    /// The offsets, in the order of the buffers.
    open spec fn view(&self) -> Seq<u64> {
        Seq::new(self.count as nat, |i: int| self.each)
    }
}

impl BufferOffsets {
    /// The offsets as the device takes them, in the order of the buffers.
    pub fn to_vec(&self) -> (offsets: Vec<u64>)
        ensures
            offsets@ == self@,
    {
        let mut offsets: Vec<u64> = Vec::new();
        let mut i: usize = 0;
        while i < self.count
            invariant
                i <= self.count,
                offsets@ == Seq::new(i as nat, |k: int| self.each),
            decreases self.count - i,
        {
            offsets.push(self.each);
            i += 1;
            assert(offsets@ =~= Seq::new(i as nat, |k: int| self.each));
        }
        offsets
    }
}

/// One command in the linear stream that the device executes.
#[derive(Debug, Clone, Copy, PartialEq, Eq)]
#[allow(inconsistent_fields)]
pub enum DeviceCommand<'a> {
    PipelineBarrier {
        image: u64,
        src_stage_mask: u32,
        dst_stage_mask: u32,
        dependency_flags: u32,
        src_access_mask: u32,
        dst_access_mask: u32,
        old_layout: i32,
        new_layout: i32,
        subresource_range: ImageSubresourceRange,
    },
    BlitImage {
        src_image: u64,
        src_image_layout: i32,
        dst_image: u64,
        dst_image_layout: i32,
        src_subresource: ImageSubresourceLayers,
        dst_subresource: ImageSubresourceLayers,
        src_offsets: [Offset3D; 2],
        dst_offsets: [Offset3D; 2],
        filter: i32,
    },
    BeginRenderPass {
        render_pass: u64,
        framebuffer: u64,
        render_area: Extent2D,
        clear_values: &'a Vec<ClearValue>,
        contents: i32,
    },
    SetViewport { width: u32, height: u32 },
    SetScissor { extent: Extent2D },
    BindPipeline { bind_point: i32, pipeline: u64 },
    BindDescriptorSets {
        bind_point: i32,
        layout: u64,
        first_set: u32,
        descriptor_sets: &'a Vec<u64>,
    },
    /// Binds the buffers in order from `first_binding` on, each at its offset.
    BindVertexBuffers { first_binding: u32, buffers: &'a Vec<&'a Buffer>, offsets: BufferOffsets },
    BindIndexBuffer { buffer: u64, offset: u64, index_type: i32 },
    PushConstants { layout: u64, stage_flags: u32, offset: u32, data: &'a Vec<u8> },
    DrawIndexed {
        index_count: u32,
        instance_count: u32,
        first_index: u32,
        vertex_offset: i32,
        first_instance: u32,
    },
    EndRenderPass,
    CopyBufferToImage {
        buffer: u64,
        image: u64,
        image_layout: i32,
        buffer_offset: u64,
        buffer_row_length: u32,
        buffer_image_height: u32,
        image_subresource: ImageSubresourceLayers,
        image_offset: Offset3D,
        image_extent: Extent3D,
    },
}

/// Why a render-pass command names nothing that the pass holds.
#[derive(Debug, Clone, Copy, PartialEq, Eq, Structural)]
pub enum PassCommandError {
    UnknownPipeline { pipeline: usize },
    UnknownPipelineLayout { pipeline_layout: usize },
}

/// A command inside a render pass. Pipelines and pipeline layouts are named by
/// their position in the lists that the pass carries.
#[derive(Debug, Clone, PartialEq, Eq)]
pub enum GpuRenderPassCommand<'a> {
    BindPipeline { pipeline: usize },
    BindShaderInput { pipeline_layout: usize, descriptor_sets: Vec<u64> },
    BindVertexBuffers { buffers: Vec<&'a Buffer> },
    BindIndexBuffer { buffer: &'a Buffer },
    SetPushConstant { pipeline_layout: usize, data: Vec<u8> },
    Draw { count: u32, vertex_offset: i32, index_offset: u32 },
}

impl<'a> GpuRenderPassCommand<'a> {
    /// What is wrong with the command among the given pipelines and layouts, if
    /// anything is.
    pub open spec fn fault(self, pipelines: Seq<u64>, pipeline_layouts: Seq<u64>) -> Option<
        PassCommandError,
    > {
        match self {
            GpuRenderPassCommand::BindPipeline { pipeline } => if pipeline < pipelines.len() {
                None
            } else {
                Some(PassCommandError::UnknownPipeline { pipeline })
            },
            GpuRenderPassCommand::BindShaderInput { pipeline_layout, .. } => if pipeline_layout
                < pipeline_layouts.len() {
                None
            } else {
                Some(PassCommandError::UnknownPipelineLayout { pipeline_layout })
            },
            GpuRenderPassCommand::SetPushConstant { pipeline_layout, .. } => if pipeline_layout
                < pipeline_layouts.len() {
                None
            } else {
                Some(PassCommandError::UnknownPipelineLayout { pipeline_layout })
            },
            _ => None,
        }
    }

    /// The device command that the command stands for. Pipelines are bound for
    /// drawing. Vertex buffers are bound in order from binding 0, and the index
    /// buffer is bound with 32-bit indices, each from its start. Shader inputs are
    /// bound from set 0, and push constants are written from the start, for every
    /// shader stage. A draw draws one instance.
    pub open spec fn device_command(
        self,
        pipelines: Seq<u64>,
        pipeline_layouts: Seq<u64>,
    ) -> DeviceCommand<'a> {
        match self {
            GpuRenderPassCommand::BindPipeline { pipeline } => DeviceCommand::BindPipeline {
                bind_point: vulkan::PIPELINE_BIND_POINT_GRAPHICS,
                pipeline: pipelines[pipeline as int],
            },
            GpuRenderPassCommand::BindShaderInput {
                pipeline_layout,
                descriptor_sets,
            } => DeviceCommand::BindDescriptorSets {
                bind_point: vulkan::PIPELINE_BIND_POINT_GRAPHICS,
                layout: pipeline_layouts[pipeline_layout as int],
                first_set: 0,
                descriptor_sets: &descriptor_sets,
            },
            GpuRenderPassCommand::BindVertexBuffers { buffers } => DeviceCommand::BindVertexBuffers {
                first_binding: 0,
                buffers: &buffers,
                offsets: BufferOffsets { count: buffers@.len() as usize, each: 0 },
            },
            GpuRenderPassCommand::BindIndexBuffer { buffer } => DeviceCommand::BindIndexBuffer {
                buffer: buffer.buffer,
                offset: 0,
                index_type: vulkan::INDEX_TYPE_UINT32,
            },
            GpuRenderPassCommand::SetPushConstant {
                pipeline_layout,
                data,
            } => DeviceCommand::PushConstants {
                layout: pipeline_layouts[pipeline_layout as int],
                stage_flags: vulkan::SHADER_STAGE_ALL,
                offset: 0,
                data: &data,
            },
            GpuRenderPassCommand::Draw {
                count,
                vertex_offset,
                index_offset,
            } => DeviceCommand::DrawIndexed {
                index_count: count,
                instance_count: 1,
                first_index: index_offset,
                vertex_offset,
                first_instance: 0,
            },
        }
    }

    /// Turns the command into the device command that it stands for, or says which
    /// pipeline or layout it names that the pass does not hold.
    pub fn apply_command(&'a self, pipelines: &[u64], pipeline_layouts: &[u64]) -> (applied: Result<
        DeviceCommand<'a>,
        PassCommandError,
    >)
        ensures
            applied == (match self.fault(pipelines@, pipeline_layouts@) {
                Some(error) => Err::<DeviceCommand<'a>, PassCommandError>(error),
                None => Ok(self.device_command(pipelines@, pipeline_layouts@)),
            }),
    {
        match self {
            GpuRenderPassCommand::BindPipeline { pipeline } => {
                if *pipeline < pipelines.len() {
                    Ok(
                        DeviceCommand::BindPipeline {
                            bind_point: vulkan::PIPELINE_BIND_POINT_GRAPHICS,
                            pipeline: pipelines[*pipeline],
                        },
                    )
                } else {
                    Err(PassCommandError::UnknownPipeline { pipeline: *pipeline })
                }
            },
            GpuRenderPassCommand::BindShaderInput { pipeline_layout, descriptor_sets } => {
                if *pipeline_layout < pipeline_layouts.len() {
                    Ok(
                        DeviceCommand::BindDescriptorSets {
                            bind_point: vulkan::PIPELINE_BIND_POINT_GRAPHICS,
                            layout: pipeline_layouts[*pipeline_layout],
                            first_set: 0,
                            descriptor_sets,
                        },
                    )
                } else {
                    Err(
                        PassCommandError::UnknownPipelineLayout {
                            pipeline_layout: *pipeline_layout,
                        },
                    )
                }
            },
            GpuRenderPassCommand::BindVertexBuffers { buffers } => {
                Ok(
                    DeviceCommand::BindVertexBuffers {
                        first_binding: 0,
                        buffers,
                        offsets: BufferOffsets { count: buffers.len(), each: 0 },
                    },
                )
            },
            GpuRenderPassCommand::BindIndexBuffer { buffer } => {
                Ok(
                    DeviceCommand::BindIndexBuffer {
                        buffer: buffer.buffer,
                        offset: 0,
                        index_type: vulkan::INDEX_TYPE_UINT32,
                    },
                )
            },
            GpuRenderPassCommand::SetPushConstant { pipeline_layout, data } => {
                if *pipeline_layout < pipeline_layouts.len() {
                    Ok(
                        DeviceCommand::PushConstants {
                            layout: pipeline_layouts[*pipeline_layout],
                            stage_flags: vulkan::SHADER_STAGE_ALL,
                            offset: 0,
                            data,
                        },
                    )
                } else {
                    Err(
                        PassCommandError::UnknownPipelineLayout {
                            pipeline_layout: *pipeline_layout,
                        },
                    )
                }
            },
            GpuRenderPassCommand::Draw { count, vertex_offset, index_offset } => {
                Ok(
                    DeviceCommand::DrawIndexed {
                        index_count: *count,
                        instance_count: 1,
                        first_index: *index_offset,
                        vertex_offset: *vertex_offset,
                        first_instance: 0,
                    },
                )
            },
        }
    }
}

/// A declarative command. The order of the commands in a list is the order in
/// which the device executes them.
#[derive(Debug, Clone, PartialEq, Eq)]
pub enum GpuCommand<'a> {
    /// Declares that the image starts with undefined contents and is needed in
    /// `access`.
    ImageAccessInit { image: &'a Image2d, access: ImageAccess },
    /// Declares that the image is needed in `access` from here on.
    ImageAccessHint { image: &'a Image2d, access: ImageAccess },
    /// Copies the whole of `src`, scaled, over the whole of `dst`.
    BlitFullImage { src: &'a Image2d, dst: &'a Image2d },
    /// Runs a render pass over `render_output`.
    RunRenderPass {
        render_pass: u64,
        render_output: &'a RenderOutput,
        clear_values: Vec<ClearValue>,
        pipelines: Vec<u64>,
        pipeline_layouts: Vec<u64>,
        commands: Vec<GpuRenderPassCommand<'a>>,
    },
    /// Fills the whole image from the start of the buffer.
    CopyBufferToImageComplete { buffer: &'a Buffer, image: &'a Image2d },
}

impl<'a> GpuCommand<'a> {
    /// The states that the command needs images in, in the order in which it
    /// declares them. A render pass declares none: its attachments are declared by
    /// the commands around it.
    pub open spec fn transitions(self) -> Seq<ImageTransitionInfo<'a>> {
        match self {
            GpuCommand::ImageAccessInit { image, access } => seq![
                ImageTransitionInfo {
                    image,
                    old_access: Some(ImageAccess::NoAccess),
                    new_access: Some(access),
                },
            ],
            GpuCommand::ImageAccessHint { image, access } => seq![
                ImageTransitionInfo { image, old_access: None, new_access: Some(access) },
            ],
            GpuCommand::BlitFullImage { src, dst } => seq![
                ImageTransitionInfo {
                    image: src,
                    old_access: None,
                    new_access: Some(ImageAccess::TransferRead),
                },
                ImageTransitionInfo {
                    image: dst,
                    old_access: None,
                    new_access: Some(ImageAccess::TransferWrite),
                },
            ],
            GpuCommand::RunRenderPass { .. } => seq![],
            GpuCommand::CopyBufferToImageComplete { image, .. } => seq![
                ImageTransitionInfo {
                    image,
                    old_access: None,
                    new_access: Some(ImageAccess::TransferWrite),
                },
            ],
        }
    }

    /// The states that the command declares, in order.
    pub fn access_transitions(&self) -> (transitions: Vec<ImageTransitionInfo<'a>>)
        ensures
            transitions@ == self.transitions(),
    {
        let mut transitions: Vec<ImageTransitionInfo<'a>> = Vec::new();
        match self {
            GpuCommand::ImageAccessInit { image, access } => {
                transitions.push(
                    ImageTransitionInfo {
                        image,
                        old_access: Some(ImageAccess::NoAccess),
                        new_access: Some(*access),
                    },
                );
            },
            GpuCommand::ImageAccessHint { image, access } => {
                transitions.push(
                    ImageTransitionInfo { image, old_access: None, new_access: Some(*access) },
                );
            },
            GpuCommand::BlitFullImage { src, dst } => {
                transitions.push(
                    ImageTransitionInfo {
                        image: src,
                        old_access: None,
                        new_access: Some(ImageAccess::TransferRead),
                    },
                );
                transitions.push(
                    ImageTransitionInfo {
                        image: dst,
                        old_access: None,
                        new_access: Some(ImageAccess::TransferWrite),
                    },
                );
            },
            GpuCommand::RunRenderPass { .. } => {},
            GpuCommand::CopyBufferToImageComplete { image, .. } => {
                transitions.push(
                    ImageTransitionInfo {
                        image,
                        old_access: None,
                        new_access: Some(ImageAccess::TransferWrite),
                    },
                );
            },
        }
        assert(transitions@ =~= self.transitions());
        transitions
    }
}

/// The first command of a render pass that names a pipeline or layout which the
/// pass does not hold, with its position; `None` if there is no such command.
pub open spec fn pass_fault(
    commands: Seq<GpuRenderPassCommand>,
    pipelines: Seq<u64>,
    pipeline_layouts: Seq<u64>,
) -> Option<(usize, PassCommandError)>
    decreases commands.len(),
{
    if commands.len() == 0 {
        None
    } else {
        match pass_fault(commands.drop_last(), pipelines, pipeline_layouts) {
            Some(fault) => Some(fault),
            None => match commands.last().fault(pipelines, pipeline_layouts) {
                Some(error) => Some(((commands.len() - 1) as usize, error)),
                None => None,
            },
        }
    }
}

/// A fault among the first commands of a pass is the fault of the pass.
pub proof fn lemma_pass_fault_stays(
    commands: Seq<GpuRenderPassCommand>,
    pipelines: Seq<u64>,
    pipeline_layouts: Seq<u64>,
    n: int,
)
    requires
        0 <= n <= commands.len(),
        pass_fault(commands.take(n), pipelines, pipeline_layouts) is Some,
    ensures
        pass_fault(commands, pipelines, pipeline_layouts) == pass_fault(
            commands.take(n),
            pipelines,
            pipeline_layouts,
        ),
    decreases commands.len(),
{
    if n == commands.len() {
        assert(commands.take(n) =~= commands);
    } else {
        assert(commands.drop_last().take(n) =~= commands.take(n));
        lemma_pass_fault_stays(commands.drop_last(), pipelines, pipeline_layouts, n);
    }
}

impl<'a> GpuCommand<'a> {
    /// The first fault in the command's render pass, if the command is a render
    /// pass and has one.
    pub open spec fn fault(self) -> Option<(usize, PassCommandError)> {
        match self {
            GpuCommand::RunRenderPass {
                pipelines,
                pipeline_layouts,
                commands,
                ..
            } => pass_fault(commands@, pipelines@, pipeline_layouts@),
            _ => None,
        }
    }

    /// The device commands that the command stands for. A declaration stands for
    /// none. A render pass begins, sets viewport and scissor to the whole of its
    /// output, runs its commands in order, and ends.
    pub open spec fn device_commands(self) -> Seq<DeviceCommand<'a>> {
        match self {
            GpuCommand::ImageAccessInit { .. } => seq![],
            GpuCommand::ImageAccessHint { .. } => seq![],
            GpuCommand::BlitFullImage { src, dst } => seq![
                DeviceCommand::BlitImage {
                    src_image: src.image,
                    src_image_layout: vulkan::IMAGE_LAYOUT_TRANSFER_SRC_OPTIMAL,
                    dst_image: dst.image,
                    dst_image_layout: vulkan::IMAGE_LAYOUT_TRANSFER_DST_OPTIMAL,
                    src_subresource: Image2d::subresource_layers_of(src.format),
                    dst_subresource: Image2d::subresource_layers_of(dst.format),
                    src_offsets: src.spec_full_size_offset(),
                    dst_offsets: dst.spec_full_size_offset(),
                    filter: vulkan::FILTER_NEAREST,
                },
            ],
            GpuCommand::RunRenderPass {
                render_pass,
                render_output,
                clear_values,
                pipelines,
                pipeline_layouts,
                commands,
            } => seq![
                DeviceCommand::BeginRenderPass {
                    render_pass,
                    framebuffer: render_output.framebuffer,
                    render_area: render_output.extent,
                    clear_values: &clear_values,
                    contents: vulkan::SUBPASS_CONTENTS_INLINE,
                },
                DeviceCommand::SetViewport {
                    width: render_output.extent.width,
                    height: render_output.extent.height,
                },
                DeviceCommand::SetScissor { extent: render_output.extent },
            ] + Seq::new(
                commands@.len(),
                |i: int| commands@[i].device_command(pipelines@, pipeline_layouts@),
            ) + seq![DeviceCommand::EndRenderPass],
            GpuCommand::CopyBufferToImageComplete { buffer, image } => seq![
                DeviceCommand::CopyBufferToImage {
                    buffer: buffer.buffer,
                    image: image.image,
                    image_layout: vulkan::IMAGE_LAYOUT_TRANSFER_DST_OPTIMAL,
                    buffer_offset: 0,
                    buffer_row_length: 0,
                    buffer_image_height: 0,
                    image_subresource: Image2d::subresource_layers_of(image.format),
                    image_offset: Offset3D { x: 0, y: 0, z: 0 },
                    image_extent: image.spec_extent3d(),
                },
            ],
        }
    }

    /// Appends the device commands that the command stands for to the stream. A
    /// render pass with a fault is refused; the stream is then of no use.
    pub fn emit(&'a self, stream: &mut Vec<DeviceCommand<'a>>) -> (emitted: Result<
        (),
        (usize, PassCommandError),
    >)
        ensures
            match self.fault() {
                Some(fault) => emitted == Err::<(), (usize, PassCommandError)>(fault),
                None => emitted is Ok && final(stream)@ == old(stream)@ + self.device_commands(),
            },
    {
        match self {
            GpuCommand::ImageAccessInit { .. } => {
                assert(stream@ =~= old(stream)@ + self.device_commands());
            },
            GpuCommand::ImageAccessHint { .. } => {
                assert(stream@ =~= old(stream)@ + self.device_commands());
            },
            GpuCommand::BlitFullImage { src, dst } => {
                stream.push(
                    DeviceCommand::BlitImage {
                        src_image: src.image,
                        src_image_layout: vulkan::IMAGE_LAYOUT_TRANSFER_SRC_OPTIMAL,
                        dst_image: dst.image,
                        dst_image_layout: vulkan::IMAGE_LAYOUT_TRANSFER_DST_OPTIMAL,
                        src_subresource: src.get_subresource_layers(),
                        dst_subresource: dst.get_subresource_layers(),
                        src_offsets: src.get_full_size_offset(),
                        dst_offsets: dst.get_full_size_offset(),
                        filter: vulkan::FILTER_NEAREST,
                    },
                );
                assert(stream@ =~= old(stream)@ + self.device_commands());
            },
            GpuCommand::RunRenderPass {
                render_pass,
                render_output,
                clear_values,
                pipelines,
                pipeline_layouts,
                commands,
            } => {
                stream.push(
                    DeviceCommand::BeginRenderPass {
                        render_pass: *render_pass,
                        framebuffer: render_output.framebuffer,
                        render_area: render_output.extent,
                        clear_values,
                        contents: vulkan::SUBPASS_CONTENTS_INLINE,
                    },
                );
                stream.push(
                    DeviceCommand::SetViewport {
                        width: render_output.extent.width,
                        height: render_output.extent.height,
                    },
                );
                stream.push(DeviceCommand::SetScissor { extent: render_output.extent });
                let ghost head = stream@;
                let mut i: usize = 0;
                while i < commands.len()
                    invariant
                        i <= commands.len(),
                        self.fault() == pass_fault(commands@, pipelines@, pipeline_layouts@),
                        pass_fault(commands@.take(i as int), pipelines@, pipeline_layouts@) is None,
                        stream@ == head + Seq::new(
                            i as nat,
                            |k: int| commands@[k].device_command(pipelines@, pipeline_layouts@),
                        ),
                    decreases commands.len() - i,
                {
                    let ghost next = commands@.take(i + 1);
                    assert(next.drop_last() =~= commands@.take(i as int));
                    assert(next.last() == commands@[i as int]);
                    match commands[i].apply_command(pipelines.as_slice(), pipeline_layouts.as_slice()) {
                        Ok(command) => {
                            stream.push(command);
                        },
                        Err(error) => {
                            proof {
                                assert(commands@[i as int].fault(pipelines@, pipeline_layouts@)
                                    == Some(error));
                                assert(pass_fault(next, pipelines@, pipeline_layouts@) == Some(
                                    (i, error),
                                ));
                                lemma_pass_fault_stays(
                                    commands@,
                                    pipelines@,
                                    pipeline_layouts@,
                                    i + 1,
                                );
                            }
                            return Err((i, error));
                        },
                    }
                    i += 1;
                }
                stream.push(DeviceCommand::EndRenderPass);
                assert(commands@.take(i as int) =~= commands@);
                assert(stream@ =~= old(stream)@ + self.device_commands());
            },
            GpuCommand::CopyBufferToImageComplete { buffer, image } => {
                stream.push(
                    DeviceCommand::CopyBufferToImage {
                        buffer: buffer.buffer,
                        image: image.image,
                        image_layout: vulkan::IMAGE_LAYOUT_TRANSFER_DST_OPTIMAL,
                        buffer_offset: 0,
                        buffer_row_length: 0,
                        buffer_image_height: 0,
                        image_subresource: image.get_subresource_layers(),
                        image_offset: Offset3D { x: 0, y: 0, z: 0 },
                        image_extent: image.extent3d(),
                    },
                );
                assert(stream@ =~= old(stream)@ + self.device_commands());
            },
        }
        Ok(())
    }
}

/// Why a command buffer could not be used. Each variant carries the device's
/// result code.
#[derive(Debug, Clone, Copy, PartialEq, Eq, Structural)]
pub enum CommandBufferError {
    BeginError(i32),
    EndError(i32),
    ResetError(i32),
}

/// A command buffer, with the pool it came from and the queue it is submitted to.
#[derive(Debug, Clone, Copy, PartialEq, Eq, Structural)]
pub struct CommandBuffer {
    pub command_buffer: u64,
    pub command_pool: u64,
    pub queue: u64,
}

/// Why a command pool could not hand out what was asked. Each variant carries the
/// device's result code.
#[derive(Debug, Clone, Copy, PartialEq, Eq, Structural)]
pub enum CommandPoolError {
    CreateError(i32),
    CommandBufferAllocationError(i32),
}

/// A command pool, and the queue that its command buffers are submitted to.
#[derive(Debug, Clone, Copy, PartialEq, Eq, Structural)]
pub struct CommandPool {
    pub command_pool: u64,
    pub queue: u64,
}

impl CommandPool {
    /// What is to be destroyed when the pool is given up.
    pub fn delete_event(&self) -> (event: PainterDelete)
        ensures
            event == PainterDelete::CommandPool(self.command_pool),
    {
        PainterDelete::CommandPool(self.command_pool)
    }
}

/// How to create a command pool (`VkCommandPoolCreateInfo`).
#[derive(Debug, Clone, Copy, PartialEq, Eq, Structural)]
pub struct CommandPoolCreateInfo {
    pub flags: u32,
    pub queue_family_index: u32,
}

/// How to allocate command buffers (`VkCommandBufferAllocateInfo`).
#[derive(Debug, Clone, Copy, PartialEq, Eq, Structural)]
pub struct CommandBufferAllocateInfo {
    pub command_pool: u64,
    pub level: i32,
    pub command_buffer_count: u32,
}

/// One submission to a queue: the command buffer, the semaphores that it waits
/// for, each with the stages that wait, the semaphores that it signals, and the
/// fence that it signals, or the null handle.
#[derive(Debug, Clone, PartialEq, Eq)]
pub struct Submission {
    pub queue: u64,
    pub command_buffer: u64,
    pub wait_semaphores: Vec<u64>,
    pub wait_dst_stage_mask: Vec<u32>,
    pub signal_semaphores: Vec<u64>,
    pub fence: u64,
}

/// The handles of the semaphores behind the futures, in order.
pub open spec fn semaphores_of(futures: Seq<&GpuFuture>) -> Seq<u64> {
    Seq::new(futures.len(), |i: int| futures[i].semaphore)
}

/// The handle of the fence behind the future, or the null handle.
pub open spec fn fence_of(fence: Option<&CpuFuture>) -> u64 {
    match fence {
        Some(future) => future.fence,
        None => vulkan::NULL_HANDLE,
    }
}

fn semaphore_handles(futures: &[&GpuFuture]) -> (handles: Vec<u64>)
    ensures
        handles@ == semaphores_of(futures@),
{
    let mut handles: Vec<u64> = Vec::new();
    let mut i: usize = 0;
    while i < futures.len()
        invariant
            i <= futures.len(),
            handles@ == semaphores_of(futures@.take(i as int)),
        decreases futures.len() - i,
    {
        handles.push(futures[i].semaphore);
        i += 1;
        assert(handles@ =~= semaphores_of(futures@.take(i as int)));
    }
    assert(futures@.take(i as int) =~= futures@);
    handles
}

fn copy_stages(stages: &[u32]) -> (copy: Vec<u32>)
    ensures
        copy@ == stages@,
{
    let mut copy: Vec<u32> = Vec::new();
    let mut i: usize = 0;
    while i < stages.len()
        invariant
            i <= stages.len(),
            copy@ == stages@.take(i as int),
        decreases stages.len() - i,
    {
        copy.push(stages[i]);
        i += 1;
        assert(copy@ =~= stages@.take(i as int));
    }
    assert(stages@.take(i as int) =~= stages@);
    copy
}

impl Painter {
    /// How to create a command pool for the context's queue family: its command
    /// buffers can be reset one by one.
    pub fn command_pool_create_info(&self) -> (info: CommandPoolCreateInfo)
        ensures
            info.flags == vulkan::COMMAND_POOL_CREATE_RESET_COMMAND_BUFFER,
            info.queue_family_index == self.graphics_queue_family_index,
    {
        CommandPoolCreateInfo {
            flags: vulkan::COMMAND_POOL_CREATE_RESET_COMMAND_BUFFER,
            queue_family_index: self.graphics_queue_family_index,
        }
    }

    /// The command pool, given the device's answer to creating it: the handle, or
    /// a result code.
    pub fn new_command_pool(&self, created: Result<u64, i32>) -> (pool: Result<
        CommandPool,
        CommandPoolError,
    >)
        ensures
            pool == (match created {
                Ok(command_pool) => Ok::<CommandPool, CommandPoolError>(
                    CommandPool { command_pool, queue: self.graphics_queue },
                ),
                Err(code) => Err(CommandPoolError::CreateError(code)),
            }),
    {
        match created {
            Ok(command_pool) => Ok(CommandPool { command_pool, queue: self.graphics_queue }),
            Err(code) => Err(CommandPoolError::CreateError(code)),
        }
    }

    /// How to allocate `count` primary command buffers from the pool. The device
    /// counts command buffers with 32 bits.
    pub fn command_buffer_allocate_info(&self, command_pool: &CommandPool, count: usize) -> (info:
        CommandBufferAllocateInfo)
        ensures
            info.command_pool == command_pool.command_pool,
            info.level == vulkan::COMMAND_BUFFER_LEVEL_PRIMARY,
            info.command_buffer_count == count as u32,
    {
        CommandBufferAllocateInfo {
            command_pool: command_pool.command_pool,
            level: vulkan::COMMAND_BUFFER_LEVEL_PRIMARY,
            command_buffer_count: #[verifier::truncate] (count as u32),
        }
    }

    /// The command buffers, given the device's answer to allocating them: their
    /// handles, or a result code.
    pub fn allocate_command_buffers(
        &self,
        command_pool: &CommandPool,
        allocated: Result<Vec<u64>, i32>,
    ) -> (buffers: Result<Vec<CommandBuffer>, CommandPoolError>)
        ensures
            match allocated {
                Ok(handles) => buffers is Ok && buffers->Ok_0@ == Seq::new(
                    handles@.len(),
                    |i: int|
                        CommandBuffer {
                            command_buffer: handles@[i],
                            command_pool: command_pool.command_pool,
                            queue: command_pool.queue,
                        },
                ),
                Err(code) => buffers == Err::<Vec<CommandBuffer>, CommandPoolError>(
                    CommandPoolError::CommandBufferAllocationError(code),
                ),
            },
    {
        match allocated {
            Ok(handles) => {
                let mut buffers: Vec<CommandBuffer> = Vec::new();
                let mut i: usize = 0;
                while i < handles.len()
                    invariant
                        i <= handles.len(),
                        buffers@ == Seq::new(
                            i as nat,
                            |k: int|
                                CommandBuffer {
                                    command_buffer: handles@[k],
                                    command_pool: command_pool.command_pool,
                                    queue: command_pool.queue,
                                },
                        ),
                    decreases handles.len() - i,
                {
                    buffers.push(
                        CommandBuffer {
                            command_buffer: handles[i],
                            command_pool: command_pool.command_pool,
                            queue: command_pool.queue,
                        },
                    );
                    i += 1;
                    assert(buffers@ =~= Seq::new(
                        i as nat,
                        |k: int|
                            CommandBuffer {
                                command_buffer: handles@[k],
                                command_pool: command_pool.command_pool,
                                queue: command_pool.queue,
                            },
                    ));
                }
                Ok(buffers)
            },
            Err(code) => Err(CommandPoolError::CommandBufferAllocationError(code)),
        }
    }

    /// What beginning to record into a command buffer comes to, given the device's
    /// answer.
    pub fn begin_cmd_buffer(&self, answer: Result<(), i32>) -> (outcome: Result<
        (),
        CommandBufferError,
    >)
        ensures
            outcome == (match answer {
                Ok(()) => Ok::<(), CommandBufferError>(()),
                Err(code) => Err(CommandBufferError::BeginError(code)),
            }),
    {
        match answer {
            Ok(()) => Ok(()),
            Err(code) => Err(CommandBufferError::BeginError(code)),
        }
    }

    /// What ending the recording into a command buffer comes to, given the
    /// device's answer.
    pub fn end_cmd_buffer(&self, answer: Result<(), i32>) -> (outcome: Result<
        (),
        CommandBufferError,
    >)
        ensures
            outcome == (match answer {
                Ok(()) => Ok::<(), CommandBufferError>(()),
                Err(code) => Err(CommandBufferError::EndError(code)),
            }),
    {
        match answer {
            Ok(()) => Ok(()),
            Err(code) => Err(CommandBufferError::EndError(code)),
        }
    }

    /// What resetting a command buffer comes to, given the device's answer.
    pub fn reset_cmd_buffer(&self, answer: Result<(), i32>) -> (outcome: Result<
        (),
        CommandBufferError,
    >)
        ensures
            outcome == (match answer {
                Ok(()) => Ok::<(), CommandBufferError>(()),
                Err(code) => Err(CommandBufferError::ResetError(code)),
            }),
    {
        match answer {
            Ok(()) => Ok(()),
            Err(code) => Err(CommandBufferError::ResetError(code)),
        }
    }

    /// The submission of a recorded command buffer to its queue.
    pub fn submit_cmd_buffer(
        &self,
        command_buffer: &CommandBuffer,
        signal_semaphores: &[&GpuFuture],
        wait_semaphores: &[&GpuFuture],
        wait_stages: &[u32],
        fence: Option<&CpuFuture>,
    ) -> (submission: Submission)
        ensures
            submission.queue == command_buffer.queue,
            submission.command_buffer == command_buffer.command_buffer,
            submission.signal_semaphores@ == semaphores_of(signal_semaphores@),
            submission.wait_semaphores@ == semaphores_of(wait_semaphores@),
            submission.wait_dst_stage_mask@ == wait_stages@,
            submission.fence == fence_of(fence),
    {
        Submission {
            queue: command_buffer.queue,
            command_buffer: command_buffer.command_buffer,
            wait_semaphores: semaphore_handles(wait_semaphores),
            wait_dst_stage_mask: copy_stages(wait_stages),
            signal_semaphores: semaphore_handles(signal_semaphores),
            fence: match fence {
                Some(future) => future.fence,
                None => vulkan::NULL_HANDLE,
            },
        }
    }
}

} // verus!
