use ash::vk;
use painter::buffer::Buffer;
use painter::command::{
    BufferOffsets, ClearValue, DeviceCommand, GpuCommand, GpuRenderPassCommand, PassCommandError,
    RenderOutput,
};
use painter::image::{Image2d, ImageAccess};
use painter::painter::Painter;
use painter::recorder::RecordError;
use painter::vulkan;
use painter::vulkan::{Extent2D, Extent3D, ImageSubresourceLayers, ImageSubresourceRange, Offset3D};

fn context() -> Painter {
    Painter {
        image_formats: [vulkan::FORMAT_R8G8B8A8_UNORM, vulkan::FORMAT_D32_SFLOAT],
        graphics_queue: 0x51,
        graphics_queue_family_index: 0,
        device: 0xd0,
        physical_device: 0xd1,
        surface: 0x5f,
        instance: 0x1,
    }
}

fn color_image(handle: u64) -> Image2d {
    Image2d {
        image_view: handle + 1000,
        image: handle,
        format: vulkan::FORMAT_R8G8B8A8_UNORM,
        extent: Extent2D { width: 4, height: 4 },
        bound_mem: None,
    }
}

fn depth_image(handle: u64) -> Image2d {
    Image2d {
        image_view: handle + 1000,
        image: handle,
        format: vulkan::FORMAT_D24_UNORM_S8_UINT,
        extent: Extent2D { width: 4, height: 4 },
        bound_mem: None,
    }
}

fn hint<'a>(image: &'a Image2d, access: ImageAccess) -> GpuCommand<'a> {
    GpuCommand::ImageAccessHint { image, access }
}

fn init<'a>(image: &'a Image2d, access: ImageAccess) -> GpuCommand<'a> {
    GpuCommand::ImageAccessInit { image, access }
}

/// A barrier as (image, old layout, new layout), or `None` for another command.
fn barrier_states(command: &DeviceCommand) -> Option<(u64, i32, i32)> {
    match command {
        DeviceCommand::PipelineBarrier { image, old_layout, new_layout, .. } => {
            Some((*image, *old_layout, *new_layout))
        }
        _ => None,
    }
}

fn barriers_on(stream: &[DeviceCommand], image: u64) -> Vec<(i32, i32)> {
    stream
        .iter()
        .filter_map(barrier_states)
        .filter(|(target, _, _)| *target == image)
        .map(|(_, old, new)| (old, new))
        .collect()
}

fn barriers_of<'a>(stream: &[DeviceCommand<'a>], image: u64) -> Vec<DeviceCommand<'a>> {
    stream
        .iter()
        .filter(|c| matches!(barrier_states(c), Some((target, _, _)) if target == image))
        .map(|c| *c)
        .collect()
}

const UNDEFINED: i32 = vulkan::IMAGE_LAYOUT_UNDEFINED;
const SRC: i32 = vulkan::IMAGE_LAYOUT_TRANSFER_SRC_OPTIMAL;
const DST: i32 = vulkan::IMAGE_LAYOUT_TRANSFER_DST_OPTIMAL;
const SHADER: i32 = vulkan::IMAGE_LAYOUT_SHADER_READ_ONLY_OPTIMAL;
const COLOR: i32 = vulkan::IMAGE_LAYOUT_COLOR_ATTACHMENT_OPTIMAL;
const DEPTH: i32 = vulkan::IMAGE_LAYOUT_DEPTH_STENCIL_ATTACHMENT_OPTIMAL;
const PRESENT: i32 = vulkan::IMAGE_LAYOUT_PRESENT_SRC_KHR;

#[test]
fn init_then_two_hints_gives_two_barriers_in_order() {
    let image = color_image(7);
    let commands = vec![
        init(&image, ImageAccess::NoAccess),
        hint(&image, ImageAccess::TransferWrite),
        hint(&image, ImageAccess::ShaderRead),
    ];
    let recording = context().record_cmd_buffer(&commands, true).unwrap();
    assert_eq!(recording.begin_flags, vk::CommandBufferUsageFlags::ONE_TIME_SUBMIT.as_raw());
    let barriers: Vec<_> = recording.commands.iter().map(barrier_states).collect();
    assert_eq!(barriers, vec![Some((7, UNDEFINED, DST)), Some((7, DST, SHADER))]);
    assert_eq!(
        recording.commands[0],
        DeviceCommand::PipelineBarrier {
            image: 7,
            src_stage_mask: vk::PipelineStageFlags::TOP_OF_PIPE.as_raw(),
            dst_stage_mask: vk::PipelineStageFlags::TRANSFER.as_raw(),
            dependency_flags: vk::DependencyFlags::BY_REGION.as_raw(),
            src_access_mask: vk::AccessFlags::empty().as_raw(),
            dst_access_mask: vk::AccessFlags::TRANSFER_WRITE.as_raw(),
            old_layout: vk::ImageLayout::UNDEFINED.as_raw(),
            new_layout: vk::ImageLayout::TRANSFER_DST_OPTIMAL.as_raw(),
            subresource_range: ImageSubresourceRange {
                aspect_mask: vk::ImageAspectFlags::COLOR.as_raw(),
                base_mip_level: 0,
                level_count: 1,
                base_array_layer: 0,
                layer_count: 1,
            },
        }
    );
    assert_eq!(
        recording.commands[1],
        DeviceCommand::PipelineBarrier {
            image: 7,
            src_stage_mask: vk::PipelineStageFlags::TRANSFER.as_raw(),
            dst_stage_mask: vk::PipelineStageFlags::FRAGMENT_SHADER.as_raw(),
            dependency_flags: vk::DependencyFlags::BY_REGION.as_raw(),
            src_access_mask: vk::AccessFlags::TRANSFER_WRITE.as_raw(),
            dst_access_mask: vk::AccessFlags::SHADER_READ.as_raw(),
            old_layout: vk::ImageLayout::TRANSFER_DST_OPTIMAL.as_raw(),
            new_layout: vk::ImageLayout::SHADER_READ_ONLY_OPTIMAL.as_raw(),
            subresource_range: ImageSubresourceRange {
                aspect_mask: vk::ImageAspectFlags::COLOR.as_raw(),
                base_mip_level: 0,
                level_count: 1,
                base_array_layer: 0,
                layer_count: 1,
            },
        }
    );
}

#[test]
fn barriers_stand_before_the_commands_that_need_them() {
    let texture = color_image(3);
    let staging = Buffer { buffer: 90, size: 64, bound_mem: None };
    let commands = vec![
        init(&texture, ImageAccess::TransferWrite),
        GpuCommand::CopyBufferToImageComplete { buffer: &staging, image: &texture },
        hint(&texture, ImageAccess::ShaderRead),
    ];
    let recording = context().record_cmd_buffer(&commands, true).unwrap();
    assert_eq!(recording.commands.len(), 3);
    assert_eq!(barrier_states(&recording.commands[0]), Some((3, UNDEFINED, DST)));
    assert_eq!(
        recording.commands[1],
        DeviceCommand::CopyBufferToImage {
            buffer: 90,
            image: 3,
            image_layout: vk::ImageLayout::TRANSFER_DST_OPTIMAL.as_raw(),
            buffer_offset: 0,
            buffer_row_length: 0,
            buffer_image_height: 0,
            image_subresource: ImageSubresourceLayers {
                aspect_mask: 1,
                mip_level: 0,
                base_array_layer: 0,
                layer_count: 1,
            },
            image_offset: Offset3D { x: 0, y: 0, z: 0 },
            image_extent: Extent3D { width: 4, height: 4, depth: 1 },
        }
    );
    assert_eq!(barrier_states(&recording.commands[2]), Some((3, DST, SHADER)));
}

#[test]
fn an_empty_list_records_nothing() {
    let commands: Vec<GpuCommand> = Vec::new();
    let recording = context().record_cmd_buffer(&commands, false).unwrap();
    assert!(recording.commands.is_empty());
    assert_eq!(recording.begin_flags, vk::CommandBufferUsageFlags::empty().as_raw());
}

#[test]
fn repeated_states_are_coalesced() {
    let image = color_image(5);
    let commands = vec![
        hint(&image, ImageAccess::TransferWrite),
        hint(&image, ImageAccess::TransferWrite),
        hint(&image, ImageAccess::ShaderRead),
        hint(&image, ImageAccess::ShaderRead),
        hint(&image, ImageAccess::ShaderRead),
        hint(&image, ImageAccess::TransferWrite),
    ];
    let recording = context().record_cmd_buffer(&commands, false).unwrap();
    assert_eq!(barriers_on(&recording.commands, 5), vec![(DST, SHADER), (SHADER, DST)]);
    assert_eq!(recording.commands.len(), 2);
}

#[test]
fn the_first_state_of_an_image_needs_no_barrier() {
    let image = color_image(5);
    let commands = vec![hint(&image, ImageAccess::Present)];
    let recording = context().record_cmd_buffer(&commands, false).unwrap();
    assert!(recording.commands.is_empty());
}

#[test]
fn init_with_no_access_emits_nothing() {
    let image = color_image(5);
    let commands = vec![init(&image, ImageAccess::NoAccess)];
    let recording = context().record_cmd_buffer(&commands, false).unwrap();
    assert!(recording.commands.is_empty());
}

#[test]
fn init_emits_the_initial_transition() {
    let image = color_image(5);
    let commands = vec![init(&image, ImageAccess::Present)];
    let recording = context().record_cmd_buffer(&commands, false).unwrap();
    assert_eq!(barriers_on(&recording.commands, 5), vec![(UNDEFINED, PRESENT)]);
    assert_eq!(
        recording.commands[0],
        DeviceCommand::PipelineBarrier {
            image: 5,
            src_stage_mask: vk::PipelineStageFlags::TOP_OF_PIPE.as_raw(),
            dst_stage_mask: vk::PipelineStageFlags::BOTTOM_OF_PIPE.as_raw(),
            dependency_flags: vk::DependencyFlags::BY_REGION.as_raw(),
            src_access_mask: vk::AccessFlags::empty().as_raw(),
            dst_access_mask: vk::AccessFlags::MEMORY_READ.as_raw(),
            old_layout: vk::ImageLayout::UNDEFINED.as_raw(),
            new_layout: vk::ImageLayout::PRESENT_SRC_KHR.as_raw(),
            subresource_range: ImageSubresourceRange {
                aspect_mask: 1,
                base_mip_level: 0,
                level_count: 1,
                base_array_layer: 0,
                layer_count: 1,
            },
        }
    );
}

#[test]
fn init_of_a_known_image_only_declares_the_needed_state() {
    let image = color_image(5);
    let commands = vec![
        hint(&image, ImageAccess::ShaderRead),
        init(&image, ImageAccess::TransferWrite),
        init(&image, ImageAccess::TransferWrite),
    ];
    let recording = context().record_cmd_buffer(&commands, false).unwrap();
    assert_eq!(barriers_on(&recording.commands, 5), vec![(SHADER, DST)]);
}

#[test]
fn depth_images_use_the_depth_table() {
    let image = depth_image(8);
    let commands = vec![init(&image, ImageAccess::PipelineAttachment)];
    let recording = context().record_cmd_buffer(&commands, true).unwrap();
    assert_eq!(
        recording.commands,
        vec![DeviceCommand::PipelineBarrier {
            image: 8,
            src_stage_mask: vk::PipelineStageFlags::TOP_OF_PIPE.as_raw(),
            dst_stage_mask: vk::PipelineStageFlags::ALL_GRAPHICS.as_raw(),
            dependency_flags: vk::DependencyFlags::BY_REGION.as_raw(),
            src_access_mask: vk::AccessFlags::empty().as_raw(),
            dst_access_mask: (vk::AccessFlags::DEPTH_STENCIL_ATTACHMENT_READ
                | vk::AccessFlags::DEPTH_STENCIL_ATTACHMENT_WRITE)
                .as_raw(),
            old_layout: vk::ImageLayout::UNDEFINED.as_raw(),
            new_layout: vk::ImageLayout::DEPTH_STENCIL_ATTACHMENT_OPTIMAL.as_raw(),
            subresource_range: ImageSubresourceRange {
                aspect_mask: (vk::ImageAspectFlags::DEPTH | vk::ImageAspectFlags::STENCIL).as_raw(),
                base_mip_level: 0,
                level_count: 1,
                base_array_layer: 0,
                layer_count: 1,
            },
        }]
    );
    assert_eq!(barriers_on(&recording.commands, 8), vec![(UNDEFINED, DEPTH)]);
}

#[test]
fn a_blit_needs_its_source_read_and_its_destination_written() {
    let rendered = color_image(1);
    let sheet = Image2d { extent: Extent2D { width: 8, height: 6 }, ..color_image(2) };
    let commands = vec![
        hint(&rendered, ImageAccess::PipelineAttachment),
        hint(&sheet, ImageAccess::Present),
        GpuCommand::BlitFullImage { src: &rendered, dst: &sheet },
        hint(&sheet, ImageAccess::Present),
    ];
    let recording = context().record_cmd_buffer(&commands, false).unwrap();
    let expected_blit = DeviceCommand::BlitImage {
        src_image: 1,
        src_image_layout: vk::ImageLayout::TRANSFER_SRC_OPTIMAL.as_raw(),
        dst_image: 2,
        dst_image_layout: vk::ImageLayout::TRANSFER_DST_OPTIMAL.as_raw(),
        src_subresource: ImageSubresourceLayers {
            aspect_mask: 1,
            mip_level: 0,
            base_array_layer: 0,
            layer_count: 1,
        },
        dst_subresource: ImageSubresourceLayers {
            aspect_mask: 1,
            mip_level: 0,
            base_array_layer: 0,
            layer_count: 1,
        },
        src_offsets: [Offset3D { x: 0, y: 0, z: 0 }, Offset3D { x: 4, y: 4, z: 1 }],
        dst_offsets: [Offset3D { x: 0, y: 0, z: 0 }, Offset3D { x: 8, y: 6, z: 1 }],
        filter: vk::Filter::NEAREST.as_raw(),
    };
    assert_eq!(recording.commands.len(), 4);
    // both barriers stand before the blit, the source's first: it was mentioned first
    assert_eq!(barrier_states(&recording.commands[0]), Some((1, COLOR, SRC)));
    assert_eq!(barrier_states(&recording.commands[1]), Some((2, PRESENT, DST)));
    assert_eq!(recording.commands[2], expected_blit);
    assert_eq!(barrier_states(&recording.commands[3]), Some((2, DST, PRESENT)));
}

#[test]
fn one_barrier_for_each_state_after_the_first() {
    // track of image 1: attachment, transfer read, attachment, shader read: 4 states
    // track of image 2: present, transfer write, present: 3 states
    let rendered = color_image(1);
    let sheet = color_image(2);
    let commands = vec![
        hint(&rendered, ImageAccess::PipelineAttachment),
        hint(&sheet, ImageAccess::Present),
        GpuCommand::BlitFullImage { src: &rendered, dst: &sheet },
        hint(&sheet, ImageAccess::Present),
        hint(&rendered, ImageAccess::PipelineAttachment),
        hint(&rendered, ImageAccess::PipelineAttachment),
        hint(&rendered, ImageAccess::ShaderRead),
    ];
    let recording = context().record_cmd_buffer(&commands, false).unwrap();
    assert_eq!(
        barriers_on(&recording.commands, 1),
        vec![(COLOR, SRC), (SRC, COLOR), (COLOR, SHADER)]
    );
    assert_eq!(barriers_on(&recording.commands, 2), vec![(PRESENT, DST), (DST, PRESENT)]);
    // an image that the list never mentions has no barrier
    assert!(barriers_on(&recording.commands, 3).is_empty());
}

#[test]
fn a_copy_of_an_image_onto_itself_gets_one_barrier_for_two_states() {
    // the blit declares two states for the image; only the first is entered
    let image = color_image(1);
    let commands = vec![
        hint(&image, ImageAccess::ShaderRead),
        GpuCommand::BlitFullImage { src: &image, dst: &image },
        hint(&image, ImageAccess::ShaderRead),
    ];
    let recording = context().record_cmd_buffer(&commands, false).unwrap();
    assert_eq!(barriers_on(&recording.commands, 1), vec![(SHADER, SRC), (DST, SHADER)]);
}

#[test]
fn taking_out_another_images_commands_changes_nothing_for_an_image() {
    let first = color_image(1);
    let second = depth_image(2);
    let staging = Buffer { buffer: 90, size: 64, bound_mem: None };
    let both = vec![
        init(&second, ImageAccess::PipelineAttachment),
        init(&first, ImageAccess::TransferWrite),
        hint(&second, ImageAccess::ShaderRead),
        GpuCommand::CopyBufferToImageComplete { buffer: &staging, image: &first },
        hint(&second, ImageAccess::PipelineAttachment),
        hint(&first, ImageAccess::ShaderRead),
        hint(&second, ImageAccess::Present),
        hint(&first, ImageAccess::Present),
    ];
    let alone = vec![
        init(&first, ImageAccess::TransferWrite),
        GpuCommand::CopyBufferToImageComplete { buffer: &staging, image: &first },
        hint(&first, ImageAccess::ShaderRead),
        hint(&first, ImageAccess::Present),
    ];
    let with_both = context().record_cmd_buffer(&both, false).unwrap();
    let with_one = context().record_cmd_buffer(&alone, false).unwrap();
    // the same barriers on the first image, in the same order
    assert_eq!(barriers_of(&with_both.commands, 1), barriers_of(&with_one.commands, 1));
    assert_eq!(
        barriers_on(&with_one.commands, 1),
        vec![(UNDEFINED, DST), (DST, SHADER), (SHADER, PRESENT)]
    );
    // and in the same place: the stream without the second image's barriers is the
    // stream of the list without the second image's commands
    let without_second: Vec<DeviceCommand> = with_both
        .commands
        .iter()
        .filter(|c| !matches!(barrier_states(c), Some((2, _, _))))
        .map(|c| *c)
        .collect();
    assert_eq!(without_second, with_one.commands);
}

#[test]
fn barriers_before_one_command_come_in_the_order_of_first_mention() {
    let images: Vec<Image2d> = (0..40u64).map(|i| color_image(1000 - i * 7)).collect();
    let mut commands = Vec::new();
    for image in images.iter() {
        commands.push(hint(image, ImageAccess::TransferWrite));
    }
    for image in images.iter().rev() {
        commands.push(hint(image, ImageAccess::ShaderRead));
    }
    // every image is written by the one blit target command at the end
    for pair in images.chunks(2) {
        commands.push(GpuCommand::BlitFullImage { src: &pair[0], dst: &pair[1] });
    }
    let recording = context().record_cmd_buffer(&commands, false).unwrap();
    // each image: write (first, no barrier), shader read, then read or write again
    for (place, image) in images.iter().enumerate() {
        let expected_last = if place % 2 == 0 { (SHADER, SRC) } else { (SHADER, DST) };
        assert_eq!(barriers_on(&recording.commands, image.image), vec![(DST, SHADER), expected_last]);
    }
    // the hints in reverse order get their barriers one by one, before each hint
    let first_forty: Vec<u64> = recording.commands[..40]
        .iter()
        .map(|c| barrier_states(c).unwrap().0)
        .collect();
    let reversed: Vec<u64> = images.iter().rev().map(|i| i.image).collect();
    assert_eq!(first_forty, reversed);
    // before each blit: the source's barrier, then the destination's
    let rest = &recording.commands[40..];
    assert_eq!(rest.len(), 60);
    for (pair, chunk) in images.chunks(2).zip(rest.chunks(3)) {
        assert_eq!(barrier_states(&chunk[0]), Some((pair[0].image, SHADER, SRC)));
        assert_eq!(barrier_states(&chunk[1]), Some((pair[1].image, SHADER, DST)));
        assert!(matches!(chunk[2], DeviceCommand::BlitImage { .. }));
    }
}

#[test]
fn images_with_one_handle_are_one_image() {
    let described_first = color_image(4);
    let described_later = Image2d { format: vulkan::FORMAT_D32_SFLOAT, ..color_image(4) };
    let commands = vec![
        hint(&described_first, ImageAccess::PipelineAttachment),
        hint(&described_later, ImageAccess::TransferRead),
    ];
    let recording = context().record_cmd_buffer(&commands, false).unwrap();
    // the barrier goes by the description that came first: a colour image
    assert_eq!(barriers_on(&recording.commands, 4), vec![(COLOR, SRC)]);
    match recording.commands[0] {
        DeviceCommand::PipelineBarrier { src_access_mask, subresource_range, .. } => {
            assert_eq!(src_access_mask, vk::AccessFlags::COLOR_ATTACHMENT_WRITE.as_raw());
            assert_eq!(subresource_range.aspect_mask, vk::ImageAspectFlags::COLOR.as_raw());
        }
        _ => panic!("a barrier was expected"),
    }
}

fn clear_values() -> Vec<ClearValue> {
    vec![
        ClearValue { words: [1.0f32.to_bits(), 1.0f32.to_bits(), 0, 1.0f32.to_bits()] },
        ClearValue { words: [1.0f32.to_bits(), 0, 0, 0] },
    ]
}

#[test]
fn a_render_pass_is_begun_set_up_run_and_ended() {
    let color = color_image(1);
    let output = RenderOutput {
        extent: Extent2D { width: 800, height: 600 },
        render_pass: 0x70,
        framebuffer: 0x71,
    };
    let vertices = Buffer { buffer: 0x80, size: 1024, bound_mem: None };
    let indices = Buffer { buffer: 0x81, size: 256, bound_mem: None };
    let pass = GpuCommand::RunRenderPass {
        render_pass: 0x70,
        render_output: &output,
        clear_values: clear_values(),
        pipelines: vec![0xa0, 0xa1],
        pipeline_layouts: vec![0xb0],
        commands: vec![
            GpuRenderPassCommand::BindPipeline { pipeline: 1 },
            GpuRenderPassCommand::BindVertexBuffers { buffers: vec![&vertices] },
            GpuRenderPassCommand::BindIndexBuffer { buffer: &indices },
            GpuRenderPassCommand::BindShaderInput {
                pipeline_layout: 0,
                descriptor_sets: vec![0xc0, 0xc1],
            },
            GpuRenderPassCommand::SetPushConstant { pipeline_layout: 0, data: vec![1, 2, 3, 4] },
            GpuRenderPassCommand::Draw { count: 6, vertex_offset: -2, index_offset: 12 },
        ],
    };
    let commands = vec![
        hint(&color, ImageAccess::TransferRead),
        hint(&color, ImageAccess::PipelineAttachment),
        pass,
    ];
    let recording = context().record_cmd_buffer(&commands, false).unwrap();
    let expected_clear = clear_values();
    let expected_sets = vec![0xc0u64, 0xc1];
    let expected_buffers = vec![&vertices];
    let expected_data = vec![1u8, 2, 3, 4];
    let expected = vec![
        DeviceCommand::PipelineBarrier {
            image: 1,
            src_stage_mask: vk::PipelineStageFlags::TRANSFER.as_raw(),
            dst_stage_mask: vk::PipelineStageFlags::ALL_GRAPHICS.as_raw(),
            dependency_flags: 1,
            src_access_mask: vk::AccessFlags::TRANSFER_READ.as_raw(),
            dst_access_mask: vk::AccessFlags::COLOR_ATTACHMENT_WRITE.as_raw(),
            old_layout: SRC,
            new_layout: COLOR,
            subresource_range: ImageSubresourceRange {
                aspect_mask: 1,
                base_mip_level: 0,
                level_count: 1,
                base_array_layer: 0,
                layer_count: 1,
            },
        },
        DeviceCommand::BeginRenderPass {
            render_pass: 0x70,
            framebuffer: 0x71,
            render_area: Extent2D { width: 800, height: 600 },
            clear_values: &expected_clear,
            contents: vk::SubpassContents::INLINE.as_raw(),
        },
        DeviceCommand::SetViewport { width: 800, height: 600 },
        DeviceCommand::SetScissor { extent: Extent2D { width: 800, height: 600 } },
        DeviceCommand::BindPipeline {
            bind_point: vk::PipelineBindPoint::GRAPHICS.as_raw(),
            pipeline: 0xa1,
        },
        DeviceCommand::BindVertexBuffers {
            first_binding: 0,
            buffers: &expected_buffers,
            offsets: BufferOffsets { count: 1, each: 0 },
        },
        DeviceCommand::BindIndexBuffer {
            buffer: 0x81,
            offset: 0,
            index_type: vk::IndexType::UINT32.as_raw(),
        },
        DeviceCommand::BindDescriptorSets {
            bind_point: vk::PipelineBindPoint::GRAPHICS.as_raw(),
            layout: 0xb0,
            first_set: 0,
            descriptor_sets: &expected_sets,
        },
        DeviceCommand::PushConstants {
            layout: 0xb0,
            stage_flags: vk::ShaderStageFlags::ALL.as_raw(),
            offset: 0,
            data: &expected_data,
        },
        DeviceCommand::DrawIndexed {
            index_count: 6,
            instance_count: 1,
            first_index: 12,
            vertex_offset: -2,
            first_instance: 0,
        },
        DeviceCommand::EndRenderPass,
    ];
    assert_eq!(recording.commands, expected);
}

#[test]
fn a_render_pass_declares_no_state() {
    let output = RenderOutput {
        extent: Extent2D { width: 1, height: 1 },
        render_pass: 0x70,
        framebuffer: 0x71,
    };
    let pass = GpuCommand::RunRenderPass {
        render_pass: 0x70,
        render_output: &output,
        clear_values: vec![],
        pipelines: vec![],
        pipeline_layouts: vec![],
        commands: vec![],
    };
    assert!(pass.access_transitions().is_empty());
    let commands = vec![pass];
    let recording = context().record_cmd_buffer(&commands, false).unwrap();
    assert_eq!(recording.commands.len(), 4);
    assert!(matches!(recording.commands[0], DeviceCommand::BeginRenderPass { .. }));
    assert_eq!(recording.commands[1], DeviceCommand::SetViewport { width: 1, height: 1 });
    assert_eq!(
        recording.commands[2],
        DeviceCommand::SetScissor { extent: Extent2D { width: 1, height: 1 } }
    );
    assert_eq!(recording.commands[3], DeviceCommand::EndRenderPass);
}

#[test]
fn a_pass_command_that_names_no_pipeline_is_refused() {
    let output = RenderOutput {
        extent: Extent2D { width: 1, height: 1 },
        render_pass: 0x70,
        framebuffer: 0x71,
    };
    let image = color_image(1);
    let good = GpuCommand::RunRenderPass {
        render_pass: 0x70,
        render_output: &output,
        clear_values: vec![],
        pipelines: vec![0xa0],
        pipeline_layouts: vec![0xb0],
        commands: vec![GpuRenderPassCommand::BindPipeline { pipeline: 0 }],
    };
    let bad = GpuCommand::RunRenderPass {
        render_pass: 0x70,
        render_output: &output,
        clear_values: vec![],
        pipelines: vec![0xa0],
        pipeline_layouts: vec![0xb0],
        commands: vec![
            GpuRenderPassCommand::BindPipeline { pipeline: 0 },
            GpuRenderPassCommand::Draw { count: 3, vertex_offset: 0, index_offset: 0 },
            GpuRenderPassCommand::SetPushConstant { pipeline_layout: 1, data: vec![] },
            GpuRenderPassCommand::BindPipeline { pipeline: 9 },
        ],
    };
    let worse = GpuCommand::RunRenderPass {
        render_pass: 0x70,
        render_output: &output,
        clear_values: vec![],
        pipelines: vec![],
        pipeline_layouts: vec![],
        commands: vec![GpuRenderPassCommand::BindPipeline { pipeline: 0 }],
    };
    let commands = vec![hint(&image, ImageAccess::PipelineAttachment), good, bad, worse];
    assert_eq!(
        context().record_cmd_buffer(&commands, false),
        Err(RecordError {
            command: 2,
            pass_command: 2,
            error: PassCommandError::UnknownPipelineLayout { pipeline_layout: 1 },
        })
    );
}

#[test]
fn pass_commands_are_applied_one_by_one() {
    let pipelines = [0xa0u64, 0xa1];
    let layouts = [0xb0u64];
    let bind = GpuRenderPassCommand::BindPipeline { pipeline: 2 };
    assert_eq!(
        bind.apply_command(&pipelines, &layouts),
        Err(PassCommandError::UnknownPipeline { pipeline: 2 })
    );
    let bind = GpuRenderPassCommand::BindPipeline { pipeline: 0 };
    assert_eq!(
        bind.apply_command(&pipelines, &layouts),
        Ok(DeviceCommand::BindPipeline { bind_point: 0, pipeline: 0xa0 })
    );
    let input = GpuRenderPassCommand::BindShaderInput { pipeline_layout: 1, descriptor_sets: vec![] };
    assert_eq!(
        input.apply_command(&pipelines, &layouts),
        Err(PassCommandError::UnknownPipelineLayout { pipeline_layout: 1 })
    );
    let draw = GpuRenderPassCommand::Draw { count: 36, vertex_offset: 8, index_offset: 24 };
    assert_eq!(
        draw.apply_command(&[], &[]),
        Ok(DeviceCommand::DrawIndexed {
            index_count: 36,
            instance_count: 1,
            first_index: 24,
            vertex_offset: 8,
            first_instance: 0,
        })
    );
}

#[test]
fn each_command_declares_its_states() {
    let first = color_image(1);
    let second = color_image(2);
    let staging = Buffer { buffer: 90, size: 64, bound_mem: None };
    let declared = |command: GpuCommand| -> Vec<(u64, Option<ImageAccess>, Option<ImageAccess>)> {
        command
            .access_transitions()
            .iter()
            .map(|t| (t.image.image, t.old_access, t.new_access))
            .collect()
    };
    assert_eq!(
        declared(init(&first, ImageAccess::ShaderRead)),
        vec![(1, Some(ImageAccess::NoAccess), Some(ImageAccess::ShaderRead))]
    );
    assert_eq!(
        declared(hint(&second, ImageAccess::Present)),
        vec![(2, None, Some(ImageAccess::Present))]
    );
    assert_eq!(
        declared(GpuCommand::BlitFullImage { src: &first, dst: &second }),
        vec![
            (1, None, Some(ImageAccess::TransferRead)),
            (2, None, Some(ImageAccess::TransferWrite)),
        ]
    );
    assert_eq!(
        declared(GpuCommand::CopyBufferToImageComplete { buffer: &staging, image: &second }),
        vec![(2, None, Some(ImageAccess::TransferWrite))]
    );
}

#[test]
fn recording_adds_barriers_and_nothing_else() {
    let rendered = color_image(1);
    let sheet = color_image(2);
    let staging = Buffer { buffer: 90, size: 64, bound_mem: None };
    let output = RenderOutput {
        extent: Extent2D { width: 4, height: 4 },
        render_pass: 0x70,
        framebuffer: 0x71,
    };
    let commands = vec![
        init(&rendered, ImageAccess::TransferWrite),
        GpuCommand::CopyBufferToImageComplete { buffer: &staging, image: &rendered },
        hint(&rendered, ImageAccess::PipelineAttachment),
        GpuCommand::RunRenderPass {
            render_pass: 0x70,
            render_output: &output,
            clear_values: clear_values(),
            pipelines: vec![0xa0],
            pipeline_layouts: vec![],
            commands: vec![
                GpuRenderPassCommand::BindPipeline { pipeline: 0 },
                GpuRenderPassCommand::Draw { count: 3, vertex_offset: 0, index_offset: 0 },
            ],
        },
        hint(&sheet, ImageAccess::Present),
        GpuCommand::BlitFullImage { src: &rendered, dst: &sheet },
        hint(&sheet, ImageAccess::Present),
    ];
    let recording = context().record_cmd_buffer(&commands, false).unwrap();
    let mut own = Vec::new();
    for command in commands.iter() {
        command.emit(&mut own).unwrap();
    }
    let without_barriers: Vec<DeviceCommand> = recording
        .commands
        .iter()
        .filter(|c| barrier_states(c).is_none())
        .map(|c| *c)
        .collect();
    assert_eq!(without_barriers, own);
    assert_eq!(recording.commands.len(), own.len() + 5);
}

#[test]
fn vertex_buffers_are_bound_in_order_each_from_its_start() {
    let first = Buffer { buffer: 0x80, size: 64, bound_mem: None };
    let second = Buffer { buffer: 0x81, size: 64, bound_mem: None };
    let third = Buffer { buffer: 0x82, size: 64, bound_mem: None };
    let bind = GpuRenderPassCommand::BindVertexBuffers { buffers: vec![&second, &first, &third] };
    match bind.apply_command(&[], &[]).unwrap() {
        DeviceCommand::BindVertexBuffers { first_binding, buffers, offsets } => {
            assert_eq!(first_binding, 0);
            let handles: Vec<u64> = buffers.iter().map(|buffer| buffer.buffer).collect();
            assert_eq!(handles, vec![0x81, 0x80, 0x82]);
            assert_eq!(offsets, BufferOffsets { count: 3, each: 0 });
            assert_eq!(offsets.to_vec(), vec![0, 0, 0]);
        }
        _ => panic!("a binding of vertex buffers was expected"),
    }
    let none = GpuRenderPassCommand::BindVertexBuffers { buffers: vec![] };
    match none.apply_command(&[], &[]).unwrap() {
        DeviceCommand::BindVertexBuffers { offsets, .. } => {
            assert!(offsets.to_vec().is_empty());
        }
        _ => panic!("a binding of vertex buffers was expected"),
    }
    assert_eq!(BufferOffsets { count: 2, each: 16 }.to_vec(), vec![16, 16]);
}
