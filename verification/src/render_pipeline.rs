//! A render pipeline of one pass: how its render pass, its layout and its outputs
//! are described to the device.

use vstd::prelude::*;
use crate::command::RenderOutput;
use crate::image::Image2d;
use crate::vulkan;

verus! {

/// An attachment of the pass: its format, and what happens to its contents when
/// the pass begins and ends.
#[derive(Debug, Clone, Copy, PartialEq, Eq, Structural)]
pub struct AttachmentFormat {
    pub format: i32,
    pub load_op: i32,
    pub store_op: i32,
}

/// An attachment as the device takes it (`VkAttachmentDescription`).
#[derive(Debug, Clone, Copy, PartialEq, Eq, Structural)]
pub struct AttachmentDescription {
    pub format: i32,
    pub samples: u32,
    pub load_op: i32,
    pub store_op: i32,
    pub initial_layout: i32,
    pub final_layout: i32,
}

/// The use of an attachment in the pass (`VkAttachmentReference`).
#[derive(Debug, Clone, Copy, PartialEq, Eq, Structural)]
pub struct AttachmentReference {
    pub attachment: u32,
    pub layout: i32,
}

/// A render pass of one subpass: its attachments, the colour attachments first,
/// and how the subpass uses them.
#[derive(Debug, Clone, PartialEq, Eq)]
pub struct RenderPassInfo {
    pub attachments: Vec<AttachmentDescription>,
    pub color_references: Vec<AttachmentReference>,
    pub depth_reference: Option<AttachmentReference>,
}

/// A range of push constants (`VkPushConstantRange`).
#[derive(Debug, Clone, Copy, PartialEq, Eq, Structural)]
pub struct PushConstantRange {
    pub stage_flags: u32,
    pub offset: u32,
    pub size: u32,
}

/// How to create a framebuffer (`VkFramebufferCreateInfo`).
#[derive(Debug, Clone, PartialEq, Eq)]
pub struct FramebufferCreateInfo {
    pub render_pass: u64,
    pub attachments: Vec<u64>,
    pub width: u32,
    pub height: u32,
    pub layers: u32,
}

/// An attachment that stays in `layout` throughout the pass.
pub open spec fn attachment_in(attachment: AttachmentFormat, layout: i32) -> AttachmentDescription {
    AttachmentDescription {
        format: attachment.format,
        samples: vulkan::SAMPLE_COUNT_1,
        load_op: attachment.load_op,
        store_op: attachment.store_op,
        initial_layout: layout,
        final_layout: layout,
    }
}

/// The attachments of the pass: the colour attachments in order, then the depth
/// attachment if there is one.
pub open spec fn pass_attachments(
    color_attachments: Seq<AttachmentFormat>,
    depth_attachment: Option<AttachmentFormat>,
) -> Seq<AttachmentDescription> {
    let colors = Seq::new(
        color_attachments.len(),
        |i: int| attachment_in(color_attachments[i], vulkan::IMAGE_LAYOUT_COLOR_ATTACHMENT_OPTIMAL),
    );
    match depth_attachment {
        Some(depth) => colors.push(
            attachment_in(depth, vulkan::IMAGE_LAYOUT_DEPTH_STENCIL_ATTACHMENT_OPTIMAL),
        ),
        None => colors,
    }
}

/// The subpass's colour attachments: the first attachments of the pass, in order.
pub open spec fn color_references(count: nat) -> Seq<AttachmentReference> {
    Seq::new(
        count,
        |i: int|
            AttachmentReference {
                attachment: i as u32,
                layout: vulkan::IMAGE_LAYOUT_COLOR_ATTACHMENT_OPTIMAL,
            },
    )
}

/// The views of the images, in order.
pub open spec fn views_of(images: Seq<&Image2d>) -> Seq<u64> {
    Seq::new(images.len(), |i: int| images[i].image_view)
}

/// A pipeline of one render pass.
#[derive(Debug, Clone, Copy, PartialEq, Eq, Structural)]
pub struct SingePassRenderPipeline {
    pub pipeline_layout: u64,
    pub pipeline: u64,
    pub render_pass: u64,
    pub push_constant_size: usize,
}

impl SingePassRenderPipeline {
    /// The render pass for the given attachments. The device numbers attachments
    /// with 32 bits.
    pub fn render_pass_info(
        color_attachments: &[AttachmentFormat],
        depth_attachment: Option<AttachmentFormat>,
    ) -> (info: RenderPassInfo)
        ensures
            info.attachments@ == pass_attachments(color_attachments@, depth_attachment),
            info.color_references@ == color_references(color_attachments@.len()),
            info.depth_reference == (match depth_attachment {
                Some(_) => Some(
                    AttachmentReference {
                        attachment: color_attachments@.len() as u32,
                        layout: vulkan::IMAGE_LAYOUT_DEPTH_STENCIL_ATTACHMENT_OPTIMAL,
                    },
                ),
                None => None,
            }),
    {
        let mut attachments: Vec<AttachmentDescription> = Vec::new();
        let mut references: Vec<AttachmentReference> = Vec::new();
        let mut i: usize = 0;
        while i < color_attachments.len()
            invariant
                i <= color_attachments.len(),
                attachments@ == pass_attachments(color_attachments@.take(i as int), None),
                references@ == color_references(i as nat),
            decreases color_attachments.len() - i,
        {
            let attachment = &color_attachments[i];
            attachments.push(
                AttachmentDescription {
                    format: attachment.format,
                    samples: vulkan::SAMPLE_COUNT_1,
                    load_op: attachment.load_op,
                    store_op: attachment.store_op,
                    initial_layout: vulkan::IMAGE_LAYOUT_COLOR_ATTACHMENT_OPTIMAL,
                    final_layout: vulkan::IMAGE_LAYOUT_COLOR_ATTACHMENT_OPTIMAL,
                },
            );
            references.push(
                AttachmentReference {
                    attachment: #[verifier::truncate] (i as u32),
                    layout: vulkan::IMAGE_LAYOUT_COLOR_ATTACHMENT_OPTIMAL,
                },
            );
            i += 1;
            assert(attachments@ =~= pass_attachments(color_attachments@.take(i as int), None));
            assert(references@ =~= color_references(i as nat));
        }
        assert(color_attachments@.take(i as int) =~= color_attachments@);
        let depth_reference = match depth_attachment {
            Some(depth) => {
                attachments.push(
                    AttachmentDescription {
                        format: depth.format,
                        samples: vulkan::SAMPLE_COUNT_1,
                        load_op: depth.load_op,
                        store_op: depth.store_op,
                        initial_layout: vulkan::IMAGE_LAYOUT_DEPTH_STENCIL_ATTACHMENT_OPTIMAL,
                        final_layout: vulkan::IMAGE_LAYOUT_DEPTH_STENCIL_ATTACHMENT_OPTIMAL,
                    },
                );
                Some(
                    AttachmentReference {
                        attachment: #[verifier::truncate] (color_attachments.len() as u32),
                        layout: vulkan::IMAGE_LAYOUT_DEPTH_STENCIL_ATTACHMENT_OPTIMAL,
                    },
                )
            },
            None => None,
        };
        RenderPassInfo { attachments, color_references: references, depth_reference }
    }

    /// The push constant ranges of the pipeline's layout: one range for all
    /// stages, from the start, where there are push constants at all. The device
    /// sizes ranges with 32 bits.
    pub fn push_constant_ranges(push_constant_size: usize) -> (ranges: Vec<PushConstantRange>)
        ensures
            ranges@ == (if push_constant_size > 0 {
                seq![
                    PushConstantRange {
                        stage_flags: vulkan::SHADER_STAGE_ALL,
                        offset: 0,
                        size: push_constant_size as u32,
                    },
                ]
            } else {
                seq![]
            }),
    {
        let mut ranges: Vec<PushConstantRange> = Vec::new();
        if push_constant_size > 0 {
            ranges.push(
                PushConstantRange {
                    stage_flags: vulkan::SHADER_STAGE_ALL,
                    offset: 0,
                    size: #[verifier::truncate] (push_constant_size as u32),
                },
            );
        }
        assert(ranges@ =~= (if push_constant_size > 0 {
            seq![
                PushConstantRange {
                    stage_flags: vulkan::SHADER_STAGE_ALL,
                    offset: 0,
                    size: push_constant_size as u32,
                },
            ]
        } else {
            seq![]
        }));
        ranges
    }

    /// How to create the framebuffer that the pass draws into: the views of the
    /// attachments, at the size of the first. `None` without attachments.
    pub fn framebuffer_create_info(&self, attachments: &[&Image2d]) -> (info: Option<
        FramebufferCreateInfo,
    >)
        ensures
            info is None <==> attachments@.len() == 0,
            info is Some ==> {
                &&& info->0.render_pass == self.render_pass
                &&& info->0.attachments@ == views_of(attachments@)
                &&& info->0.width == attachments@[0].extent.width
                &&& info->0.height == attachments@[0].extent.height
                &&& info->0.layers == 1
            },
    {
        if attachments.len() == 0 {
            return None;
        }
        let mut views: Vec<u64> = Vec::new();
        let mut i: usize = 0;
        while i < attachments.len()
            invariant
                i <= attachments.len(),
                views@ == views_of(attachments@.take(i as int)),
            decreases attachments.len() - i,
        {
            views.push(attachments[i].image_view);
            i += 1;
            assert(views@ =~= views_of(attachments@.take(i as int)));
        }
        assert(attachments@.take(i as int) =~= attachments@);
        Some(
            FramebufferCreateInfo {
                render_pass: self.render_pass,
                attachments: views,
                width: attachments[0].extent.width,
                height: attachments[0].extent.height,
                layers: 1,
            },
        )
    }

    /// The output of the pass for a framebuffer that was created for the
    /// attachments. `None` without attachments.
    pub fn create_render_output(&self, attachments: &[&Image2d], framebuffer: u64) -> (output:
        Option<RenderOutput>)
        ensures
            output == (if attachments@.len() == 0 {
                None
            } else {
                Some(
                    RenderOutput {
                        extent: attachments@[0].extent,
                        render_pass: self.render_pass,
                        framebuffer,
                    },
                )
            }),
    {
        if attachments.len() == 0 {
            None
        } else {
            Some(
                RenderOutput {
                    extent: attachments[0].extent,
                    render_pass: self.render_pass,
                    framebuffer,
                },
            )
        }
    }
}

} // verus!
