//! Images, their formats, and the access states that the command recorder
//! moves them between.

use vstd::prelude::*;
use crate::allocator::GAllocatorError;
use crate::buffer::{gpu_local, spec_gpu_local, BoundMemory};
use crate::painter::{Painter, PainterDelete};
use crate::vulkan;
use crate::vulkan::{Extent2D, Extent3D, ImageSubresourceLayers, ImageSubresourceRange, Offset3D};

verus! {

/// Whether a format stores depth.
pub open spec fn spec_is_format_depth(format: i32) -> bool {
    format == vulkan::FORMAT_D16_UNORM || format == vulkan::FORMAT_D32_SFLOAT || format
        == vulkan::FORMAT_D16_UNORM_S8_UINT || format == vulkan::FORMAT_D24_UNORM_S8_UINT || format
        == vulkan::FORMAT_D32_SFLOAT_S8_UINT
}

/// Whether a format stores stencil beside depth.
pub open spec fn spec_has_stencil_component(format: i32) -> bool {
    format == vulkan::FORMAT_D16_UNORM_S8_UINT || format == vulkan::FORMAT_D24_UNORM_S8_UINT || format
        == vulkan::FORMAT_D32_SFLOAT_S8_UINT
}

/// The aspects of an image of the given format: colour, depth, or depth and stencil.
pub open spec fn spec_image_aspect(format: i32) -> u32 {
    if spec_is_format_depth(format) {
        if spec_has_stencil_component(format) {
            vulkan::IMAGE_ASPECT_DEPTH | vulkan::IMAGE_ASPECT_STENCIL
        } else {
            vulkan::IMAGE_ASPECT_DEPTH
        }
    } else {
        vulkan::IMAGE_ASPECT_COLOR
    }
}

pub fn is_format_depth(format: i32) -> (depth: bool)
    ensures
        depth == spec_is_format_depth(format),
{
    format == vulkan::FORMAT_D16_UNORM || format == vulkan::FORMAT_D32_SFLOAT || format
        == vulkan::FORMAT_D16_UNORM_S8_UINT || format == vulkan::FORMAT_D24_UNORM_S8_UINT || format
        == vulkan::FORMAT_D32_SFLOAT_S8_UINT
}

pub fn has_stencil_component(format: i32) -> (stencil: bool)
    ensures
        stencil == spec_has_stencil_component(format),
        stencil ==> spec_is_format_depth(format),
{
    format == vulkan::FORMAT_D16_UNORM_S8_UINT || format == vulkan::FORMAT_D24_UNORM_S8_UINT || format
        == vulkan::FORMAT_D32_SFLOAT_S8_UINT
}

pub fn get_image_aspect(format: i32) -> (aspect: u32)
    ensures
        aspect == spec_image_aspect(format),
{
    if is_format_depth(format) {
        if has_stencil_component(format) {
            vulkan::IMAGE_ASPECT_DEPTH | vulkan::IMAGE_ASPECT_STENCIL
        } else {
            vulkan::IMAGE_ASPECT_DEPTH
        }
    } else {
        vulkan::IMAGE_ASPECT_COLOR
    }
}

/// How a command touches an image: what it may read or write, the layout it wants
/// the image in, and the pipeline stage at which it happens.
#[derive(Debug, Clone, Copy, PartialEq, Eq, Structural)]
pub enum ImageAccess {
    /// No access yet: the image's contents are undefined.
    NoAccess,
    TransferRead,
    TransferWrite,
    ShaderRead,
    PipelineAttachment,
    Present,
}

impl ImageAccess {
    /// The access mask of this state in a barrier.
    pub open spec fn access_flags(self, is_depth_format: bool) -> u32 {
        match self {
            ImageAccess::NoAccess => vulkan::ACCESS_NONE,
            ImageAccess::TransferRead => vulkan::ACCESS_TRANSFER_READ,
            ImageAccess::TransferWrite => vulkan::ACCESS_TRANSFER_WRITE,
            ImageAccess::ShaderRead => vulkan::ACCESS_SHADER_READ,
            ImageAccess::PipelineAttachment => if is_depth_format {
                vulkan::ACCESS_DEPTH_STENCIL_ATTACHMENT_READ | vulkan::ACCESS_DEPTH_STENCIL_ATTACHMENT_WRITE
            } else {
                vulkan::ACCESS_COLOR_ATTACHMENT_WRITE
            },
            ImageAccess::Present => vulkan::ACCESS_MEMORY_READ,
        }
    }

    /// The usage that an image must be created with to be put in this state.
    pub open spec fn usage_flags(self, is_depth_format: bool) -> u32 {
        match self {
            ImageAccess::NoAccess => vulkan::IMAGE_USAGE_NONE,
            ImageAccess::TransferRead => vulkan::IMAGE_USAGE_TRANSFER_SRC,
            ImageAccess::TransferWrite => vulkan::IMAGE_USAGE_TRANSFER_DST,
            ImageAccess::ShaderRead => vulkan::IMAGE_USAGE_SAMPLED,
            ImageAccess::PipelineAttachment => if is_depth_format {
                vulkan::IMAGE_USAGE_DEPTH_STENCIL_ATTACHMENT
            } else {
                vulkan::IMAGE_USAGE_COLOR_ATTACHMENT | vulkan::IMAGE_USAGE_STORAGE
            },
            ImageAccess::Present => vulkan::IMAGE_USAGE_NONE,
        }
    }

    /// The layout that this state wants the image in.
    pub open spec fn image_layout(self, is_depth_format: bool) -> i32 {
        match self {
            ImageAccess::NoAccess => vulkan::IMAGE_LAYOUT_UNDEFINED,
            ImageAccess::TransferRead => vulkan::IMAGE_LAYOUT_TRANSFER_SRC_OPTIMAL,
            ImageAccess::TransferWrite => vulkan::IMAGE_LAYOUT_TRANSFER_DST_OPTIMAL,
            ImageAccess::ShaderRead => vulkan::IMAGE_LAYOUT_SHADER_READ_ONLY_OPTIMAL,
            ImageAccess::PipelineAttachment => if is_depth_format {
                vulkan::IMAGE_LAYOUT_DEPTH_STENCIL_ATTACHMENT_OPTIMAL
            } else {
                vulkan::IMAGE_LAYOUT_COLOR_ATTACHMENT_OPTIMAL
            },
            ImageAccess::Present => vulkan::IMAGE_LAYOUT_PRESENT_SRC_KHR,
        }
    }

    /// The pipeline stage at which this access happens.
    pub open spec fn pipeline_stage(self) -> u32 {
        match self {
            ImageAccess::NoAccess => vulkan::PIPELINE_STAGE_TOP_OF_PIPE,
            ImageAccess::TransferRead => vulkan::PIPELINE_STAGE_TRANSFER,
            ImageAccess::TransferWrite => vulkan::PIPELINE_STAGE_TRANSFER,
            ImageAccess::ShaderRead => vulkan::PIPELINE_STAGE_FRAGMENT_SHADER,
            ImageAccess::PipelineAttachment => vulkan::PIPELINE_STAGE_ALL_GRAPHICS,
            ImageAccess::Present => vulkan::PIPELINE_STAGE_BOTTOM_OF_PIPE,
        }
    }

    pub fn to_access_flags(&self, is_depth_format: bool) -> (flags: u32)
        ensures
            flags == self.access_flags(is_depth_format),
    {
        match self {
            ImageAccess::NoAccess => vulkan::ACCESS_NONE,
            ImageAccess::TransferRead => vulkan::ACCESS_TRANSFER_READ,
            ImageAccess::TransferWrite => vulkan::ACCESS_TRANSFER_WRITE,
            ImageAccess::ShaderRead => vulkan::ACCESS_SHADER_READ,
            ImageAccess::PipelineAttachment => {
                if is_depth_format {
                    vulkan::ACCESS_DEPTH_STENCIL_ATTACHMENT_READ | vulkan::ACCESS_DEPTH_STENCIL_ATTACHMENT_WRITE
                } else {
                    vulkan::ACCESS_COLOR_ATTACHMENT_WRITE
                }
            },
            ImageAccess::Present => vulkan::ACCESS_MEMORY_READ,
        }
    }

    pub fn to_usage_flags(&self, is_depth_format: bool) -> (flags: u32)
        ensures
            flags == self.usage_flags(is_depth_format),
    {
        match self {
            ImageAccess::NoAccess => vulkan::IMAGE_USAGE_NONE,
            ImageAccess::TransferRead => vulkan::IMAGE_USAGE_TRANSFER_SRC,
            ImageAccess::TransferWrite => vulkan::IMAGE_USAGE_TRANSFER_DST,
            ImageAccess::ShaderRead => vulkan::IMAGE_USAGE_SAMPLED,
            ImageAccess::PipelineAttachment => {
                if is_depth_format {
                    vulkan::IMAGE_USAGE_DEPTH_STENCIL_ATTACHMENT
                } else {
                    vulkan::IMAGE_USAGE_COLOR_ATTACHMENT | vulkan::IMAGE_USAGE_STORAGE
                }
            },
            ImageAccess::Present => vulkan::IMAGE_USAGE_NONE,
        }
    }

    pub fn get_image_layout(&self, is_depth_format: bool) -> (layout: i32)
        ensures
            layout == self.image_layout(is_depth_format),
    {
        match self {
            ImageAccess::NoAccess => vulkan::IMAGE_LAYOUT_UNDEFINED,
            ImageAccess::TransferRead => vulkan::IMAGE_LAYOUT_TRANSFER_SRC_OPTIMAL,
            ImageAccess::TransferWrite => vulkan::IMAGE_LAYOUT_TRANSFER_DST_OPTIMAL,
            ImageAccess::ShaderRead => vulkan::IMAGE_LAYOUT_SHADER_READ_ONLY_OPTIMAL,
            ImageAccess::PipelineAttachment => {
                if is_depth_format {
                    vulkan::IMAGE_LAYOUT_DEPTH_STENCIL_ATTACHMENT_OPTIMAL
                } else {
                    vulkan::IMAGE_LAYOUT_COLOR_ATTACHMENT_OPTIMAL
                }
            },
            ImageAccess::Present => vulkan::IMAGE_LAYOUT_PRESENT_SRC_KHR,
        }
    }

    pub fn get_pipeline_stage(&self) -> (stage: u32)
        ensures
            stage == self.pipeline_stage(),
    {
        match self {
            ImageAccess::NoAccess => vulkan::PIPELINE_STAGE_TOP_OF_PIPE,
            ImageAccess::TransferRead => vulkan::PIPELINE_STAGE_TRANSFER,
            ImageAccess::TransferWrite => vulkan::PIPELINE_STAGE_TRANSFER,
            ImageAccess::ShaderRead => vulkan::PIPELINE_STAGE_FRAGMENT_SHADER,
            ImageAccess::PipelineAttachment => vulkan::PIPELINE_STAGE_ALL_GRAPHICS,
            ImageAccess::Present => vulkan::PIPELINE_STAGE_BOTTOM_OF_PIPE,
        }
    }
}

/// Why an image could not be created.
#[derive(Debug, Clone, PartialEq, Eq)]
pub enum Image2dError {
    /// The device could not create the image; its result code.
    CreateError(i32),
    /// The device could not create the view; its result code.
    ViewCreateError(i32),
    MemoryAllocationError(GAllocatorError),
    MemoryNotFoundError,
    /// The device could not bind the memory to the image; its result code.
    MemoryBindError(i32),
}

/// A two-dimensional image: its handle, the view onto it, its format, its size,
/// and the memory it is bound to, if this library bound it. The images of a
/// presentation surface are bound by the surface.
#[derive(Debug, Clone, Copy, PartialEq, Eq, Structural)]
pub struct Image2d {
    pub image_view: u64,
    pub image: u64,
    pub format: i32,
    pub extent: Extent2D,
    pub bound_mem: Option<BoundMemory>,
}

/// How to create an image (`VkImageCreateInfo`).
#[derive(Debug, Clone, Copy, PartialEq, Eq, Structural)]
pub struct ImageCreateInfo {
    pub image_type: i32,
    pub format: i32,
    pub extent: Extent3D,
    pub mip_levels: u32,
    pub array_layers: u32,
    pub samples: u32,
    pub usage: u32,
}

/// How to create a view onto an image (`VkImageViewCreateInfo`).
#[derive(Debug, Clone, Copy, PartialEq, Eq, Structural)]
pub struct ImageViewCreateInfo {
    pub image: u64,
    pub view_type: i32,
    pub format: i32,
    pub subresource_range: ImageSubresourceRange,
}

/// What creating an image takes: the image to create, and, where it is to get
/// memory of its own, whether that memory is the device's alone.
#[derive(Debug, Clone, Copy, PartialEq, Eq, Structural)]
pub struct ImagePlan {
    pub create_info: ImageCreateInfo,
    pub gpu_local: Option<bool>,
}

/// The usage that an image must be created with to be put in each of the states.
pub open spec fn usage_of(accesses: Seq<ImageAccess>, is_depth_format: bool) -> u32
    decreases accesses.len(),
{
    if accesses.len() == 0 {
        vulkan::IMAGE_USAGE_NONE
    } else {
        usage_of(accesses.drop_last(), is_depth_format) | accesses.last().usage_flags(
            is_depth_format,
        )
    }
}

impl Image2d {
    /// The single mip level and single layer of an image of the given format.
    pub open spec fn subresource_layers_of(format: i32) -> ImageSubresourceLayers {
        ImageSubresourceLayers {
            aspect_mask: spec_image_aspect(format),
            mip_level: 0,
            base_array_layer: 0,
            layer_count: 1,
        }
    }

    /// The whole of an image of the given format: one mip level, one layer.
    pub open spec fn subresource_range_of(format: i32) -> ImageSubresourceRange {
        ImageSubresourceRange {
            aspect_mask: spec_image_aspect(format),
            base_mip_level: 0,
            level_count: 1,
            base_array_layer: 0,
            layer_count: 1,
        }
    }

    /// The size of the image as a volume one texel deep.
    pub open spec fn spec_extent3d(self) -> Extent3D {
        Extent3D { width: self.extent.width, height: self.extent.height, depth: 1 }
    }

    /// The two corners of the whole image: the origin, and the texel past the last.
    /// The device takes the far corner as signed 32-bit numbers.
    pub open spec fn spec_full_size_offset(self) -> [Offset3D; 2] {
        [
            Offset3D { x: 0, y: 0, z: 0 },
            Offset3D { x: self.extent.width as i32, y: self.extent.height as i32, z: 1 },
        ]
    }

    pub fn make_subresource(format: i32) -> (layers: ImageSubresourceLayers)
        ensures
            layers == Self::subresource_layers_of(format),
    {
        ImageSubresourceLayers {
            aspect_mask: get_image_aspect(format),
            mip_level: 0,
            base_array_layer: 0,
            layer_count: 1,
        }
    }

    pub fn make_subresource_range(format: i32) -> (range: ImageSubresourceRange)
        ensures
            range == Self::subresource_range_of(format),
    {
        ImageSubresourceRange {
            aspect_mask: get_image_aspect(format),
            base_mip_level: 0,
            level_count: 1,
            base_array_layer: 0,
            layer_count: 1,
        }
    }

    pub fn get_subresource_range(&self) -> (range: ImageSubresourceRange)
        ensures
            range == Self::subresource_range_of(self.format),
    {
        Self::make_subresource_range(self.format)
    }

    pub fn get_subresource_layers(&self) -> (layers: ImageSubresourceLayers)
        ensures
            layers == Self::subresource_layers_of(self.format),
    {
        Self::make_subresource(self.format)
    }

    pub fn get_full_size_offset(&self) -> (corners: [Offset3D; 2])
        ensures
            corners == self.spec_full_size_offset(),
    {
        [
            Offset3D { x: 0, y: 0, z: 0 },
            Offset3D {
                x: #[verifier::truncate] (self.extent.width as i32),
                y: #[verifier::truncate] (self.extent.height as i32),
                z: 1,
            },
        ]
    }

    /// How to create the view onto an image: a two-dimensional view of the whole
    /// image, in the image's format.
    pub fn create_image_view(image: u64, format: i32) -> (info: ImageViewCreateInfo)
        ensures
            info == (ImageViewCreateInfo {
                image,
                view_type: vulkan::IMAGE_VIEW_TYPE_2D,
                format,
                subresource_range: Self::subresource_range_of(format),
            }),
    {
        ImageViewCreateInfo {
            image,
            view_type: vulkan::IMAGE_VIEW_TYPE_2D,
            format,
            subresource_range: Self::make_subresource_range(format),
        }
    }

    /// What is to be destroyed when the image is given up: the view, then the
    /// image.
    pub fn delete_events(&self) -> (events: [PainterDelete; 2])
        ensures
            events@ == seq![
                PainterDelete::ImageView(self.image_view),
                PainterDelete::Image(self.image),
            ],
    {
        let events = [PainterDelete::ImageView(self.image_view), PainterDelete::Image(self.image)];
        assert(events@ =~= seq![
            PainterDelete::ImageView(self.image_view),
            PainterDelete::Image(self.image),
        ]);
        events
    }

    pub fn extent3d(&self) -> (extent: Extent3D)
        ensures
            extent == self.spec_extent3d(),
    {
        Extent3D { width: self.extent.width, height: self.extent.height, depth: 1 }
    }
}

impl Painter {
    /// What creating a two-dimensional image takes: one mip level, one layer, one
    /// sample, and the usage that the given states call for. `with_memory` says
    /// whether the image gets memory from an allocator, `mem_host_visible` whether
    /// the host is to see that memory.
    pub fn new_image_2d(
        &self,
        format: i32,
        extent: Extent2D,
        image_usage_flags: &[ImageAccess],
        with_memory: bool,
        mem_host_visible: Option<bool>,
    ) -> (plan: ImagePlan)
        ensures
            plan.create_info == (ImageCreateInfo {
                image_type: vulkan::IMAGE_TYPE_2D,
                format,
                extent: Extent3D { width: extent.width, height: extent.height, depth: 1 },
                mip_levels: 1,
                array_layers: 1,
                samples: vulkan::SAMPLE_COUNT_1,
                usage: usage_of(image_usage_flags@, spec_is_format_depth(format)),
            }),
            plan.gpu_local == (if with_memory {
                Some(spec_gpu_local(mem_host_visible))
            } else {
                None
            }),
    {
        let is_depth_format = is_format_depth(format);
        let mut usage: u32 = vulkan::IMAGE_USAGE_NONE;
        let mut i: usize = 0;
        while i < image_usage_flags.len()
            invariant
                i <= image_usage_flags.len(),
                usage == usage_of(image_usage_flags@.take(i as int), is_depth_format),
            decreases image_usage_flags.len() - i,
        {
            let ghost next = image_usage_flags@.take(i + 1);
            assert(next.drop_last() =~= image_usage_flags@.take(i as int));
            assert(next.last() == image_usage_flags@[i as int]);
            usage = usage | image_usage_flags[i].to_usage_flags(is_depth_format);
            i += 1;
        }
        assert(image_usage_flags@.take(i as int) =~= image_usage_flags@);
        ImagePlan {
            create_info: ImageCreateInfo {
                image_type: vulkan::IMAGE_TYPE_2D,
                format,
                extent: Extent3D { width: extent.width, height: extent.height, depth: 1 },
                mip_levels: 1,
                array_layers: 1,
                samples: vulkan::SAMPLE_COUNT_1,
                usage,
            },
            gpu_local: if with_memory {
                Some(gpu_local(mem_host_visible))
            } else {
                None
            },
        }
    }
}

} // verus!
