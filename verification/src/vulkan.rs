//! Numeric values of the Vulkan API that the painter hands to the device.
//!
//! Handles are carried as their raw 64-bit values, enumerants as `i32`, and flag
//! sets as `u32` bit masks, exactly as the API transmits them.

use vstd::prelude::*;

verus! {

/// `VkFormat`.
pub const FORMAT_UNDEFINED: i32 = 0;
pub const FORMAT_R8G8B8A8_UNORM: i32 = 37;
pub const FORMAT_R8G8B8A8_SRGB: i32 = 43;
pub const FORMAT_B8G8R8A8_UNORM: i32 = 44;
pub const FORMAT_B8G8R8A8_SRGB: i32 = 50;
pub const FORMAT_D16_UNORM: i32 = 124;
pub const FORMAT_D32_SFLOAT: i32 = 126;
pub const FORMAT_D16_UNORM_S8_UINT: i32 = 128;
pub const FORMAT_D24_UNORM_S8_UINT: i32 = 129;
pub const FORMAT_D32_SFLOAT_S8_UINT: i32 = 130;

/// `VkImageAspectFlagBits`.
pub const IMAGE_ASPECT_COLOR: u32 = 0x1;
pub const IMAGE_ASPECT_DEPTH: u32 = 0x2;
pub const IMAGE_ASPECT_STENCIL: u32 = 0x4;

/// `VkAccessFlagBits`.
pub const ACCESS_NONE: u32 = 0;
pub const ACCESS_SHADER_READ: u32 = 0x20;
pub const ACCESS_COLOR_ATTACHMENT_WRITE: u32 = 0x100;
pub const ACCESS_DEPTH_STENCIL_ATTACHMENT_READ: u32 = 0x200;
pub const ACCESS_DEPTH_STENCIL_ATTACHMENT_WRITE: u32 = 0x400;
pub const ACCESS_TRANSFER_READ: u32 = 0x800;
pub const ACCESS_TRANSFER_WRITE: u32 = 0x1000;
pub const ACCESS_MEMORY_READ: u32 = 0x8000;

/// `VkImageUsageFlagBits`.
pub const IMAGE_USAGE_NONE: u32 = 0;
pub const IMAGE_USAGE_TRANSFER_SRC: u32 = 0x1;
pub const IMAGE_USAGE_TRANSFER_DST: u32 = 0x2;
pub const IMAGE_USAGE_SAMPLED: u32 = 0x4;
pub const IMAGE_USAGE_STORAGE: u32 = 0x8;
pub const IMAGE_USAGE_COLOR_ATTACHMENT: u32 = 0x10;
pub const IMAGE_USAGE_DEPTH_STENCIL_ATTACHMENT: u32 = 0x20;

/// `VkImageLayout`.
pub const IMAGE_LAYOUT_UNDEFINED: i32 = 0;
pub const IMAGE_LAYOUT_COLOR_ATTACHMENT_OPTIMAL: i32 = 2;
pub const IMAGE_LAYOUT_DEPTH_STENCIL_ATTACHMENT_OPTIMAL: i32 = 3;
pub const IMAGE_LAYOUT_SHADER_READ_ONLY_OPTIMAL: i32 = 5;
pub const IMAGE_LAYOUT_TRANSFER_SRC_OPTIMAL: i32 = 6;
pub const IMAGE_LAYOUT_TRANSFER_DST_OPTIMAL: i32 = 7;
pub const IMAGE_LAYOUT_PRESENT_SRC_KHR: i32 = 1_000_001_002;

/// `VkPipelineStageFlagBits`.
pub const PIPELINE_STAGE_TOP_OF_PIPE: u32 = 0x1;
pub const PIPELINE_STAGE_FRAGMENT_SHADER: u32 = 0x80;
pub const PIPELINE_STAGE_TRANSFER: u32 = 0x1000;
pub const PIPELINE_STAGE_BOTTOM_OF_PIPE: u32 = 0x2000;
pub const PIPELINE_STAGE_ALL_GRAPHICS: u32 = 0x8000;

/// `VkDependencyFlagBits`.
pub const DEPENDENCY_BY_REGION: u32 = 0x1;

/// `VkCommandBufferUsageFlagBits`.
pub const COMMAND_BUFFER_USAGE_NONE: u32 = 0;
pub const COMMAND_BUFFER_USAGE_ONE_TIME_SUBMIT: u32 = 0x1;

/// `VkFenceCreateFlagBits`.
pub const FENCE_CREATE_NONE: u32 = 0;
pub const FENCE_CREATE_SIGNALED: u32 = 0x1;

/// `VkFilter`, `VkIndexType`, `VkPipelineBindPoint`, `VkSubpassContents`.
pub const FILTER_NEAREST: i32 = 0;
pub const INDEX_TYPE_UINT32: i32 = 1;
pub const PIPELINE_BIND_POINT_GRAPHICS: i32 = 0;
pub const SUBPASS_CONTENTS_INLINE: i32 = 0;

/// `VkShaderStageFlagBits`.
pub const SHADER_STAGE_ALL: u32 = 0x7FFF_FFFF;

/// `VkDescriptorType`.
pub const DESCRIPTOR_TYPE_SAMPLER: i32 = 0;
pub const DESCRIPTOR_TYPE_SAMPLED_IMAGE: i32 = 2;
pub const DESCRIPTOR_TYPE_UNIFORM_BUFFER: i32 = 6;
pub const DESCRIPTOR_TYPE_STORAGE_BUFFER: i32 = 7;

/// `VkDescriptorBindingFlagBits`.
pub const DESCRIPTOR_BINDING_NONE: u32 = 0;
pub const DESCRIPTOR_BINDING_UPDATE_AFTER_BIND: u32 = 0x1;
pub const DESCRIPTOR_BINDING_PARTIALLY_BOUND: u32 = 0x4;

/// `VkResult`.
pub const RESULT_SUCCESS: i32 = 0;
pub const RESULT_SUBOPTIMAL_KHR: i32 = 1_000_001_003;
pub const RESULT_ERROR_OUT_OF_DATE_KHR: i32 = -1_000_001_004;

/// `VkPresentModeKHR`, `VkColorSpaceKHR`.
pub const PRESENT_MODE_MAILBOX: i32 = 1;
pub const PRESENT_MODE_FIFO: i32 = 2;
pub const COLOR_SPACE_SRGB_NONLINEAR: i32 = 0;

/// `VkFormatFeatureFlagBits`.
pub const FORMAT_FEATURE_STORAGE_IMAGE: u32 = 0x2;
pub const FORMAT_FEATURE_COLOR_ATTACHMENT: u32 = 0x80;
pub const FORMAT_FEATURE_DEPTH_STENCIL_ATTACHMENT: u32 = 0x200;
pub const FORMAT_FEATURE_TRANSFER_DST: u32 = 0x8000;

/// `VkQueueFlagBits`, `VkPhysicalDeviceType`.
pub const QUEUE_GRAPHICS: u32 = 0x1;
pub const PHYSICAL_DEVICE_TYPE_DISCRETE_GPU: i32 = 2;

/// `VkAttachmentLoadOp`, `VkAttachmentStoreOp`, `VkSampleCountFlagBits`.
pub const ATTACHMENT_LOAD_OP_CLEAR: i32 = 1;
pub const ATTACHMENT_STORE_OP_STORE: i32 = 0;
pub const ATTACHMENT_STORE_OP_DONT_CARE: i32 = 1;
pub const SAMPLE_COUNT_1: u32 = 0x1;

/// `VkSharingMode`, `VkCompositeAlphaFlagBitsKHR`, `VkImageType`, `VkImageViewType`.
pub const SHARING_MODE_EXCLUSIVE: i32 = 0;
pub const COMPOSITE_ALPHA_OPAQUE: u32 = 0x1;
pub const IMAGE_TYPE_2D: i32 = 1;
pub const IMAGE_VIEW_TYPE_2D: i32 = 1;

/// `VkCommandPoolCreateFlagBits`, `VkCommandBufferLevel`.
pub const COMMAND_POOL_CREATE_RESET_COMMAND_BUFFER: u32 = 0x2;
pub const COMMAND_BUFFER_LEVEL_PRIMARY: i32 = 0;

/// `VkDescriptorSetLayoutCreateFlagBits`, `VkDescriptorPoolCreateFlagBits`.
pub const DESCRIPTOR_SET_LAYOUT_CREATE_UPDATE_AFTER_BIND_POOL: u32 = 0x2;
pub const DESCRIPTOR_POOL_CREATE_UPDATE_AFTER_BIND: u32 = 0x2;

/// The handle that stands for no object (`VK_NULL_HANDLE`).
pub const NULL_HANDLE: u64 = 0;

/// The width and height of a two-dimensional image (`VkExtent2D`).
#[derive(Debug, Clone, Copy, PartialEq, Eq, Structural)]
pub struct Extent2D {
    pub width: u32,
    pub height: u32,
}

/// The width, height and depth of an image (`VkExtent3D`).
#[derive(Debug, Clone, Copy, PartialEq, Eq, Structural)]
pub struct Extent3D {
    pub width: u32,
    pub height: u32,
    pub depth: u32,
}

/// A texel position (`VkOffset3D`).
#[derive(Debug, Clone, Copy, PartialEq, Eq, Structural)]
pub struct Offset3D {
    pub x: i32,
    pub y: i32,
    pub z: i32,
}

/// The mip levels and array layers that a barrier or a view covers
/// (`VkImageSubresourceRange`).
#[derive(Debug, Clone, Copy, PartialEq, Eq, Structural)]
pub struct ImageSubresourceRange {
    pub aspect_mask: u32,
    pub base_mip_level: u32,
    pub level_count: u32,
    pub base_array_layer: u32,
    pub layer_count: u32,
}

/// The one mip level and the array layers that a copy touches
/// (`VkImageSubresourceLayers`).
#[derive(Debug, Clone, Copy, PartialEq, Eq, Structural)]
pub struct ImageSubresourceLayers {
    pub aspect_mask: u32,
    pub mip_level: u32,
    pub base_array_layer: u32,
    pub layer_count: u32,
}

} // verus!
