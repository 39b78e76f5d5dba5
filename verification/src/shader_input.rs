//! Shader inputs: what kinds there are, and how a layout of bindings is described
//! to the device.

use vstd::prelude::*;
use crate::vulkan;

verus! {

/// The kind of resource that a shader reads through a binding.
#[derive(Debug, Clone, Copy, PartialEq, Eq, Structural)]
pub enum ShaderInputType {
    UniformBuffer,
    StorageBuffer,
    SampledImage2d,
    Sampler,
}

impl ShaderInputType {
    /// The device's descriptor type for the kind.
    pub open spec fn descriptor_type(self) -> i32 {
        match self {
            ShaderInputType::UniformBuffer => vulkan::DESCRIPTOR_TYPE_UNIFORM_BUFFER,
            ShaderInputType::StorageBuffer => vulkan::DESCRIPTOR_TYPE_STORAGE_BUFFER,
            ShaderInputType::SampledImage2d => vulkan::DESCRIPTOR_TYPE_SAMPLED_IMAGE,
            ShaderInputType::Sampler => vulkan::DESCRIPTOR_TYPE_SAMPLER,
        }
    }

    pub fn get_descriptor_type(&self) -> (descriptor_type: i32)
        ensures
            descriptor_type == self.descriptor_type(),
    {
        match self {
            ShaderInputType::UniformBuffer => vulkan::DESCRIPTOR_TYPE_UNIFORM_BUFFER,
            ShaderInputType::StorageBuffer => vulkan::DESCRIPTOR_TYPE_STORAGE_BUFFER,
            ShaderInputType::SampledImage2d => vulkan::DESCRIPTOR_TYPE_SAMPLED_IMAGE,
            ShaderInputType::Sampler => vulkan::DESCRIPTOR_TYPE_SAMPLER,
        }
    }
}

/// One binding of a layout: the kind of its resources, how many there are, and
/// whether they may be written after the set is bound.
#[derive(Debug, Clone, Copy, PartialEq, Eq, Structural)]
pub struct ShaderInputBindingInfo {
    pub _type: ShaderInputType,
    pub count: u32,
    pub dynamic: bool,
}

/// A binding as the device takes it (`VkDescriptorSetLayoutBinding`), with the
/// flags that go with it.
#[derive(Debug, Clone, Copy, PartialEq, Eq, Structural)]
pub struct LayoutBinding {
    pub binding: u32,
    pub descriptor_type: i32,
    pub descriptor_count: u32,
    pub stage_flags: u32,
    pub binding_flags: u32,
}

impl ShaderInputBindingInfo {
    /// The flags of the binding: a dynamic one is updated after binding and may be
    /// partially bound.
    pub open spec fn binding_flags(self) -> u32 {
        if self.dynamic {
            vulkan::DESCRIPTOR_BINDING_UPDATE_AFTER_BIND | vulkan::DESCRIPTOR_BINDING_PARTIALLY_BOUND
        } else {
            vulkan::DESCRIPTOR_BINDING_NONE
        }
    }

    /// The binding at place `binding` of a layout, visible to every shader stage.
    pub open spec fn layout_binding(self, binding: u32) -> LayoutBinding {
        LayoutBinding {
            binding,
            descriptor_type: self._type.descriptor_type(),
            descriptor_count: self.count,
            stage_flags: vulkan::SHADER_STAGE_ALL,
            binding_flags: self.binding_flags(),
        }
    }
}

/// The bindings of a layout as the device takes them, numbered from 0 in order.
/// The device numbers bindings with 32 bits.
pub fn layout_bindings(bindings: &[ShaderInputBindingInfo]) -> (described: Vec<LayoutBinding>)
    ensures
        described@ == Seq::new(
            bindings@.len(),
            |i: int| bindings@[i].layout_binding(i as u32),
        ),
{
    let mut described: Vec<LayoutBinding> = Vec::new();
    let mut i: usize = 0;
    while i < bindings.len()
        invariant
            i <= bindings.len(),
            described@ == Seq::new(i as nat, |k: int| bindings@[k].layout_binding(k as u32)),
        decreases bindings.len() - i,
    {
        let info = &bindings[i];
        let binding_flags = if info.dynamic {
            vulkan::DESCRIPTOR_BINDING_UPDATE_AFTER_BIND | vulkan::DESCRIPTOR_BINDING_PARTIALLY_BOUND
        } else {
            vulkan::DESCRIPTOR_BINDING_NONE
        };
        described.push(
            LayoutBinding {
                binding: #[verifier::truncate] (i as u32),
                descriptor_type: info._type.get_descriptor_type(),
                descriptor_count: info.count,
                stage_flags: vulkan::SHADER_STAGE_ALL,
                binding_flags,
            },
        );
        i += 1;
        assert(described@ =~= Seq::new(
            i as nat,
            |k: int| bindings@[k].layout_binding(k as u32),
        ));
    }
    described
}

/// How many descriptors of one type a pool holds (`VkDescriptorPoolSize`).
#[derive(Debug, Clone, Copy, PartialEq, Eq, Structural)]
pub struct DescriptorPoolSize {
    pub descriptor_type: i32,
    pub descriptor_count: u32,
}

/// How to create a descriptor pool (`VkDescriptorPoolCreateInfo`).
#[derive(Debug, Clone, PartialEq, Eq)]
pub struct DescriptorPoolCreateInfo {
    pub flags: u32,
    pub max_sets: u32,
    pub pool_sizes: Vec<DescriptorPoolSize>,
}

/// The pool that shader inputs are allocated from.
#[derive(Debug, Clone, Copy, PartialEq, Eq, Structural)]
pub struct ShaderInputAllocator {
    pub descriptor_pool: u64,
}

impl ShaderInputAllocator {
    /// How to create the pool: room for the given number of inputs of each kind,
    /// in at most `max_sets` sets, which may be updated after they are bound.
    pub fn pool_create_info(counts: &[(ShaderInputType, u32)], max_sets: u32) -> (info:
        DescriptorPoolCreateInfo)
        ensures
            info.flags == vulkan::DESCRIPTOR_POOL_CREATE_UPDATE_AFTER_BIND,
            info.max_sets == max_sets,
            info.pool_sizes@ == Seq::new(
                counts@.len(),
                |i: int|
                    DescriptorPoolSize {
                        descriptor_type: counts@[i].0.descriptor_type(),
                        descriptor_count: counts@[i].1,
                    },
            ),
    {
        let mut pool_sizes: Vec<DescriptorPoolSize> = Vec::new();
        let mut i: usize = 0;
        while i < counts.len()
            invariant
                i <= counts.len(),
                pool_sizes@ == Seq::new(
                    i as nat,
                    |k: int|
                        DescriptorPoolSize {
                            descriptor_type: counts@[k].0.descriptor_type(),
                            descriptor_count: counts@[k].1,
                        },
                ),
            decreases counts.len() - i,
        {
            pool_sizes.push(
                DescriptorPoolSize {
                    descriptor_type: counts[i].0.get_descriptor_type(),
                    descriptor_count: counts[i].1,
                },
            );
            i += 1;
            assert(pool_sizes@ =~= Seq::new(
                i as nat,
                |k: int|
                    DescriptorPoolSize {
                        descriptor_type: counts@[k].0.descriptor_type(),
                        descriptor_count: counts@[k].1,
                    },
            ));
        }
        DescriptorPoolCreateInfo {
            flags: vulkan::DESCRIPTOR_POOL_CREATE_UPDATE_AFTER_BIND,
            max_sets,
            pool_sizes,
        }
    }
}

} // verus!
