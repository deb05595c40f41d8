//! The pure parts of the Vulkan bindings that the library relies on: version numbers
//! and flags. What is stated of them here is taken from the bindings, not proved.

use vstd::prelude::*;
use ash::vk;

verus! {

/// The value of `VK_PHYSICAL_DEVICE_TYPE_INTEGRATED_GPU`.
pub const INTEGRATED_GPU: i32 = 1;

/// The value of `VK_PHYSICAL_DEVICE_TYPE_DISCRETE_GPU`.
pub const DISCRETE_GPU: i32 = 2;

/// The value of `VK_QUEUE_COMPUTE_BIT`.
pub const QUEUE_COMPUTE: u32 = 0x2;

/// The value of `VK_MEMORY_HEAP_DEVICE_LOCAL_BIT`.
pub const HEAP_DEVICE_LOCAL: u32 = 0x1;

/// The value of `VK_SHARING_MODE_EXCLUSIVE`: one queue family at a time owns a resource.
pub const SHARING_EXCLUSIVE: i32 = 0;

/// The value of `VK_DESCRIPTOR_TYPE_STORAGE_BUFFER`.
pub const DESCRIPTOR_STORAGE_BUFFER: i32 = 7;

/// The value of `VK_SHADER_STAGE_COMPUTE_BIT`.
pub const STAGE_COMPUTE: u32 = 0x20;

/// The value of `VK_PIPELINE_BIND_POINT_COMPUTE`.
pub const BIND_POINT_COMPUTE: i32 = 1;

/// The value of `VK_COMMAND_POOL_CREATE_RESET_COMMAND_BUFFER_BIT`: the buffers of a pool
/// can be reset one by one.
pub const POOL_RESET_COMMAND_BUFFER: u32 = 0x2;

/// The value of `VK_COMMAND_BUFFER_LEVEL_PRIMARY`: command buffers that can be submitted.
pub const LEVEL_PRIMARY: i32 = 0;

/// The value of `VK_COMMAND_BUFFER_USAGE_ONE_TIME_SUBMIT_BIT`.
pub const USAGE_ONE_TIME_SUBMIT: u32 = 0x1;

/// The value of `VK_QUERY_TYPE_TIMESTAMP`.
pub const QUERY_TIMESTAMP: i32 = 2;

/// The value of `VK_QUERY_RESULT_64_BIT`.
pub const RESULT_64: u32 = 0x1;

/// The value of `VK_PIPELINE_STAGE_TOP_OF_PIPE_BIT`.
pub const TOP_OF_PIPE: u32 = 0x1;

/// The value of `VK_PIPELINE_STAGE_BOTTOM_OF_PIPE_BIT`.
pub const BOTTOM_OF_PIPE: u32 = 0x2000;

/// No flags at all.
pub const NO_FLAGS: u32 = 0;

/// The value of `VK_BUFFER_USAGE_TRANSFER_SRC_BIT`.
pub const USAGE_TRANSFER_SRC: u32 = 0x1;

/// The value of `VK_BUFFER_USAGE_TRANSFER_DST_BIT`.
pub const USAGE_TRANSFER_DST: u32 = 0x2;

/// The value of `VK_BUFFER_USAGE_STORAGE_BUFFER_BIT`.
pub const USAGE_STORAGE_BUFFER: u32 = 0x20;

/// `ash::vk::make_api_version`: the four parts, shifted to their places in a version
/// number and joined.
pub assume_specification[ ash::vk::make_api_version ](
    variant: u32,
    major: u32,
    minor: u32,
    patch: u32,
) -> (r: u32)
    ensures
        r == (variant << 29u32) | (major << 22u32) | (minor << 12u32) | patch,
;

/// `ash::vk::api_version_major`: the seven bits of a version number from bit 22 on.
pub assume_specification[ ash::vk::api_version_major ](version: u32) -> (r: u32)
    ensures
        r == (version >> 22u32) & 0x7fu32,
;

/// `ash::vk::api_version_minor`: the ten bits of a version number from bit 12 on.
pub assume_specification[ ash::vk::api_version_minor ](version: u32) -> (r: u32)
    ensures
        r == (version >> 12u32) & 0x3ffu32,
;

/// `ash::vk::api_version_patch`: the twelve lowest bits of a version number.
pub assume_specification[ ash::vk::api_version_patch ](version: u32) -> (r: u32)
    ensures
        r == version & 0xfffu32,
;

/// `==` of two `ash::vk::PhysicalDeviceType`: whether their raw values are the same.
#[verifier::external_body]
pub(crate) fn same_device_type(a: i32, b: i32) -> (r: bool)
    ensures
        r == (a == b),
{
    vk::PhysicalDeviceType::from_raw(a) == vk::PhysicalDeviceType::from_raw(b)
}

/// `ash::vk::QueueFlags::contains`: whether all bits of `wanted` are set.
#[verifier::external_body]
pub(crate) fn queue_flags_contain(flags: u32, wanted: u32) -> (r: bool)
    ensures
        r == (flags & wanted == wanted),
{
    vk::QueueFlags::from_raw(flags).contains(vk::QueueFlags::from_raw(wanted))
}

/// `ash::vk::MemoryHeapFlags::contains`: whether all bits of `wanted` are set.
#[verifier::external_body]
pub(crate) fn heap_flags_contain(flags: u32, wanted: u32) -> (r: bool)
    ensures
        r == (flags & wanted == wanted),
{
    vk::MemoryHeapFlags::from_raw(flags).contains(vk::MemoryHeapFlags::from_raw(wanted))
}

/// `|` of two `ash::vk::BufferUsageFlags`: the bits of both.
#[verifier::external_body]
pub(crate) fn join_usage(a: u32, b: u32) -> (r: u32)
    ensures
        r == a | b,
{
    (vk::BufferUsageFlags::from_raw(a) | vk::BufferUsageFlags::from_raw(b)).as_raw()
}

} // verus!
