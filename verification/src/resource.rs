//! Resource descriptions: buffers, images, their flags, and subresource
//! ranges with the containment and overlap queries the analyzer relies on.

use vstd::prelude::*;

use crate::format::{Format, FMT_UNKNOWN};

verus! {

/// No resource: the reserved invalid identity.
pub const RESOURCE_ID_INVALID: u32 = 0xFFFF_FFFF;

/// What kind of memory object a resource is.
#[derive(Clone, Copy, Debug, PartialEq, Eq, Structural)]
pub enum ResourceType {
    Unknown,
    Buffer,
    Image1D,
    Image2D,
    Image3D,
}

/// Flags of a declared resource.
pub type ResourceFlags = u32;

pub const RESOURCE_FLAG_NONE: ResourceFlags = 0;
pub const RESOURCE_FLAG_CUBEMAP_COMPATIBLE: ResourceFlags = 1u32 << 1;
pub const RESOURCE_FLAG_ROWMAJOR_IMAGE: ResourceFlags = 1u32 << 2;
pub const RESOURCE_FLAG_PREFER_GPU_LOCAL_CPU_VISIBLE: ResourceFlags = 1u32 << 3;
pub const RESOURCE_FLAG_PREFER_DEDICATED_ALLOCATION: ResourceFlags = 1u32 << 4;
pub const RESOURCE_FLAG_PERSISTENT: ResourceFlags = 1u32 << 15;

/// Extent and format of an image resource.
#[derive(Clone, Copy, Debug, PartialEq, Eq, Structural)]
pub struct ResourceImageDesc {
    pub width: u32,
    pub height: u32,
    pub depth_or_array_layers: u32,
    pub mip_levels: u32,
    pub format: Format,
    pub sample_count: u32,
}

/// Byte size of a buffer resource, split into two 32-bit halves.
#[derive(Clone, Copy, Debug, PartialEq, Eq, Structural)]
pub struct ResourceBufferDesc {
    pub size_in_bytes_lo: u32,
    pub size_in_bytes_hi: u32,
}

/// The payload of a resource description: an image extent or a buffer size.
#[derive(Clone, Copy, Debug, PartialEq, Eq, Structural)]
pub enum ResourceBufferImageDesc {
    Image(ResourceImageDesc),
    Buffer(ResourceBufferDesc),
}

/// A declared resource: its kind, temporal layer count, flags and payload.
#[derive(Clone, Copy, Debug, PartialEq, Eq, Structural)]
pub struct ResourceDesc {
    pub type_: ResourceType,
    pub temporal_layers: u32,
    pub flags: ResourceFlags,
    pub buffer_image: ResourceBufferImageDesc,
}

/// The byte size a buffer description asks for.
pub open spec fn buffer_size_in_bytes(b: ResourceBufferDesc) -> int {
    b.size_in_bytes_lo + b.size_in_bytes_hi * 0x1_0000_0000
}

/// Whether the payload matches the declared resource kind.
pub open spec fn resource_desc_consistent(desc: ResourceDesc) -> bool {
    match desc.type_ {
        ResourceType::Unknown => false,
        ResourceType::Buffer => desc.buffer_image is Buffer,
        ResourceType::Image1D => desc.buffer_image is Image,
        ResourceType::Image2D => desc.buffer_image is Image,
        ResourceType::Image3D => desc.buffer_image is Image,
    }
}

/// Whether every extent of the description is non-empty.
pub open spec fn resource_desc_dims_valid(desc: ResourceDesc) -> bool {
    desc.temporal_layers >= 1 && match desc.buffer_image {
        ResourceBufferImageDesc::Image(img) => img.width >= 1 && img.height >= 1
            && img.depth_or_array_layers >= 1 && img.mip_levels >= 1 && img.sample_count >= 1,
        ResourceBufferImageDesc::Buffer(b) => buffer_size_in_bytes(b) >= 1,
    }
}

impl ResourceDesc {
    /// Whether the payload matches the declared resource kind.
    pub fn consistent(&self) -> (r: bool)
        ensures
            r == resource_desc_consistent(*self),
    {
        match self.type_ {
            ResourceType::Unknown => false,
            ResourceType::Buffer => matches!(self.buffer_image, ResourceBufferImageDesc::Buffer(_)),
            ResourceType::Image1D | ResourceType::Image2D | ResourceType::Image3D => matches!(
                self.buffer_image,
                ResourceBufferImageDesc::Image(_),
            ),
        }
    }

    /// Whether every extent of the description is non-empty.
    pub fn dims_valid(&self) -> (r: bool)
        ensures
            r == resource_desc_dims_valid(*self),
    {
        self.temporal_layers >= 1 && match self.buffer_image {
            ResourceBufferImageDesc::Image(img) => img.width >= 1 && img.height >= 1
                && img.depth_or_array_layers >= 1 && img.mip_levels >= 1 && img.sample_count >= 1,
            ResourceBufferImageDesc::Buffer(b) => b.size_in_bytes_lo >= 1 || b.size_in_bytes_hi
                >= 1,
        }
    }

    /// The format the declaration states, or unknown for buffers.
    pub fn declared_format(&self) -> (r: Format)
        ensures
            r == resource_declared_format(*self),
    {
        match self.buffer_image {
            ResourceBufferImageDesc::Image(img) => img.format,
            ResourceBufferImageDesc::Buffer(_) => Format(FMT_UNKNOWN),
        }
    }
}

/// The format the declaration states, or unknown for buffers.
pub open spec fn resource_declared_format(desc: ResourceDesc) -> Format {
    match desc.buffer_image {
        ResourceBufferImageDesc::Image(img) => img.format,
        ResourceBufferImageDesc::Buffer(_) => Format(FMT_UNKNOWN),
    }
}

/// A contiguous block of mip levels and array layers of one resource.
#[derive(Clone, Copy, Debug, PartialEq, Eq, Structural)]
pub struct SubresourceRange {
    pub base_mip_level: u16,
    pub mip_levels: u16,
    pub base_array_layer: u32,
    pub array_layers: u32,
}

/// The full range of a single-mip, single-layer resource, and the only
/// range a buffer access may use.
pub open spec fn full_buffer_range() -> SubresourceRange {
    SubresourceRange { base_mip_level: 0, mip_levels: 1, base_array_layer: 0, array_layers: 1 }
}

/// Whether the range selects at least one subresource.
pub open spec fn range_nonempty(r: SubresourceRange) -> bool {
    r.mip_levels >= 1 && r.array_layers >= 1
}

/// Whether two ranges share at least one (mip level, array layer) pair.
pub open spec fn ranges_overlap(a: SubresourceRange, b: SubresourceRange) -> bool {
    a.base_mip_level < b.base_mip_level + b.mip_levels && b.base_mip_level < a.base_mip_level
        + a.mip_levels && a.base_array_layer < b.base_array_layer + b.array_layers
        && b.base_array_layer < a.base_array_layer + a.array_layers
}

/// Whether two ranges share at least one subresource.
pub fn subresource_ranges_overlap(a: &SubresourceRange, b: &SubresourceRange) -> (r: bool)
    ensures
        r == ranges_overlap(*a, *b),
{
    (a.base_mip_level as u32) < (b.base_mip_level as u32) + (b.mip_levels as u32)
        && (b.base_mip_level as u32) < (a.base_mip_level as u32) + (a.mip_levels as u32)
        && (a.base_array_layer as u64) < (b.base_array_layer as u64) + (b.array_layers as u64)
        && (b.base_array_layer as u64) < (a.base_array_layer as u64) + (a.array_layers as u64)
}

/// Whether the range is non-empty and lies within the extent the
/// description declares; buffers only admit the trivial full range.
pub open spec fn range_within_desc(desc: ResourceDesc, range: SubresourceRange) -> bool {
    match desc.buffer_image {
        ResourceBufferImageDesc::Image(img) => range_nonempty(range) && range.base_mip_level
            + range.mip_levels <= img.mip_levels && range.base_array_layer + range.array_layers
            <= img.depth_or_array_layers,
        ResourceBufferImageDesc::Buffer(_) => range == full_buffer_range(),
    }
}

/// Whether the range lies within the extent the description declares.
pub fn subresource_range_within_desc(desc: &ResourceDesc, range: &SubresourceRange) -> (r: bool)
    ensures
        r == range_within_desc(*desc, *range),
{
    match desc.buffer_image {
        ResourceBufferImageDesc::Image(img) => range.mip_levels >= 1 && range.array_layers >= 1 && (
        range.base_mip_level as u32) + (range.mip_levels as u32) <= img.mip_levels
            && (range.base_array_layer as u64) + (range.array_layers as u64)
            <= img.depth_or_array_layers as u64,
        ResourceBufferImageDesc::Buffer(_) => range.base_mip_level == 0 && range.mip_levels == 1
            && range.base_array_layer == 0 && range.array_layers == 1,
    }
}

/// Ranges overlapping is symmetric: the hazard relation does not depend on
/// which of the two touches came first.
pub proof fn lemma_ranges_overlap_symmetric(a: SubresourceRange, b: SubresourceRange)
    ensures
        ranges_overlap(a, b) == ranges_overlap(b, a),
{
}

pub const MAX_SIMULTANEOUS_RENDER_TARGET_COUNT: usize = 8;

/// The render-target bindings a graphics node sees while recording.
#[derive(Clone, Copy, Debug)]
pub struct CmdRenderTargetInfo {
    pub num_render_targets: u32,
    pub num_samples: u32,
    pub depth_stencil_format: Format,
    pub render_target_formats: [Format; MAX_SIMULTANEOUS_RENDER_TARGET_COUNT],
}

} // verus!
