//! How a node touches a resource view: access flag sets, shader stages,
//! semantics, and the typed views bound to node parameters.

use vstd::prelude::*;

use crate::format::Format;
use crate::resource::SubresourceRange;

verus! {

/// A set of access kinds, one bit each.
pub type AccessFlags = u32;

pub const ACCESS_UNKNOWN: AccessFlags = 0;
pub const ACCESS_INDIRECT_ARGS: AccessFlags = 1u32 << 0;
pub const ACCESS_INDEX_BUFFER: AccessFlags = 1u32 << 1;
pub const ACCESS_VERTEX_BUFFER: AccessFlags = 1u32 << 2;
pub const ACCESS_CONSTANT_BUFFER: AccessFlags = 1u32 << 3;
pub const ACCESS_SHADER_RESOURCE: AccessFlags = 1u32 << 4;
pub const ACCESS_UNORDERED_ACCESS: AccessFlags = 1u32 << 5;
pub const ACCESS_SHADING_RATE: AccessFlags = 1u32 << 6;
pub const ACCESS_RENDER_TARGET: AccessFlags = 1u32 << 7;
pub const ACCESS_DEPTH_READ: AccessFlags = 1u32 << 8;
pub const ACCESS_DEPTH_WRITE: AccessFlags = 1u32 << 9;
pub const ACCESS_STENCIL_READ: AccessFlags = 1u32 << 10;
pub const ACCESS_STENCIL_WRITE: AccessFlags = 1u32 << 11;
pub const ACCESS_STREAM_OUT: AccessFlags = 1u32 << 12;
pub const ACCESS_COPY_SRC: AccessFlags = 1u32 << 13;
pub const ACCESS_COPY_DEST: AccessFlags = 1u32 << 14;
pub const ACCESS_RESOLVE_SRC: AccessFlags = 1u32 << 15;
pub const ACCESS_RESOLVE_DEST: AccessFlags = 1u32 << 16;
pub const ACCESS_RAYTRACING_AS_BUILD: AccessFlags = 1u32 << 17;
pub const ACCESS_RAYTRACING_AS_READ: AccessFlags = 1u32 << 18;
pub const ACCESS_PRESENT: AccessFlags = 1u32 << 19;
pub const ACCESS_CPU_READ: AccessFlags = 1u32 << 20;
pub const ACCESS_CPU_WRITE: AccessFlags = 1u32 << 21;
pub const ACCESS_DISCARD_DATA_BEFORE: AccessFlags = 1u32 << 22;
pub const ACCESS_DISCARD_DATA_AFTER: AccessFlags = 1u32 << 23;
pub const ACCESS_STENCIL_DISCARD_DATA_BEFORE: AccessFlags = 1u32 << 24;
pub const ACCESS_STENCIL_DISCARD_DATA_AFTER: AccessFlags = 1u32 << 25;
pub const ACCESS_RELAXED_ORDER: AccessFlags = 1u32 << 26;
pub const ACCESS_NO_VIEW: AccessFlags = 1u32 << 27;
pub const ACCESS_PREDICATION: AccessFlags = 1u32 << 28;
pub const ACCESS_CLEAR: AccessFlags = 1u32 << 29;

pub const ACCESS_DEPTH: AccessFlags = ACCESS_DEPTH_READ | ACCESS_DEPTH_WRITE;
pub const ACCESS_STENCIL: AccessFlags = ACCESS_STENCIL_READ | ACCESS_STENCIL_WRITE;
pub const ACCESS_DEPTH_STENCIL_READ: AccessFlags = ACCESS_DEPTH_READ | ACCESS_STENCIL_READ;
pub const ACCESS_DEPTH_STENCIL_WRITE: AccessFlags = ACCESS_DEPTH_WRITE | ACCESS_STENCIL_WRITE;
pub const ACCESS_DEPTH_STENCIL: AccessFlags = ACCESS_DEPTH | ACCESS_STENCIL;

/// Every bit that modifies how the GPU writes memory through the access.
pub const ACCESS_ALL_GPU_WRITE: AccessFlags = ACCESS_RENDER_TARGET | ACCESS_UNORDERED_ACCESS
    | ACCESS_DEPTH_WRITE | ACCESS_STENCIL_WRITE | ACCESS_STREAM_OUT | ACCESS_COPY_DEST
    | ACCESS_RESOLVE_DEST | ACCESS_RAYTRACING_AS_BUILD | ACCESS_CLEAR;

/// Every bit that writes memory, whether from the GPU or the CPU timeline.
pub const ACCESS_ALL_WRITE: AccessFlags = ACCESS_ALL_GPU_WRITE | ACCESS_CPU_WRITE;

/// A set of shader stages, one bit each.
pub type ShaderStage = u32;

pub const SHADER_STAGE_NONE: ShaderStage = 0;
pub const SHADER_STAGE_VS: ShaderStage = 1u32 << 0;
pub const SHADER_STAGE_PS: ShaderStage = 1u32 << 1;
pub const SHADER_STAGE_GS: ShaderStage = 1u32 << 2;
pub const SHADER_STAGE_CS: ShaderStage = 1u32 << 3;
pub const SHADER_STAGE_HS: ShaderStage = 1u32 << 4;
pub const SHADER_STAGE_DS: ShaderStage = 1u32 << 5;
pub const SHADER_STAGE_RAYTRACING: ShaderStage = 1u32 << 6;
pub const SHADER_STAGE_AS: ShaderStage = 1u32 << 7;
pub const SHADER_STAGE_MS: ShaderStage = 1u32 << 8;
pub const SHADER_STAGE_ALL: ShaderStage = 0x1FF;

/// How one node parameter touches the resource bound to it.
#[derive(Clone, Copy, Debug, PartialEq, Eq, Structural)]
pub struct AccessAttr {
    pub access_flags: AccessFlags,
    pub access_stages: ShaderStage,
}

/// Whether the flag set contains any write class.
pub open spec fn access_is_write(flags: AccessFlags) -> bool {
    flags & ACCESS_ALL_WRITE != 0
}

/// Whether the flag set asks for relaxed ordering against other relaxed
/// accesses of the same resource.
pub open spec fn access_is_relaxed(flags: AccessFlags) -> bool {
    flags & ACCESS_RELAXED_ORDER != 0
}

/// Whether the flag set contains any write class.
pub fn is_write_access(flags: AccessFlags) -> (r: bool)
    ensures
        r == access_is_write(flags),
{
    flags & ACCESS_ALL_WRITE != 0
}

/// Whether the flag set asks for relaxed ordering.
pub fn is_relaxed_access(flags: AccessFlags) -> (r: bool)
    ensures
        r == access_is_relaxed(flags),
{
    flags & ACCESS_RELAXED_ORDER != 0
}

/// Two accesses to overlapping memory hazard when at least one of them
/// writes, unless both explicitly accept relaxed ordering.
pub open spec fn accesses_hazard(a: AccessAttr, b: AccessAttr) -> bool {
    (access_is_write(a.access_flags) || access_is_write(b.access_flags))
        && !(access_is_relaxed(a.access_flags) && access_is_relaxed(b.access_flags))
}

/// Whether two access attributes form an ordering hazard.
pub fn accesses_hazard_exec(a: &AccessAttr, b: &AccessAttr) -> (r: bool)
    ensures
        r == accesses_hazard(*a, *b),
{
    (is_write_access(a.access_flags) || is_write_access(b.access_flags))
        && !(is_relaxed_access(a.access_flags) && is_relaxed_access(b.access_flags))
}

/// The fixed meaning a node parameter carries for the backend.
#[derive(Clone, Copy, Debug, PartialEq, Eq, Structural)]
pub struct Semantic(pub u32);

pub const SEMANTIC_UNSPECIFIED: u32 = 0;
pub const SEMANTIC_VERTEX_LAYOUT: u32 = 1;
pub const SEMANTIC_STREAM_OUT_LAYOUT: u32 = 2;
pub const SEMANTIC_VIEWPORT: u32 = 3;
pub const SEMANTIC_SCISSOR: u32 = 4;
pub const SEMANTIC_PRIMITIVE_TOPOLOGY: u32 = 5;
pub const SEMANTIC_COLOR_CLEAR_VALUE: u32 = 6;
pub const SEMANTIC_DEPTH_CLEAR_VALUE: u32 = 7;
pub const SEMANTIC_STENCIL_CLEAR_VALUE: u32 = 8;
pub const SEMANTIC_VERTEX_BUFFER: u32 = 9;
pub const SEMANTIC_INDEX_BUFFER: u32 = 10;
pub const SEMANTIC_INDIRECT_ARGS: u32 = 11;
pub const SEMANTIC_INDIRECT_COUNT: u32 = 12;
pub const SEMANTIC_RENDER_TARGET: u32 = 13;
pub const SEMANTIC_DEPTH_STENCIL_TARGET: u32 = 14;
pub const SEMANTIC_SHADING_RATE_IMAGE: u32 = 15;
pub const SEMANTIC_RESOLVE_TARGET: u32 = 16;
pub const SEMANTIC_USER_RESOURCE_BINDING: u32 = 17;

/// A semantic together with its index among parameters of that semantic.
#[derive(Clone, Copy, Debug, PartialEq, Eq, Structural)]
pub struct SemanticAttr {
    pub semantic: Semantic,
    pub semantic_index: u32,
}

/// Access and semantic of one declared node parameter.
#[derive(Clone, Copy, Debug, PartialEq, Eq, Structural)]
pub struct ParamAttr {
    pub access: AccessAttr,
    pub semantic: SemanticAttr,
}

/// Flags of a resource view.
pub type ResourceViewFlags = u32;

pub const RESOURCE_VIEW_FLAG_NONE: ResourceViewFlags = 0;
pub const RESOURCE_VIEW_FLAG_CUBEMAP: ResourceViewFlags = 1u32 << 0;

/// A typed view of a declared resource.
#[derive(Clone, Copy, Debug, PartialEq, Eq, Structural)]
pub struct ResourceView {
    pub resource_id: u32,
    pub view_format: Format,
    pub temporal_layer: u32,
    pub flags: ResourceViewFlags,
}

/// An image view: a resource view scoped to a subresource range with a
/// packed component mapping.
#[derive(Clone, Copy, Debug, PartialEq, Eq, Structural)]
pub struct ImageView {
    pub base: ResourceView,
    pub subresource_range: SubresourceRange,
    pub component_mapping: u32,
}

/// A buffer view: a resource view scoped to a byte range with a stride.
#[derive(Clone, Copy, Debug, PartialEq, Eq, Structural)]
pub struct BufferView {
    pub base: ResourceView,
    pub offset: u64,
    pub size_in_bytes: u64,
    pub stride: u32,
}

/// One source channel of a component mapping.
#[derive(Clone, Copy, Debug, PartialEq, Eq, Structural)]
pub struct ResourceViewComponentMapping(pub u32);

pub const COMPONENT_MAPPING_R: u32 = 0;
pub const COMPONENT_MAPPING_G: u32 = 1;
pub const COMPONENT_MAPPING_B: u32 = 2;
pub const COMPONENT_MAPPING_A: u32 = 3;
pub const COMPONENT_MAPPING_ZERO: u32 = 4;
pub const COMPONENT_MAPPING_ONE: u32 = 5;

/// Type identities the runtime predefines for its built-in view types.
#[derive(Clone, Copy, Debug, PartialEq, Eq, Structural)]
pub struct RuntimeBuiltInTypeIds(pub u32);

pub const TYPE_IMAGE_VIEW: u32 = 64;
pub const TYPE_BUFFER_VIEW: u32 = 65;

/// The four channels of a component mapping packed into one word, eight
/// bits per channel, red in the lowest byte.
pub open spec fn component_mapping_of(r: u8, g: u8, b: u8, a: u8) -> u32 {
    (r as u32) | ((g as u32) << 8) | ((b as u32) << 16) | ((a as u32) << 24)
}

/// Packs four mapping channels into one word.
pub fn image_view_make_component_mapping(r: u8, g: u8, b: u8, a: u8) -> (packed: u32)
    ensures
        packed == component_mapping_of(r, g, b, a),
{
    let rv: u32 = r as u32;
    let gv: u32 = g as u32;
    let bv: u32 = b as u32;
    let av: u32 = a as u32;
    let packed: u32 = (rv & 0xFF) | ((gv & 0xFF) << 8) | ((bv & 0xFF) << 16) | ((av & 0xFF) << 24);
    proof {
        assert(packed == rv | (gv << 8) | (bv << 16) | (av << 24)) by (bit_vector)
            requires
                rv < 256 && gv < 256 && bv < 256 && av < 256,
                packed == (rv & 0xFF) | ((gv & 0xFF) << 8) | ((bv & 0xFF) << 16) | ((av & 0xFF)
                    << 24),
        ;
    }
    packed
}

/// Unpacks the red channel of a packed component mapping.
pub fn image_view_get_component_mapping_channel_r(packed: u32) -> (r: u8)
    ensures
        r as u32 == packed & 0xFF,
{
    proof {
        assert(packed & 0xFF < 256) by (bit_vector);
    }
    (packed & 0xFF) as u8
}

/// Unpacks the green channel of a packed component mapping.
pub fn image_view_get_component_mapping_channel_g(packed: u32) -> (r: u8)
    ensures
        r as u32 == (packed >> 8) & 0xFF,
{
    proof {
        assert((packed >> 8) & 0xFF < 256) by (bit_vector);
    }
    ((packed >> 8) & 0xFF) as u8
}

/// Unpacks the blue channel of a packed component mapping.
pub fn image_view_get_component_mapping_channel_b(packed: u32) -> (r: u8)
    ensures
        r as u32 == (packed >> 16) & 0xFF,
{
    proof {
        assert((packed >> 16) & 0xFF < 256) by (bit_vector);
    }
    ((packed >> 16) & 0xFF) as u8
}

/// Unpacks the alpha channel of a packed component mapping.
pub fn image_view_get_component_mapping_channel_a(packed: u32) -> (r: u8)
    ensures
        r as u32 == (packed >> 24) & 0xFF,
{
    proof {
        assert((packed >> 24) & 0xFF < 256) by (bit_vector);
    }
    ((packed >> 24) & 0xFF) as u8
}

/// Packing four channels and unpacking any of them gives the channel back:
/// the component mapping encoding loses nothing.
pub proof fn lemma_component_mapping_round_trip(r: u8, g: u8, b: u8, a: u8)
    ensures
        component_mapping_of(r, g, b, a) & 0xFF == r as u32,
        (component_mapping_of(r, g, b, a) >> 8) & 0xFF == g as u32,
        (component_mapping_of(r, g, b, a) >> 16) & 0xFF == b as u32,
        (component_mapping_of(r, g, b, a) >> 24) & 0xFF == a as u32,
{
    let rv = r as u32;
    let gv = g as u32;
    let bv = b as u32;
    let av = a as u32;
    assert((rv | (gv << 8) | (bv << 16) | (av << 24)) & 0xFF == rv && ((rv | (gv << 8) | (bv << 16)
        | (av << 24)) >> 8) & 0xFF == gv && ((rv | (gv << 8) | (bv << 16) | (av << 24)) >> 16)
        & 0xFF == bv && ((rv | (gv << 8) | (bv << 16) | (av << 24)) >> 24) & 0xFF == av)
        by (bit_vector)
        requires
            rv < 256 && gv < 256 && bv < 256 && av < 256,
    ;
}

} // verus!
