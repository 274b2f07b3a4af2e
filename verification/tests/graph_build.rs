use rps::access::{AccessAttr, ACCESS_RENDER_TARGET, ACCESS_SHADER_RESOURCE, SHADER_STAGE_PS};
use rps::format::{Format, FMT_R8G8B8A8_UNORM, FMT_R8_UNORM, FMT_UNKNOWN};
use rps::graph::{RenderGraphBuilder, ResourceAccessInfo, NODE_DECL_GRAPHICS};
use rps::resource::{
    ResourceBufferDesc, ResourceBufferImageDesc, ResourceDesc, ResourceImageDesc, ResourceType,
    SubresourceRange, RESOURCE_FLAG_NONE,
};
use rps::result::RpsError;

fn image_2d(width: u32, height: u32, fmt: u32) -> ResourceDesc {
    ResourceDesc {
        type_: ResourceType::Image2D,
        temporal_layers: 1,
        flags: RESOURCE_FLAG_NONE,
        buffer_image: ResourceBufferImageDesc::Image(ResourceImageDesc {
            width,
            height,
            depth_or_array_layers: 1,
            mip_levels: 1,
            format: Format(fmt),
            sample_count: 1,
        }),
    }
}

fn full_range() -> SubresourceRange {
    SubresourceRange { base_mip_level: 0, mip_levels: 1, base_array_layer: 0, array_layers: 1 }
}

fn write_access(resource_id: u32) -> ResourceAccessInfo {
    ResourceAccessInfo {
        resource_id,
        range: full_range(),
        access: AccessAttr { access_flags: ACCESS_RENDER_TARGET, access_stages: SHADER_STAGE_PS },
        view_format: Format(FMT_UNKNOWN),
    }
}

#[test]
fn declare_resource_returns_dense_ids() {
    let mut b = RenderGraphBuilder::new();
    let r0 = b.declare_resource(image_2d(64, 64, FMT_R8G8B8A8_UNORM)).unwrap();
    let r1 = b.declare_resource(image_2d(32, 32, FMT_R8_UNORM)).unwrap();
    assert_eq!(r0, 0);
    assert_eq!(r1, 1);
    assert_eq!(b.num_resources(), 2);
}

#[test]
fn declare_unknown_type_is_invalid_program() {
    let mut b = RenderGraphBuilder::new();
    let mut desc = image_2d(64, 64, FMT_R8G8B8A8_UNORM);
    desc.type_ = ResourceType::Unknown;
    assert_eq!(b.declare_resource(desc), Err(RpsError::InvalidProgram));
    assert_eq!(b.num_resources(), 0);
}

#[test]
fn declare_mismatched_payload_is_type_mismatch() {
    let mut b = RenderGraphBuilder::new();
    let desc = ResourceDesc {
        type_: ResourceType::Buffer,
        temporal_layers: 1,
        flags: RESOURCE_FLAG_NONE,
        buffer_image: ResourceBufferImageDesc::Image(ResourceImageDesc {
            width: 1,
            height: 1,
            depth_or_array_layers: 1,
            mip_levels: 1,
            format: Format(FMT_R8_UNORM),
            sample_count: 1,
        }),
    };
    assert_eq!(b.declare_resource(desc), Err(RpsError::TypeMismatch));
}

#[test]
fn declare_zero_extent_is_validation_failed() {
    let mut b = RenderGraphBuilder::new();
    assert_eq!(
        b.declare_resource(image_2d(0, 64, FMT_R8G8B8A8_UNORM)),
        Err(RpsError::ValidationFailed)
    );
}

#[test]
fn declare_empty_buffer_is_validation_failed() {
    let mut b = RenderGraphBuilder::new();
    let desc = ResourceDesc {
        type_: ResourceType::Buffer,
        temporal_layers: 1,
        flags: RESOURCE_FLAG_NONE,
        buffer_image: ResourceBufferImageDesc::Buffer(ResourceBufferDesc {
            size_in_bytes_lo: 0,
            size_in_bytes_hi: 0,
        }),
    };
    assert_eq!(b.declare_resource(desc), Err(RpsError::ValidationFailed));
}

#[test]
fn add_node_with_undeclared_resource_is_invalid_program() {
    let mut b = RenderGraphBuilder::new();
    let r = b.add_node(NODE_DECL_GRAPHICS, 0, vec![write_access(7)]);
    assert_eq!(r, Err(RpsError::InvalidProgram));
    assert_eq!(b.num_nodes(), 0);
}

#[test]
fn add_node_with_out_of_extent_range_is_validation_failed() {
    let mut b = RenderGraphBuilder::new();
    b.declare_resource(image_2d(64, 64, FMT_R8G8B8A8_UNORM)).unwrap();
    let mut a = write_access(0);
    a.range.mip_levels = 2;
    assert_eq!(b.add_node(NODE_DECL_GRAPHICS, 0, vec![a]), Err(RpsError::ValidationFailed));
}

#[test]
fn add_node_with_incompatible_view_format_is_type_mismatch() {
    let mut b = RenderGraphBuilder::new();
    b.declare_resource(image_2d(64, 64, FMT_R8G8B8A8_UNORM)).unwrap();
    let mut a = write_access(0);
    a.view_format = Format(FMT_R8_UNORM);
    assert_eq!(b.add_node(NODE_DECL_GRAPHICS, 0, vec![a]), Err(RpsError::TypeMismatch));
}

#[test]
fn add_node_accepts_matching_and_inherited_views() {
    let mut b = RenderGraphBuilder::new();
    b.declare_resource(image_2d(64, 64, FMT_R8G8B8A8_UNORM)).unwrap();
    let mut typed = write_access(0);
    typed.view_format = Format(FMT_R8G8B8A8_UNORM);
    assert_eq!(b.add_node(NODE_DECL_GRAPHICS, 0, vec![typed]), Ok(0));
    assert_eq!(b.add_node(NODE_DECL_GRAPHICS, 1, vec![write_access(0)]), Ok(1));
    assert_eq!(b.num_nodes(), 2);
}

#[test]
fn effective_format_is_inferred_from_first_typed_view() {
    let mut b = RenderGraphBuilder::new();
    b.declare_resource(image_2d(64, 64, FMT_UNKNOWN)).unwrap();
    let mut a = write_access(0);
    a.view_format = Format(FMT_R8_UNORM);
    a.access = AccessAttr { access_flags: ACCESS_SHADER_RESOURCE, access_stages: SHADER_STAGE_PS };
    b.add_node(NODE_DECL_GRAPHICS, 0, vec![a]).unwrap();
    assert_eq!(b.resource_effective_format(0), Format(FMT_R8_UNORM));
}

#[test]
fn effective_format_prefers_declared_format() {
    let mut b = RenderGraphBuilder::new();
    b.declare_resource(image_2d(64, 64, FMT_R8G8B8A8_UNORM)).unwrap();
    assert_eq!(b.resource_effective_format(0), Format(FMT_R8G8B8A8_UNORM));
}
