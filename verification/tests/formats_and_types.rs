use rps::access::{
    image_view_get_component_mapping_channel_a, image_view_get_component_mapping_channel_b,
    image_view_get_component_mapping_channel_g, image_view_get_component_mapping_channel_r,
    image_view_make_component_mapping, is_relaxed_access, is_write_access, ACCESS_RELAXED_ORDER,
    ACCESS_RENDER_TARGET, ACCESS_SHADER_RESOURCE, ACCESS_UNORDERED_ACCESS,
};
use rps::api::{TypeId, TypeInfo, TYPE_ID_BUILT_IN_UINT32, TYPE_ID_OPAQUE};
use rps::format::{
    Format, FMT_B4G4R4A4_UNORM, FMT_B5G6R5_UNORM, FMT_BC1_UNORM, FMT_BC3_UNORM,
    FMT_BC7_UNORM_SRGB, FMT_D16_UNORM, FMT_D24_UNORM_S8_UINT, FMT_D32_FLOAT,
    FMT_R16G16B16A16_FLOAT, FMT_R32G32B32A32_FLOAT, FMT_R32G32B32_UINT, FMT_R8G8B8A8_UNORM,
    FMT_R8_UNORM, FMT_UNKNOWN,
};
use rps::resource::{subresource_ranges_overlap, SubresourceRange};

#[test]
fn component_mapping_round_trips_each_channel() {
    let packed = image_view_make_component_mapping(1, 2, 3, 4);
    assert_eq!(image_view_get_component_mapping_channel_r(packed), 1);
    assert_eq!(image_view_get_component_mapping_channel_g(packed), 2);
    assert_eq!(image_view_get_component_mapping_channel_b(packed), 3);
    assert_eq!(image_view_get_component_mapping_channel_a(packed), 4);
}

#[test]
fn component_mapping_packs_red_in_the_lowest_byte() {
    assert_eq!(image_view_make_component_mapping(0xAB, 0, 0, 0), 0xAB);
    assert_eq!(image_view_make_component_mapping(0, 0, 0, 0xCD), 0xCD00_0000);
}

#[test]
fn element_bytes_match_the_format_layout() {
    assert_eq!(Format(FMT_R32G32B32A32_FLOAT).element_bytes(), 16);
    assert_eq!(Format(FMT_R16G16B16A16_FLOAT).element_bytes(), 8);
    assert_eq!(Format(FMT_R8G8B8A8_UNORM).element_bytes(), 4);
    assert_eq!(Format(FMT_R8_UNORM).element_bytes(), 1);
    assert_eq!(Format(FMT_D16_UNORM).element_bytes(), 2);
    assert_eq!(Format(FMT_BC1_UNORM).element_bytes(), 8);
    assert_eq!(Format(FMT_BC3_UNORM).element_bytes(), 16);
    assert_eq!(Format(FMT_R32G32B32_UINT).element_bytes(), 12);
    assert_eq!(Format(FMT_B5G6R5_UNORM).element_bytes(), 2);
    assert_eq!(Format(FMT_B4G4R4A4_UNORM).element_bytes(), 2);
    assert_eq!(Format(FMT_BC7_UNORM_SRGB).element_bytes(), 16);
    assert_eq!(Format(FMT_UNKNOWN).element_bytes(), 0);
}

#[test]
fn depth_stencil_queries_follow_the_format() {
    assert!(Format(FMT_D32_FLOAT).has_depth());
    assert!(Format(FMT_D32_FLOAT).depth_only());
    assert!(!Format(FMT_D32_FLOAT).has_stencil());
    assert!(Format(FMT_D24_UNORM_S8_UINT).has_depth());
    assert!(Format(FMT_D24_UNORM_S8_UINT).has_stencil());
    assert!(Format(FMT_D24_UNORM_S8_UINT).has_depth_stencil());
    assert!(!Format(FMT_D24_UNORM_S8_UINT).depth_only());
    assert!(!Format(FMT_R8G8B8A8_UNORM).has_depth_stencil());
}

#[test]
fn block_compressed_formats_are_flagged() {
    assert!(Format(FMT_BC1_UNORM).block_compressed());
    assert!(Format(FMT_BC7_UNORM_SRGB).block_compressed());
    assert!(!Format(FMT_R8G8B8A8_UNORM).block_compressed());
}

#[test]
fn write_and_relaxed_access_classes() {
    assert!(is_write_access(ACCESS_RENDER_TARGET));
    assert!(is_write_access(ACCESS_UNORDERED_ACCESS));
    assert!(!is_write_access(ACCESS_SHADER_RESOURCE));
    assert!(is_relaxed_access(ACCESS_UNORDERED_ACCESS | ACCESS_RELAXED_ORDER));
    assert!(!is_relaxed_access(ACCESS_UNORDERED_ACCESS));
}

#[test]
fn subresource_overlap_requires_both_axes() {
    let base = SubresourceRange {
        base_mip_level: 0,
        mip_levels: 2,
        base_array_layer: 0,
        array_layers: 2,
    };
    let same = base;
    let other_mips = SubresourceRange { base_mip_level: 2, ..base };
    let other_layers = SubresourceRange { base_array_layer: 2, ..base };
    let corner = SubresourceRange { base_mip_level: 1, base_array_layer: 1, ..base };
    assert!(subresource_ranges_overlap(&base, &same));
    assert!(!subresource_ranges_overlap(&base, &other_mips));
    assert!(!subresource_ranges_overlap(&base, &other_layers));
    assert!(subresource_ranges_overlap(&base, &corner));
}

#[test]
fn type_info_constructors_record_size_and_identity() {
    let opaque = TypeInfo::init_from_size(12);
    assert_eq!(opaque.size, 12);
    assert_eq!(opaque.id as u32, TYPE_ID_OPAQUE);
    let typed = TypeInfo::init_from_size_and_type_id(4, TypeId(TYPE_ID_BUILT_IN_UINT32));
    assert_eq!(typed.size, 4);
    assert_eq!(typed.id as u32, TYPE_ID_BUILT_IN_UINT32);
    let of_type = TypeInfo::init_from_type::<u64>();
    assert_eq!(of_type.size, 8);
    assert_eq!(of_type.id as u32, TYPE_ID_OPAQUE);
    let of_type_id = TypeInfo::init_from_type_and_id::<u16>(TypeId(TYPE_ID_BUILT_IN_UINT32));
    assert_eq!(of_type_id.size, 2);
    assert_eq!(TypeId(7).as_raw(), 7);
}
