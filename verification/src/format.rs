//! Pixel and buffer-element formats and their metadata queries.
//!
//! The format codes are this library's own compact numbering; only the
//! queries below give them meaning.

use vstd::prelude::*;

verus! {

/// A pixel or element format, one of the `FMT_` codes.
#[derive(Clone, Copy, Debug, PartialEq, Eq, Structural)]
pub struct Format(pub u32);

pub const FMT_UNKNOWN: u32 = 0;
pub const FMT_R32G32B32A32_TYPELESS: u32 = 1;
pub const FMT_R32G32B32A32_FLOAT: u32 = 2;
pub const FMT_R32G32B32A32_UINT: u32 = 3;
pub const FMT_R32G32B32A32_SINT: u32 = 4;
pub const FMT_R32G32B32_FLOAT: u32 = 5;
pub const FMT_R16G16B16A16_FLOAT: u32 = 6;
pub const FMT_R16G16B16A16_UNORM: u32 = 7;
pub const FMT_R32G32_FLOAT: u32 = 8;
pub const FMT_R32G8X24_TYPELESS: u32 = 9;
pub const FMT_D32_FLOAT_S8X24_UINT: u32 = 10;
pub const FMT_R10G10B10A2_UNORM: u32 = 11;
pub const FMT_R11G11B10_FLOAT: u32 = 12;
pub const FMT_R8G8B8A8_TYPELESS: u32 = 13;
pub const FMT_R8G8B8A8_UNORM: u32 = 14;
pub const FMT_R8G8B8A8_UNORM_SRGB: u32 = 15;
pub const FMT_R8G8B8A8_UINT: u32 = 16;
pub const FMT_R16G16_FLOAT: u32 = 17;
pub const FMT_R32_TYPELESS: u32 = 18;
pub const FMT_D32_FLOAT: u32 = 19;
pub const FMT_R32_FLOAT: u32 = 20;
pub const FMT_R32_UINT: u32 = 21;
pub const FMT_R32_SINT: u32 = 22;
pub const FMT_R24G8_TYPELESS: u32 = 23;
pub const FMT_D24_UNORM_S8_UINT: u32 = 24;
pub const FMT_R8G8_UNORM: u32 = 25;
pub const FMT_R16_FLOAT: u32 = 26;
pub const FMT_D16_UNORM: u32 = 27;
pub const FMT_R16_UNORM: u32 = 28;
pub const FMT_R16_UINT: u32 = 29;
pub const FMT_R8_UNORM: u32 = 30;
pub const FMT_R8_UINT: u32 = 31;
pub const FMT_A8_UNORM: u32 = 32;
pub const FMT_B8G8R8A8_UNORM: u32 = 33;
pub const FMT_B8G8R8A8_UNORM_SRGB: u32 = 34;
pub const FMT_BC1_UNORM: u32 = 35;
pub const FMT_BC1_UNORM_SRGB: u32 = 36;
pub const FMT_BC2_UNORM: u32 = 37;
pub const FMT_BC3_UNORM: u32 = 38;
pub const FMT_BC4_UNORM: u32 = 39;
pub const FMT_BC5_UNORM: u32 = 40;
pub const FMT_BC6H_UF16: u32 = 41;
pub const FMT_BC7_UNORM: u32 = 42;
pub const FMT_R32G32B32_TYPELESS: u32 = 43;
pub const FMT_R32G32B32_UINT: u32 = 44;
pub const FMT_R32G32B32_SINT: u32 = 45;
pub const FMT_BC7_UNORM_SRGB: u32 = 46;
pub const FMT_B5G6R5_UNORM: u32 = 47;
pub const FMT_B5G5R5A1_UNORM: u32 = 48;
pub const FMT_B4G4R4A4_UNORM: u32 = 49;
pub const FMT_R9G9B9E5_SHAREDEXP: u32 = 50;
pub const FMT_COUNT: u32 = 51;

/// Whether the format stores 4x4 texel blocks rather than single elements.
pub open spec fn format_is_block_compressed(f: Format) -> bool {
    FMT_BC1_UNORM <= f.0 <= FMT_BC7_UNORM || f.0 == FMT_BC7_UNORM_SRGB
}

/// Whether the format has a depth plane.
pub open spec fn format_has_depth(f: Format) -> bool {
    f.0 == FMT_D32_FLOAT_S8X24_UINT || f.0 == FMT_D32_FLOAT || f.0 == FMT_D24_UNORM_S8_UINT
        || f.0 == FMT_D16_UNORM
}

/// Whether the format has a stencil plane.
pub open spec fn format_has_stencil(f: Format) -> bool {
    f.0 == FMT_D32_FLOAT_S8X24_UINT || f.0 == FMT_D24_UNORM_S8_UINT
}

/// Bytes of one element: one texel or buffer element for uncompressed
/// formats, one 4x4 block for block-compressed ones; 0 when unknown.
pub open spec fn format_element_bytes_of(f: Format) -> u32 {
    if f.0 == FMT_R32G32B32A32_TYPELESS || f.0 == FMT_R32G32B32A32_FLOAT || f.0
        == FMT_R32G32B32A32_UINT || f.0 == FMT_R32G32B32A32_SINT {
        16
    } else if f.0 == FMT_R32G32B32_FLOAT || f.0 == FMT_R32G32B32_TYPELESS || f.0
        == FMT_R32G32B32_UINT || f.0 == FMT_R32G32B32_SINT {
        12
    } else if f.0 == FMT_R16G16B16A16_FLOAT || f.0 == FMT_R16G16B16A16_UNORM || f.0
        == FMT_R32G32_FLOAT || f.0 == FMT_R32G8X24_TYPELESS || f.0 == FMT_D32_FLOAT_S8X24_UINT {
        8
    } else if f.0 == FMT_R10G10B10A2_UNORM || f.0 == FMT_R11G11B10_FLOAT || f.0
        == FMT_R8G8B8A8_TYPELESS || f.0 == FMT_R8G8B8A8_UNORM || f.0 == FMT_R8G8B8A8_UNORM_SRGB
        || f.0 == FMT_R8G8B8A8_UINT || f.0 == FMT_R16G16_FLOAT || f.0 == FMT_R32_TYPELESS || f.0
        == FMT_D32_FLOAT || f.0 == FMT_R32_FLOAT || f.0 == FMT_R32_UINT || f.0 == FMT_R32_SINT
        || f.0 == FMT_R24G8_TYPELESS || f.0 == FMT_D24_UNORM_S8_UINT || f.0 == FMT_B8G8R8A8_UNORM
        || f.0 == FMT_B8G8R8A8_UNORM_SRGB || f.0 == FMT_R9G9B9E5_SHAREDEXP {
        4
    } else if f.0 == FMT_R8G8_UNORM || f.0 == FMT_R16_FLOAT || f.0 == FMT_D16_UNORM || f.0
        == FMT_R16_UNORM || f.0 == FMT_R16_UINT || f.0 == FMT_B5G6R5_UNORM || f.0
        == FMT_B5G5R5A1_UNORM || f.0 == FMT_B4G4R4A4_UNORM {
        2
    } else if f.0 == FMT_R8_UNORM || f.0 == FMT_R8_UINT || f.0 == FMT_A8_UNORM {
        1
    } else if f.0 == FMT_BC1_UNORM || f.0 == FMT_BC1_UNORM_SRGB || f.0 == FMT_BC4_UNORM {
        8
    } else if f.0 == FMT_BC2_UNORM || f.0 == FMT_BC3_UNORM || f.0 == FMT_BC5_UNORM || f.0
        == FMT_BC6H_UF16 || f.0 == FMT_BC7_UNORM || f.0 == FMT_BC7_UNORM_SRGB {
        16
    } else {
        0
    }
}

impl Format {
    /// Whether the format stores 4x4 texel blocks.
    pub fn block_compressed(self) -> (r: bool)
        ensures
            r == format_is_block_compressed(self),
    {
        (FMT_BC1_UNORM <= self.0 && self.0 <= FMT_BC7_UNORM) || self.0 == FMT_BC7_UNORM_SRGB
    }

    /// Whether the format has a depth plane.
    pub fn has_depth(self) -> (r: bool)
        ensures
            r == format_has_depth(self),
    {
        self.0 == FMT_D32_FLOAT_S8X24_UINT || self.0 == FMT_D32_FLOAT || self.0
            == FMT_D24_UNORM_S8_UINT || self.0 == FMT_D16_UNORM
    }

    /// Whether the format has a stencil plane.
    pub fn has_stencil(self) -> (r: bool)
        ensures
            r == format_has_stencil(self),
    {
        self.0 == FMT_D32_FLOAT_S8X24_UINT || self.0 == FMT_D24_UNORM_S8_UINT
    }

    /// Whether the format has a depth or a stencil plane.
    pub fn has_depth_stencil(self) -> (r: bool)
        ensures
            r == (format_has_depth(self) || format_has_stencil(self)),
    {
        self.has_depth() || self.has_stencil()
    }

    /// Whether the format has a depth plane but no stencil plane.
    pub fn depth_only(self) -> (r: bool)
        ensures
            r == (format_has_depth(self) && !format_has_stencil(self)),
    {
        self.has_depth() && !self.has_stencil()
    }

    /// Bytes of one element of the format; see `format_element_bytes_of`.
    pub fn element_bytes(self) -> (r: u32)
        ensures
            r == format_element_bytes_of(self),
    {
        if self.0 == FMT_R32G32B32A32_TYPELESS || self.0 == FMT_R32G32B32A32_FLOAT || self.0
            == FMT_R32G32B32A32_UINT || self.0 == FMT_R32G32B32A32_SINT {
            16
        } else if self.0 == FMT_R32G32B32_FLOAT || self.0 == FMT_R32G32B32_TYPELESS || self.0
            == FMT_R32G32B32_UINT || self.0 == FMT_R32G32B32_SINT {
            12
        } else if self.0 == FMT_R16G16B16A16_FLOAT || self.0 == FMT_R16G16B16A16_UNORM || self.0
            == FMT_R32G32_FLOAT || self.0 == FMT_R32G8X24_TYPELESS || self.0
            == FMT_D32_FLOAT_S8X24_UINT {
            8
        } else if self.0 == FMT_R10G10B10A2_UNORM || self.0 == FMT_R11G11B10_FLOAT || self.0
            == FMT_R8G8B8A8_TYPELESS || self.0 == FMT_R8G8B8A8_UNORM || self.0
            == FMT_R8G8B8A8_UNORM_SRGB || self.0 == FMT_R8G8B8A8_UINT || self.0 == FMT_R16G16_FLOAT
            || self.0 == FMT_R32_TYPELESS || self.0 == FMT_D32_FLOAT || self.0 == FMT_R32_FLOAT
            || self.0 == FMT_R32_UINT || self.0 == FMT_R32_SINT || self.0 == FMT_R24G8_TYPELESS
            || self.0 == FMT_D24_UNORM_S8_UINT || self.0 == FMT_B8G8R8A8_UNORM || self.0
            == FMT_B8G8R8A8_UNORM_SRGB || self.0 == FMT_R9G9B9E5_SHAREDEXP {
            4
        } else if self.0 == FMT_R8G8_UNORM || self.0 == FMT_R16_FLOAT || self.0 == FMT_D16_UNORM
            || self.0 == FMT_R16_UNORM || self.0 == FMT_R16_UINT || self.0 == FMT_B5G6R5_UNORM
            || self.0 == FMT_B5G5R5A1_UNORM || self.0 == FMT_B4G4R4A4_UNORM {
            2
        } else if self.0 == FMT_R8_UNORM || self.0 == FMT_R8_UINT || self.0 == FMT_A8_UNORM {
            1
        } else if self.0 == FMT_BC1_UNORM || self.0 == FMT_BC1_UNORM_SRGB || self.0
            == FMT_BC4_UNORM {
            8
        } else if self.0 == FMT_BC2_UNORM || self.0 == FMT_BC3_UNORM || self.0 == FMT_BC5_UNORM
            || self.0 == FMT_BC6H_UF16 || self.0 == FMT_BC7_UNORM || self.0
            == FMT_BC7_UNORM_SRGB {
            16
        } else {
            0
        }
    }
}

} // verus!
