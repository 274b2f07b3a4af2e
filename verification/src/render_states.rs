//! Fixed-function render state values a node callback can query.

use vstd::prelude::*;

verus! {

/// An axis-aligned rectangle in integer pixels.
#[derive(Clone, Copy, Debug, PartialEq, Eq, Structural)]
pub struct Rect {
    pub x: i32,
    pub y: i32,
    pub width: i32,
    pub height: i32,
}

/// How vertices are assembled into primitives.
#[derive(Clone, Copy, Debug, PartialEq, Eq, Structural)]
pub struct PrimitiveTopology(pub u32);

pub const PRIMITIVE_TOPOLOGY_UNDEFINED: u32 = 0;
pub const PRIMITIVE_TOPOLOGY_POINTLIST: u32 = 1;
pub const PRIMITIVE_TOPOLOGY_LINELIST: u32 = 2;
pub const PRIMITIVE_TOPOLOGY_LINESTRIP: u32 = 3;
pub const PRIMITIVE_TOPOLOGY_TRIANGLELIST: u32 = 4;
pub const PRIMITIVE_TOPOLOGY_TRIANGLESTRIP: u32 = 5;
pub const PRIMITIVE_TOPOLOGY_LINELIST_ADJ: u32 = 6;
pub const PRIMITIVE_TOPOLOGY_LINESTRIP_ADJ: u32 = 7;
pub const PRIMITIVE_TOPOLOGY_TRIANGLELIST_ADJ: u32 = 8;
pub const PRIMITIVE_TOPOLOGY_TRIANGLESTRIP_ADJ: u32 = 9;
pub const PRIMITIVE_TOPOLOGY_PATCHLIST: u32 = 10;

/// How a multisampled source resolves into a single-sampled target.
#[derive(Clone, Copy, Debug, PartialEq, Eq, Structural)]
pub struct ResolveMode(pub u32);

pub const RESOLVE_MODE_AVERAGE: u32 = 0;
pub const RESOLVE_MODE_MIN: u32 = 1;
pub const RESOLVE_MODE_MAX: u32 = 2;
pub const RESOLVE_MODE_ENCODE_SAMPLER_FEEDBACK: u32 = 3;
pub const RESOLVE_MODE_DECODE_SAMPLER_FEEDBACK: u32 = 4;

} // verus!
