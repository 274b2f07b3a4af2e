//! Plain argument records for the operations a runtime backend performs on
//! the compiler's behalf: destroying heaps and resources, render-pass
//! bracketing and debug markers. The backend itself lives outside this
//! library; these types carry what the finalized graph tells it to do.

use vstd::prelude::*;

use crate::resource::ResourceType;

verus! {

/// Which heaps (by identity) the backend should destroy.
#[derive(Debug, PartialEq, Eq)]
pub struct RuntimeOpDestroyHeapArgs {
    pub num_heaps: u32,
    pub heaps: Vec<u32>,
}

/// Which resources (by identity) of one kind the backend should destroy.
#[derive(Debug, PartialEq, Eq)]
pub struct RuntimeOpDestroyResourceArgs {
    pub resource_type: ResourceType,
    pub num_resources: u32,
    pub runtime_resources: Vec<u32>,
}

/// Whether a debug marker opens a scope, stands alone, or closes one.
#[derive(Clone, Copy, Debug, PartialEq, Eq, Structural)]
pub struct RuntimeDebugMarkerMode(pub u32);

pub const RUNTIME_DEBUG_MARKER_BEGIN: u32 = 0;
pub const RUNTIME_DEBUG_MARKER_LABEL: u32 = 1;
pub const RUNTIME_DEBUG_MARKER_END: u32 = 2;

/// Flags of one render pass recorded by the backend.
pub type RuntimeRenderPassFlags = u32;

pub const RUNTIME_RENDER_PASS_FLAG_NONE: RuntimeRenderPassFlags = 0;
pub const RUNTIME_RENDER_PASS_SUSPENDING: RuntimeRenderPassFlags = 1u32 << 0;
pub const RUNTIME_RENDER_PASS_RESUMING: RuntimeRenderPassFlags = 1u32 << 1;
pub const RUNTIME_RENDER_PASS_EXECUTE_SECONDARY_COMMAND_BUFFERS: RuntimeRenderPassFlags = 1u32
    << 2;
pub const RUNTIME_RENDER_PASS_SECONDARY_COMMAND_BUFFER: RuntimeRenderPassFlags = 1u32 << 3;

/// How a render pass is begun.
#[derive(Clone, Copy, Debug, PartialEq, Eq, Structural)]
pub struct CmdRenderPassBeginInfo {
    pub flags: RuntimeRenderPassFlags,
}

} // verus!
