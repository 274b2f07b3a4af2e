//! Core value types shared by the whole compiler: allocation queries, log
//! levels, typed-constant descriptions and source locations.

use vstd::prelude::*;

verus! {

/// Size and alignment of one allocation request.
#[derive(Clone, Copy, Debug, PartialEq, Eq, Structural)]
pub struct AllocInfo {
    pub size: usize,
    pub alignment: usize,
}

/// Severity of one diagnostic message.
#[derive(Clone, Copy, Debug, PartialEq, Eq, Structural)]
pub struct DiagLogLevel(pub u32);

pub const DIAG_INFO: u32 = 0;
pub const DIAG_WARNING: u32 = 1;
pub const DIAG_ERROR: u32 = 2;
pub const DIAG_FATAL: u32 = 3;
pub const DIAG_COUNT: u32 = 4;

/// Identity of a built-in or user-defined scalar type that a node argument
/// can carry.
#[derive(Clone, Copy, Debug, PartialEq, Eq, Structural)]
pub struct TypeId(pub u32);

pub const TYPE_ID_BUILT_IN_BOOL: u32 = 0;
pub const TYPE_ID_BUILT_IN_INT8: u32 = 1;
pub const TYPE_ID_BUILT_IN_UINT8: u32 = 2;
pub const TYPE_ID_BUILT_IN_INT16: u32 = 3;
pub const TYPE_ID_BUILT_IN_UINT16: u32 = 4;
pub const TYPE_ID_BUILT_IN_INT32: u32 = 5;
pub const TYPE_ID_BUILT_IN_UINT32: u32 = 6;
pub const TYPE_ID_BUILT_IN_INT64: u32 = 7;
pub const TYPE_ID_BUILT_IN_UINT64: u32 = 8;
pub const TYPE_ID_BUILT_IN_MAX_VALUE: u32 = 64;
pub const TYPE_ID_OPAQUE: u32 = 65;
pub const TYPE_ID_RUNTIME_DEFINED_BEGIN: u32 = 64;
pub const TYPE_ID_USER_DEFINED_BEGIN: u32 = 65536;

impl TypeId {
    /// The raw numeric identity of the type.
    pub fn as_raw(self) -> (r: u32)
        ensures
            r == self.0,
    {
        self.0
    }
}

/// Size and identity of one typed constant; sizes above the 16-bit limit
/// are truncated, as type info describes small scalar payloads only.
#[derive(Clone, Copy, Debug, PartialEq, Eq, Structural)]
pub struct TypeInfo {
    pub size: u16,
    pub id: u16,
}

impl TypeInfo {
    /// Describes an opaque value of the given byte size.
    pub fn init_from_size(size: usize) -> (r: TypeInfo)
        ensures
            r.size == size as u16,
            r.id == TYPE_ID_OPAQUE as u16,
    {
        TypeInfo { size: #[verifier::truncate] (size as u16), id: TYPE_ID_OPAQUE as u16 }
    }

    /// Describes a value of the given byte size and type identity.
    pub fn init_from_size_and_type_id(size: usize, type_id: TypeId) -> (r: TypeInfo)
        ensures
            r.size == size as u16,
            r.id == type_id.0 as u16,
    {
        TypeInfo {
            size: #[verifier::truncate] (size as u16),
            id: #[verifier::truncate] (type_id.0 as u16),
        }
    }

    /// Describes an opaque value the size of `T`.
    pub fn init_from_type<T>() -> (r: TypeInfo)
        ensures
            r.size == vstd::layout::size_of::<T>() as u16,
            r.id == TYPE_ID_OPAQUE as u16,
    {
        TypeInfo::init_from_size(core::mem::size_of::<T>())
    }

    /// Describes a value the size of `T` with the given type identity.
    pub fn init_from_type_and_id<T>(type_id: TypeId) -> (r: TypeInfo)
        ensures
            r.size == vstd::layout::size_of::<T>() as u16,
            r.id == type_id.0 as u16,
    {
        TypeInfo::init_from_size_and_type_id(core::mem::size_of::<T>(), type_id)
    }
}

/// Where in the front-end program a declaration came from.
#[derive(Clone, Copy, Debug, PartialEq, Eq, Structural)]
pub struct SourceLocation {
    pub file: u32,
    pub line: u32,
}

} // verus!
