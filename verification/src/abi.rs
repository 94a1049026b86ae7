use vstd::prelude::*;

verus! {

/// The scalar shapes that the native call executor passes and receives.
#[derive(Clone, Copy, Debug, PartialEq, Eq, Structural)]
pub enum AbiType {
    Bool,
    I8,
    U8,
    I16,
    U16,
    I32,
    U32,
    I64,
    U64,
    F32,
    F64,
    Guid,
    Ptr,
}

/// One native scalar. Floating-point payloads are carried by their IEEE bit
/// patterns, a GUID by its 128 bits and a pointer by its address bits.
#[derive(Clone, Copy, Debug, PartialEq, Eq, Structural)]
pub enum AbiValue {
    Bool(bool),
    I8(i8),
    U8(u8),
    I16(i16),
    U16(u16),
    I32(i32),
    U32(u32),
    I64(i64),
    U64(u64),
    F32(u32),
    F64(u64),
    Guid(u128),
    Pointer(usize),
}

impl AbiValue {
    /// The shape of a value.
    pub open spec fn abi_type(self) -> AbiType {
        match self {
            AbiValue::Bool(_) => AbiType::Bool,
            AbiValue::I8(_) => AbiType::I8,
            AbiValue::U8(_) => AbiType::U8,
            AbiValue::I16(_) => AbiType::I16,
            AbiValue::U16(_) => AbiType::U16,
            AbiValue::I32(_) => AbiType::I32,
            AbiValue::U32(_) => AbiType::U32,
            AbiValue::I64(_) => AbiType::I64,
            AbiValue::U64(_) => AbiType::U64,
            AbiValue::F32(_) => AbiType::F32,
            AbiValue::F64(_) => AbiType::F64,
            AbiValue::Guid(_) => AbiType::Guid,
            AbiValue::Pointer(_) => AbiType::Ptr,
        }
    }
}

impl AbiType {
    /// The zero value of a shape: the storage an output slot starts with.
    pub open spec fn spec_default_value(self) -> AbiValue {
        match self {
            AbiType::Bool => AbiValue::Bool(false),
            AbiType::I8 => AbiValue::I8(0),
            AbiType::U8 => AbiValue::U8(0),
            AbiType::I16 => AbiValue::I16(0),
            AbiType::U16 => AbiValue::U16(0),
            AbiType::I32 => AbiValue::I32(0),
            AbiType::U32 => AbiValue::U32(0),
            AbiType::I64 => AbiValue::I64(0),
            AbiType::U64 => AbiValue::U64(0),
            AbiType::F32 => AbiValue::F32(0),
            AbiType::F64 => AbiValue::F64(0),
            AbiType::Guid => AbiValue::Guid(0),
            AbiType::Ptr => AbiValue::Pointer(0),
        }
    }

    pub fn default_value(self) -> (r: AbiValue)
        ensures
            r == self.spec_default_value(),
            r.abi_type() == self,
    {
        match self {
            AbiType::Bool => AbiValue::Bool(false),
            AbiType::I8 => AbiValue::I8(0),
            AbiType::U8 => AbiValue::U8(0),
            AbiType::I16 => AbiValue::I16(0),
            AbiType::U16 => AbiValue::U16(0),
            AbiType::I32 => AbiValue::I32(0),
            AbiType::U32 => AbiValue::U32(0),
            AbiType::I64 => AbiValue::I64(0),
            AbiType::U64 => AbiValue::U64(0),
            AbiType::F32 => AbiValue::F32(0),
            AbiType::F64 => AbiValue::F64(0),
            AbiType::Guid => AbiValue::Guid(0),
            AbiType::Ptr => AbiValue::Pointer(0),
        }
    }
}

} // verus!
