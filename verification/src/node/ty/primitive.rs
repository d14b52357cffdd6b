use vstd::prelude::*;

verus! {

/// The family a primitive type belongs to.
#[derive(Debug, Clone, Copy, PartialEq, Eq, Structural, Hash)]
pub enum PrimitiveKind {
    UnsignedInteger,
    SignedInteger,
    Float,
}

/// Two primitive kinds are compatible when they are equal or both integers.
pub open spec fn kinds_compatible(a: PrimitiveKind, b: PrimitiveKind) -> bool {
    a == b || (a == PrimitiveKind::UnsignedInteger && b == PrimitiveKind::SignedInteger) || (a
        == PrimitiveKind::SignedInteger && b == PrimitiveKind::UnsignedInteger)
}

impl PrimitiveKind {
    /// Two kinds are compatible when they are equal or both integers.
    pub fn is_abi_compatible(&self, other: &Self) -> (r: bool)
        ensures
            r == kinds_compatible(*self, *other),
    {
        *self == *other || (*self == PrimitiveKind::UnsignedInteger && *other
            == PrimitiveKind::SignedInteger) || (*self == PrimitiveKind::SignedInteger && *other
            == PrimitiveKind::UnsignedInteger)
    }
}

/// The primitive value types a channel may carry.
#[derive(Debug, Clone, Copy, PartialEq, Eq, Structural, Hash)]
pub enum PrimitiveTypeEnum {
    U8,
    U16,
    U32,
    U64,
    U128,
    I8,
    I16,
    I32,
    I64,
    I128,
    F32,
    F64,
}

impl PrimitiveTypeEnum {
    /// The size of a value of this primitive type in bytes.
    pub open spec fn size(self) -> nat {
        match self {
            PrimitiveTypeEnum::U8 | PrimitiveTypeEnum::I8 => 1,
            PrimitiveTypeEnum::U16 | PrimitiveTypeEnum::I16 => 2,
            PrimitiveTypeEnum::U32 | PrimitiveTypeEnum::I32 | PrimitiveTypeEnum::F32 => 4,
            PrimitiveTypeEnum::U64 | PrimitiveTypeEnum::I64 | PrimitiveTypeEnum::F64 => 8,
            PrimitiveTypeEnum::U128 | PrimitiveTypeEnum::I128 => 16,
        }
    }

    /// The kind of the primitive type.
    pub open spec fn spec_kind(self) -> PrimitiveKind {
        match self {
            PrimitiveTypeEnum::U8 | PrimitiveTypeEnum::U16 | PrimitiveTypeEnum::U32
            | PrimitiveTypeEnum::U64 | PrimitiveTypeEnum::U128 => PrimitiveKind::UnsignedInteger,
            PrimitiveTypeEnum::I8 | PrimitiveTypeEnum::I16 | PrimitiveTypeEnum::I32
            | PrimitiveTypeEnum::I64 | PrimitiveTypeEnum::I128 => PrimitiveKind::SignedInteger,
            PrimitiveTypeEnum::F32 | PrimitiveTypeEnum::F64 => PrimitiveKind::Float,
        }
    }

    pub fn value_size(&self) -> (r: usize)
        ensures
            r == self.size(),
    {
        match self {
            PrimitiveTypeEnum::U8 | PrimitiveTypeEnum::I8 => 1,
            PrimitiveTypeEnum::U16 | PrimitiveTypeEnum::I16 => 2,
            PrimitiveTypeEnum::U32 | PrimitiveTypeEnum::I32 | PrimitiveTypeEnum::F32 => 4,
            PrimitiveTypeEnum::U64 | PrimitiveTypeEnum::I64 | PrimitiveTypeEnum::F64 => 8,
            PrimitiveTypeEnum::U128 | PrimitiveTypeEnum::I128 => 16,
        }
    }

    pub fn kind(&self) -> (r: PrimitiveKind)
        ensures
            r == self.spec_kind(),
    {
        match self {
            PrimitiveTypeEnum::U8 | PrimitiveTypeEnum::U16 | PrimitiveTypeEnum::U32
            | PrimitiveTypeEnum::U64 | PrimitiveTypeEnum::U128 => PrimitiveKind::UnsignedInteger,
            PrimitiveTypeEnum::I8 | PrimitiveTypeEnum::I16 | PrimitiveTypeEnum::I32
            | PrimitiveTypeEnum::I64 | PrimitiveTypeEnum::I128 => PrimitiveKind::SignedInteger,
            PrimitiveTypeEnum::F32 | PrimitiveTypeEnum::F64 => PrimitiveKind::Float,
        }
    }
}

} // verus!
