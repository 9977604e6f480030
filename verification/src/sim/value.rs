//! Scalar values and types seen by the interpreter.

use vstd::prelude::*;

verus! {

/// The scalar Cranelift types the interpreter knows, plus an escape hatch
/// for every other type (vectors, `i128`, ...), which carries the index of
/// its display name in [`crate::sim::ir::IrFunction::other_type_names`] and
/// its size in bytes.
#[derive(Clone, Copy, Debug, PartialEq, Eq, Structural)]
pub enum IrType {
    I8,
    I16,
    I32,
    I64,
    F32,
    F64,
    Other { name_index: u32, bytes: u32 },
}

impl IrType {
    /// Size of a value of this type in bytes.
    pub open spec fn spec_bytes(self) -> u32 {
        match self {
            IrType::I8 => 1,
            IrType::I16 => 2,
            IrType::I32 => 4,
            IrType::I64 => 8,
            IrType::F32 => 4,
            IrType::F64 => 8,
            IrType::Other { bytes, .. } => bytes,
        }
    }

    /// Size of a value of this type in bytes.
    #[verifier::when_used_as_spec(spec_bytes)]
    pub fn bytes(self) -> (r: u32)
        ensures
            r == self.spec_bytes(),
    {
        match self {
            IrType::I8 => 1,
            IrType::I16 => 2,
            IrType::I32 => 4,
            IrType::I64 => 8,
            IrType::F32 => 4,
            IrType::F64 => 8,
            IrType::Other { bytes, .. } => bytes,
        }
    }
}

/// A concrete value bound to an SSA value during simulation.
///
/// Floating-point values are held by their IEEE 754 bit patterns.
#[derive(Clone, Copy, Debug, PartialEq, Eq, Structural)]
pub enum SimValue {
    I8(i8),
    I16(i16),
    I32(i32),
    I64(i64),
    F32(u32),
    F64(u64),
}

impl SimValue {
    /// The value as a `u64`: integers sign-extend, floats give their bits
    /// (zero-extended for `F32`).
    pub open spec fn spec_as_u64(self) -> u64 {
        match self {
            SimValue::I8(x) => x as i64 as u64,
            SimValue::I16(x) => x as i64 as u64,
            SimValue::I32(x) => x as i64 as u64,
            SimValue::I64(x) => x as u64,
            SimValue::F32(b) => b as u64,
            SimValue::F64(b) => b,
        }
    }

    /// The value as an `i64`: integers sign-extend, floats give their bits
    /// reinterpreted (zero-extended for `F32`).
    pub open spec fn spec_as_i64(self) -> i64 {
        match self {
            SimValue::I8(x) => x as i64,
            SimValue::I16(x) => x as i64,
            SimValue::I32(x) => x as i64,
            SimValue::I64(x) => x,
            SimValue::F32(b) => b as i64,
            SimValue::F64(b) => b as i64,
        }
    }

    /// The type this value inhabits.
    pub open spec fn spec_ty(self) -> IrType {
        match self {
            SimValue::I8(_) => IrType::I8,
            SimValue::I16(_) => IrType::I16,
            SimValue::I32(_) => IrType::I32,
            SimValue::I64(_) => IrType::I64,
            SimValue::F32(_) => IrType::F32,
            SimValue::F64(_) => IrType::F64,
        }
    }

    /// The zero of a scalar type; `None` for any other type.
    pub open spec fn spec_zero_of(ty: IrType) -> Option<SimValue> {
        match ty {
            IrType::I8 => Some(SimValue::I8(0)),
            IrType::I16 => Some(SimValue::I16(0)),
            IrType::I32 => Some(SimValue::I32(0)),
            IrType::I64 => Some(SimValue::I64(0)),
            IrType::F32 => Some(SimValue::F32(0)),
            IrType::F64 => Some(SimValue::F64(0)),
            IrType::Other { .. } => None,
        }
    }

    pub open spec fn is_int(self) -> bool {
        !(self is F32 || self is F64)
    }

    /// Whether this is an integer value.
    pub fn is_int_exec(self) -> (r: bool)
        ensures
            r == self.is_int(),
    {
        match self {
            SimValue::F32(_) | SimValue::F64(_) => false,
            _ => true,
        }
    }

    /// Coerce to a `u64` for use as an address or for bitwise reasoning.
    #[verifier::when_used_as_spec(spec_as_u64)]
    pub fn as_u64(self) -> (r: u64)
        ensures
            r == self.spec_as_u64(),
    {
        match self {
            SimValue::I8(x) => x as i64 as u64,
            SimValue::I16(x) => x as i64 as u64,
            SimValue::I32(x) => x as i64 as u64,
            SimValue::I64(x) => x as u64,
            SimValue::F32(b) => b as u64,
            SimValue::F64(b) => b,
        }
    }

    /// Coerce to a signed 64-bit integer (sign-extended for narrower ints).
    #[verifier::when_used_as_spec(spec_as_i64)]
    pub fn as_i64(self) -> (r: i64)
        ensures
            r == self.spec_as_i64(),
    {
        match self {
            SimValue::I8(x) => x as i64,
            SimValue::I16(x) => x as i64,
            SimValue::I32(x) => x as i64,
            SimValue::I64(x) => x,
            SimValue::F32(b) => b as i64,
            SimValue::F64(b) => b as i64,
        }
    }

    /// Zero of the given type; `None` for a type outside the scalar set.
    pub fn zero_of(ty: IrType) -> (r: Option<SimValue>)
        ensures
            r == Self::spec_zero_of(ty),
    {
        match ty {
            IrType::I8 => Some(SimValue::I8(0)),
            IrType::I16 => Some(SimValue::I16(0)),
            IrType::I32 => Some(SimValue::I32(0)),
            IrType::I64 => Some(SimValue::I64(0)),
            IrType::F32 => Some(SimValue::F32(0)),
            IrType::F64 => Some(SimValue::F64(0)),
            IrType::Other { .. } => None,
        }
    }

    /// The type this value would inhabit.
    #[verifier::when_used_as_spec(spec_ty)]
    pub fn ty(self) -> (r: IrType)
        ensures
            r == self.spec_ty(),
    {
        match self {
            SimValue::I8(_) => IrType::I8,
            SimValue::I16(_) => IrType::I16,
            SimValue::I32(_) => IrType::I32,
            SimValue::I64(_) => IrType::I64,
            SimValue::F32(_) => IrType::F32,
            SimValue::F64(_) => IrType::F64,
        }
    }
}

/// Every value's type has a zero, and that zero has the same type.
pub proof fn law_zero_of_ty(v: SimValue)
    ensures
        SimValue::spec_zero_of(v.spec_ty()) is Some,
        SimValue::spec_zero_of(v.spec_ty())->0.spec_ty() == v.spec_ty(),
{
}

} // verus!
