//! Faults the interpreter can halt on, and the messages they carry.

use vstd::prelude::*;
use vstd::string::*;

use crate::sim::ir::IrFunction;
use crate::sim::value::IrType;
use crate::text::push_str;

verus! {

/// Errors the simulator can surface mid-run. The partial result returned
/// alongside still holds every value written before the fault.
#[derive(Clone, Debug)]
pub enum SimError {
    /// Opcode outside the subset the simulator covers; carries the opcode's
    /// display name (or a parenthesised note for a malformed function).
    UnsupportedOpcode(String),
    /// A load or store fell outside the memory buffer.
    OutOfBounds { addr: u64, size: usize, memory_len: usize },
    /// A value was read before any instruction wrote it.
    UndefinedValue(u32),
    /// An operand's type does not fit the instruction.
    TypeMismatch(String),
    /// Execution ran past the step budget without reaching a `return`.
    StepLimitExceeded { limit: usize },
}

/// The mathematical view of a [`SimError`]: strings become character
/// sequences.
pub enum SimErrorV {
    UnsupportedOpcode(Seq<char>),
    OutOfBounds { addr: u64, size: usize, memory_len: usize },
    UndefinedValue(u32),
    TypeMismatch(Seq<char>),
    StepLimitExceeded { limit: usize },
}

impl View for SimError {
    type V = SimErrorV;

    open spec fn view(&self) -> SimErrorV {
        match self {
            SimError::UnsupportedOpcode(s) => SimErrorV::UnsupportedOpcode(s@),
            SimError::OutOfBounds { addr, size, memory_len } => SimErrorV::OutOfBounds {
                addr: *addr,
                size: *size,
                memory_len: *memory_len,
            },
            SimError::UndefinedValue(v) => SimErrorV::UndefinedValue(*v),
            SimError::TypeMismatch(s) => SimErrorV::TypeMismatch(s@),
            SimError::StepLimitExceeded { limit } => SimErrorV::StepLimitExceeded {
                limit: *limit,
            },
        }
    }
}

/// A `Result` with its error taken by view.
pub open spec fn res_view<T>(r: Result<T, SimError>) -> Result<T, SimErrorV> {
    match r {
        Ok(v) => Ok(v),
        Err(e) => Err(e@),
    }
}

/// Display name of a type: the scalar names, or the name recorded in the
/// function for any other type.
pub open spec fn ty_text(f: &IrFunction, ty: IrType) -> Seq<char> {
    match ty {
        IrType::I8 => "i8"@,
        IrType::I16 => "i16"@,
        IrType::I32 => "i32"@,
        IrType::I64 => "i64"@,
        IrType::F32 => "f32"@,
        IrType::F64 => "f64"@,
        IrType::Other { name_index, .. } => f.other_type_names@[name_index as int]@,
    }
}

/// Whether a type's name can be looked up in the function.
pub open spec fn ty_named(f: &IrFunction, ty: IrType) -> bool {
    ty matches IrType::Other { name_index, .. } ==> name_index < f.other_type_names@.len()
}

/// Appends the display name of a type.
pub fn push_ty_text(s: &mut String, f: &IrFunction, ty: IrType)
    requires
        ty_named(f, ty),
    ensures
        final(s)@ == old(s)@ + ty_text(f, ty),
{
    match ty {
        IrType::I8 => push_str(s, "i8"),
        IrType::I16 => push_str(s, "i16"),
        IrType::I32 => push_str(s, "i32"),
        IrType::I64 => push_str(s, "i64"),
        IrType::F32 => push_str(s, "f32"),
        IrType::F64 => push_str(s, "f64"),
        IrType::Other { name_index, .. } => push_str(
            s,
            f.other_type_names[name_index as usize].as_str(),
        ),
    }
}

/// `<prefix><type name>` as a fresh string.
pub fn with_ty_text(prefix: &str, f: &IrFunction, ty: IrType) -> (r: String)
    requires
        ty_named(f, ty),
    ensures
        r@ == prefix@ + ty_text(f, ty),
{
    let mut s = String::new();
    push_str(&mut s, prefix);
    push_ty_text(&mut s, f, ty);
    assert(s@ =~= prefix@ + ty_text(f, ty));
    s
}

} // verus!
