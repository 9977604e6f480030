//! Integer arithmetic, casts and integer comparison on simulator values.
//! Float arithmetic is not computed here: it is handed out as a
//! [`FloatRequest`] for the caller to perform.

use vstd::prelude::*;

use crate::sim::error::{push_ty_text, res_view, ty_named, ty_text, SimError, SimErrorV};
use crate::sim::ir::{IntCC, IrFunction, OpKind};
use crate::sim::value::{IrType, SimValue};

verus! {

/// The four float arithmetic operations the interpreter covers.
#[derive(Clone, Copy, Debug, PartialEq, Eq, Structural)]
pub enum FloatBinOp {
    Fadd,
    Fsub,
    Fmul,
    Fdiv,
}

/// Which float format an operation works in.
#[derive(Clone, Copy, Debug, PartialEq, Eq, Structural)]
pub enum FloatWidth {
    F32,
    F64,
}

/// A float operation the interpreter needs computed: `a op b` on the bit
/// patterns `a` and `b` (zero-extended for `F32`). For `F32` the operation
/// is carried out in `f64` and rounded back to `f32`.
#[derive(Clone, Copy, Debug, PartialEq, Eq, Structural)]
pub struct FloatRequest {
    pub op: FloatBinOp,
    pub width: FloatWidth,
    pub a: u64,
    pub b: u64,
}

/// Outcome of a binary operation: a value, or a float computation still to
/// be carried out.
#[derive(Clone, Copy, Debug, PartialEq, Eq, Structural)]
pub enum BinOutcome {
    Value(SimValue),
    Float(FloatRequest),
}

pub open spec fn width_ok(w: u32) -> bool {
    w == 8 || w == 16 || w == 32 || w == 64
}

/// All-ones mask of the low `w` bits.
pub open spec fn width_mask(w: u32) -> u64 {
    if w == 8 {
        0xff
    } else if w == 16 {
        0xffff
    } else if w == 32 {
        0xffff_ffff
    } else {
        0xffff_ffff_ffff_ffff
    }
}

/// Integer operation on the sign-extended 64-bit forms of two operands of
/// width `width` bits. Unsigned operations first mask both operands back to
/// `width` bits; shift amounts are taken modulo `width`; division and
/// remainder by zero (and the overflowing `MIN / -1`) give 0. `None` for an
/// opcode that is not an integer operation.
pub open spec fn int_op(op: OpKind, x: i64, y: i64, width: u32) -> Option<i64> {
    let mask = width_mask(width);
    let xu = (x as u64) & mask;
    let yu = (y as u64) & mask;
    let shamt = (y as u32) & ((width - 1) as u32);
    match op {
        OpKind::Iadd | OpKind::IaddImm => Some(vstd::wrapping::i64_specs::wrapping_add(x, y)),
        OpKind::Isub => Some(vstd::wrapping::i64_specs::wrapping_sub(x, y)),
        OpKind::Imul | OpKind::ImulImm => Some(vstd::wrapping::i64_specs::wrapping_mul(x, y)),
        OpKind::Sdiv | OpKind::SdivImm => Some(
            match x.checked_div(y) {
                Some(q) => q,
                None => 0,
            },
        ),
        OpKind::Udiv | OpKind::UdivImm => Some(
            if yu == 0 {
                0
            } else {
                (xu / yu) as i64
            },
        ),
        OpKind::Srem | OpKind::SremImm => Some(
            match x.checked_rem(y) {
                Some(q) => q,
                None => 0,
            },
        ),
        OpKind::Urem | OpKind::UremImm => Some(
            if yu == 0 {
                0
            } else {
                (xu % yu) as i64
            },
        ),
        OpKind::Band | OpKind::BandImm => Some(x & y),
        OpKind::Bor | OpKind::BorImm => Some(x | y),
        OpKind::Bxor | OpKind::BxorImm => Some(x ^ y),
        OpKind::Ishl | OpKind::IshlImm => Some(vstd::wrapping::i64_specs::wrapping_shl(x, shamt)),
        OpKind::Ushr | OpKind::UshrImm => Some(
            vstd::wrapping::u64_specs::wrapping_shr(xu, shamt) as i64,
        ),
        OpKind::Sshr | OpKind::SshrImm => Some(vstd::wrapping::i64_specs::wrapping_shr(x, shamt)),
        _ => None,
    }
}

/// Whether an opcode is one of the integer arithmetic operations.
pub open spec fn is_int_op(op: OpKind) -> bool {
    match op {
        OpKind::Iadd | OpKind::IaddImm | OpKind::Isub | OpKind::Imul | OpKind::ImulImm
        | OpKind::Sdiv | OpKind::SdivImm | OpKind::Udiv | OpKind::UdivImm | OpKind::Srem
        | OpKind::SremImm | OpKind::Urem | OpKind::UremImm | OpKind::Band | OpKind::BandImm
        | OpKind::Bor | OpKind::BorImm | OpKind::Bxor | OpKind::BxorImm | OpKind::Ishl
        | OpKind::IshlImm | OpKind::Ushr | OpKind::UshrImm | OpKind::Sshr | OpKind::SshrImm => true,
        _ => false,
    }
}

/// The error for an opcode that is not an integer operation applied to
/// integers: a float operation is a `TypeMismatch`, anything else
/// `UnsupportedOpcode`.
pub open spec fn non_int_error(op: OpKind, name: Seq<char>) -> SimErrorV {
    if float_op(op) is Some {
        SimErrorV::TypeMismatch(name + ": float operation on integer operands"@)
    } else {
        SimErrorV::UnsupportedOpcode(name)
    }
}

/// The error for an opcode that is not a float operation applied to
/// floats: an integer operation is a `TypeMismatch`, anything else
/// `UnsupportedOpcode`.
pub open spec fn non_float_error(op: OpKind, name: Seq<char>) -> SimErrorV {
    if is_int_op(op) {
        SimErrorV::TypeMismatch(name + ": integer operation on float operands"@)
    } else {
        SimErrorV::UnsupportedOpcode(name)
    }
}

/// Integer operation of [`int_op`]; any other opcode is the error of
/// [`non_int_error`].
pub fn apply_int(op: OpKind, name: &String, x: i64, y: i64, width: u32) -> (r: Result<
    i64,
    SimError,
>)
    requires
        width_ok(width),
    ensures
        res_view(r) == match int_op(op, x, y, width) {
            Some(v) => Ok(v),
            None => Err(non_int_error(op, name@)),
        },
{
    let mask: u64 = if width == 8 {
        0xff
    } else if width == 16 {
        0xffff
    } else if width == 32 {
        0xffff_ffff
    } else {
        0xffff_ffff_ffff_ffff
    };
    let xu = (x as u64) & mask;
    let yu = (y as u64) & mask;
    let shamt = (y as u32) & (width - 1);
    let v = match op {
        OpKind::Iadd | OpKind::IaddImm => x.wrapping_add(y),
        OpKind::Isub => x.wrapping_sub(y),
        OpKind::Imul | OpKind::ImulImm => x.wrapping_mul(y),
        OpKind::Sdiv | OpKind::SdivImm => x.checked_div(y).unwrap_or(0),
        OpKind::Udiv | OpKind::UdivImm => if yu == 0 {
            0
        } else {
            (xu / yu) as i64
        },
        OpKind::Srem | OpKind::SremImm => x.checked_rem(y).unwrap_or(0),
        OpKind::Urem | OpKind::UremImm => if yu == 0 {
            0
        } else {
            (xu % yu) as i64
        },
        OpKind::Band | OpKind::BandImm => x & y,
        OpKind::Bor | OpKind::BorImm => x | y,
        OpKind::Bxor | OpKind::BxorImm => x ^ y,
        OpKind::Ishl | OpKind::IshlImm => x.wrapping_shl(shamt),
        OpKind::Ushr | OpKind::UshrImm => xu.wrapping_shr(shamt) as i64,
        OpKind::Sshr | OpKind::SshrImm => x.wrapping_shr(shamt),
        OpKind::Fadd | OpKind::Fsub | OpKind::Fmul | OpKind::Fdiv => {
            let mut s = name.clone();
            crate::text::push_str(&mut s, ": float operation on integer operands");
            return Err(SimError::TypeMismatch(s));
        },
        _ => {
            return Err(SimError::UnsupportedOpcode(name.clone()));
        },
    };
    Ok(v)
}

/// The float operation an opcode names, if any.
pub open spec fn float_op(op: OpKind) -> Option<FloatBinOp> {
    match op {
        OpKind::Fadd => Some(FloatBinOp::Fadd),
        OpKind::Fsub => Some(FloatBinOp::Fsub),
        OpKind::Fmul => Some(FloatBinOp::Fmul),
        OpKind::Fdiv => Some(FloatBinOp::Fdiv),
        _ => None,
    }
}

/// Wraps the outcome of [`int_op`] for a result narrowed by `narrow`.
pub open spec fn int_outcome(
    op: OpKind,
    r: Option<i64>,
    name: Seq<char>,
    narrow: spec_fn(i64) -> SimValue,
) -> Result<BinOutcome, SimErrorV> {
    match r {
        Some(v) => Ok(BinOutcome::Value(narrow(v))),
        None => Err(non_int_error(op, name)),
    }
}

/// A binary operation on two values of the same type. Integers are computed
/// by [`int_op`] on their sign-extended forms and truncated back to their
/// width; floats of the same format become a [`FloatRequest`] for the four
/// float arithmetic opcodes; operands of different types, an integer
/// operation on floats and a float operation on integers are a
/// `TypeMismatch`; any other opcode is `UnsupportedOpcode`.
pub open spec fn spec_apply_binary(op: OpKind, name: Seq<char>, a: SimValue, b: SimValue) -> Result<
    BinOutcome,
    SimErrorV,
> {
    match (a, b) {
        (SimValue::I8(x), SimValue::I8(y)) => int_outcome(
            op,
            int_op(op, x as i64, y as i64, 8),
            name,
            |v: i64| SimValue::I8(v as i8),
        ),
        (SimValue::I16(x), SimValue::I16(y)) => int_outcome(
            op,
            int_op(op, x as i64, y as i64, 16),
            name,
            |v: i64| SimValue::I16(v as i16),
        ),
        (SimValue::I32(x), SimValue::I32(y)) => int_outcome(
            op,
            int_op(op, x as i64, y as i64, 32),
            name,
            |v: i64| SimValue::I32(v as i32),
        ),
        (SimValue::I64(x), SimValue::I64(y)) => int_outcome(
            op,
            int_op(op, x, y, 64),
            name,
            |v: i64| SimValue::I64(v),
        ),
        (SimValue::F32(x), SimValue::F32(y)) => match float_op(op) {
            Some(fop) => Ok(
                BinOutcome::Float(
                    FloatRequest { op: fop, width: FloatWidth::F32, a: x as u64, b: y as u64 },
                ),
            ),
            None => Err(non_float_error(op, name)),
        },
        (SimValue::F64(x), SimValue::F64(y)) => match float_op(op) {
            Some(fop) => Ok(
                BinOutcome::Float(FloatRequest { op: fop, width: FloatWidth::F64, a: x, b: y }),
            ),
            None => Err(non_float_error(op, name)),
        },
        _ => Err(SimErrorV::TypeMismatch(name + ": operand types differ"@)),
    }
}

fn float_request(op: OpKind, name: &String, width: FloatWidth, a: u64, b: u64) -> (r: Result<
    BinOutcome,
    SimError,
>)
    ensures
        res_view(r) == match float_op(op) {
            Some(fop) => Ok(BinOutcome::Float(FloatRequest { op: fop, width, a, b })),
            None => Err(non_float_error(op, name@)),
        },
{
    let fop = match op {
        OpKind::Fadd => FloatBinOp::Fadd,
        OpKind::Fsub => FloatBinOp::Fsub,
        OpKind::Fmul => FloatBinOp::Fmul,
        OpKind::Fdiv => FloatBinOp::Fdiv,
        OpKind::Iadd | OpKind::IaddImm | OpKind::Isub | OpKind::Imul | OpKind::ImulImm
        | OpKind::Sdiv | OpKind::SdivImm | OpKind::Udiv | OpKind::UdivImm | OpKind::Srem
        | OpKind::SremImm | OpKind::Urem | OpKind::UremImm | OpKind::Band | OpKind::BandImm
        | OpKind::Bor | OpKind::BorImm | OpKind::Bxor | OpKind::BxorImm | OpKind::Ishl
        | OpKind::IshlImm | OpKind::Ushr | OpKind::UshrImm | OpKind::Sshr | OpKind::SshrImm => {
            let mut s = name.clone();
            crate::text::push_str(&mut s, ": integer operation on float operands");
            return Err(SimError::TypeMismatch(s));
        },
        _ => {
            return Err(SimError::UnsupportedOpcode(name.clone()));
        },
    };
    Ok(BinOutcome::Float(FloatRequest { op: fop, width, a, b }))
}

/// Binary operation of [`spec_apply_binary`].
pub fn apply_binary(op: OpKind, name: &String, a: SimValue, b: SimValue) -> (r: Result<
    BinOutcome,
    SimError,
>)
    ensures
        res_view(r) == spec_apply_binary(op, name@, a, b),
{
    match (a, b) {
        (SimValue::I8(x), SimValue::I8(y)) => match apply_int(op, name, x as i64, y as i64, 8) {
            Ok(v) => Ok(BinOutcome::Value(SimValue::I8(v as i8))),
            Err(e) => Err(e),
        },
        (SimValue::I16(x), SimValue::I16(y)) => match apply_int(
            op,
            name,
            x as i64,
            y as i64,
            16,
        ) {
            Ok(v) => Ok(BinOutcome::Value(SimValue::I16(v as i16))),
            Err(e) => Err(e),
        },
        (SimValue::I32(x), SimValue::I32(y)) => match apply_int(
            op,
            name,
            x as i64,
            y as i64,
            32,
        ) {
            Ok(v) => Ok(BinOutcome::Value(SimValue::I32(v as i32))),
            Err(e) => Err(e),
        },
        (SimValue::I64(x), SimValue::I64(y)) => match apply_int(op, name, x, y, 64) {
            Ok(v) => Ok(BinOutcome::Value(SimValue::I64(v))),
            Err(e) => Err(e),
        },
        (SimValue::F32(x), SimValue::F32(y)) => float_request(
            op,
            name,
            FloatWidth::F32,
            x as u64,
            y as u64,
        ),
        (SimValue::F64(x), SimValue::F64(y)) => float_request(op, name, FloatWidth::F64, x, y),
        _ => {
            let mut s = name.clone();
            crate::text::push_str(&mut s, ": operand types differ");
            Err(SimError::TypeMismatch(s))
        },
    }
}

/// The immediate of a `*_imm` instruction taken at the operand's width.
pub open spec fn imm_like(a: SimValue, imm: i64) -> SimValue {
    match a {
        SimValue::I8(_) => SimValue::I8(imm as i8),
        SimValue::I16(_) => SimValue::I16(imm as i16),
        SimValue::I32(_) => SimValue::I32(imm as i32),
        _ => SimValue::I64(imm),
    }
}

/// A binary operation with an immediate: the immediate is truncated to the
/// operand's width and the operation proceeds as [`spec_apply_binary`]; a
/// float operand is a `TypeMismatch`.
pub open spec fn spec_apply_binary_imm(op: OpKind, name: Seq<char>, a: SimValue, imm: i64) -> Result<
    BinOutcome,
    SimErrorV,
> {
    if !a.is_int() {
        Err(SimErrorV::TypeMismatch(name + ": imm on float"@))
    } else {
        spec_apply_binary(op, name, a, imm_like(a, imm))
    }
}

/// Binary operation with an immediate, of [`spec_apply_binary_imm`].
pub fn apply_binary_imm(op: OpKind, name: &String, a: SimValue, imm: i64) -> (r: Result<
    BinOutcome,
    SimError,
>)
    ensures
        res_view(r) == spec_apply_binary_imm(op, name@, a, imm),
{
    let b = match a {
        SimValue::I8(_) => SimValue::I8(imm as i8),
        SimValue::I16(_) => SimValue::I16(imm as i16),
        SimValue::I32(_) => SimValue::I32(imm as i32),
        SimValue::I64(_) => SimValue::I64(imm),
        SimValue::F32(_) | SimValue::F64(_) => {
            let mut s = name.clone();
            crate::text::push_str(&mut s, ": imm on float");
            return Err(SimError::TypeMismatch(s));
        },
    };
    apply_binary(op, name, a, b)
}

/// An integer result of type `ty` from a 64-bit value (truncating); `None`
/// for a non-integer type.
pub open spec fn int_of_type(ty: IrType, raw: i64) -> Option<SimValue> {
    match ty {
        IrType::I8 => Some(SimValue::I8(raw as i8)),
        IrType::I16 => Some(SimValue::I16(raw as i16)),
        IrType::I32 => Some(SimValue::I32(raw as i32)),
        IrType::I64 => Some(SimValue::I64(raw)),
        _ => None,
    }
}

pub(crate) fn int_of_type_exec(ty: IrType, raw: i64) -> (r: Option<SimValue>)
    ensures
        r == int_of_type(ty, raw),
{
    match ty {
        IrType::I8 => Some(SimValue::I8(raw as i8)),
        IrType::I16 => Some(SimValue::I16(raw as i16)),
        IrType::I32 => Some(SimValue::I32(raw as i32)),
        IrType::I64 => Some(SimValue::I64(raw)),
        _ => None,
    }
}

/// A unary operation:
/// - `ineg`, `bnot`: two's complement negation / bitwise not at the
///   operand's width; a float operand is a `TypeMismatch`;
/// - `fneg`: flips the sign bit of a float; an integer is a `TypeMismatch`;
/// - `uextend` zero-extends and `sextend` sign-extends the operand (a float
///   operand of `uextend` is a `TypeMismatch`; `sextend` takes a float's
///   bits), then truncates to the integer result type;
/// - `ireduce` truncates the sign-extended operand to the result type;
/// - `bitcast` reinterprets the operand's 64-bit form at the result type;
/// - a result type outside the allowed set is a `TypeMismatch`, any other
///   opcode `UnsupportedOpcode`.
pub open spec fn spec_apply_unary(
    op: OpKind,
    name: Seq<char>,
    a: SimValue,
    result_ty: IrType,
    tname: Seq<char>,
) -> Result<SimValue, SimErrorV> {
    match op {
        OpKind::Ineg => match a {
            SimValue::I8(x) => Ok(SimValue::I8(vstd::wrapping::i8_specs::wrapping_sub(0, x))),
            SimValue::I16(x) => Ok(SimValue::I16(vstd::wrapping::i16_specs::wrapping_sub(0, x))),
            SimValue::I32(x) => Ok(SimValue::I32(vstd::wrapping::i32_specs::wrapping_sub(0, x))),
            SimValue::I64(x) => Ok(SimValue::I64(vstd::wrapping::i64_specs::wrapping_sub(0, x))),
            _ => Err(SimErrorV::TypeMismatch("ineg on float"@)),
        },
        OpKind::Fneg => match a {
            SimValue::F32(b) => Ok(SimValue::F32(b ^ 0x8000_0000)),
            SimValue::F64(b) => Ok(SimValue::F64(b ^ 0x8000_0000_0000_0000)),
            _ => Err(SimErrorV::TypeMismatch("fneg on int"@)),
        },
        OpKind::Bnot => match a {
            SimValue::I8(x) => Ok(SimValue::I8(!x)),
            SimValue::I16(x) => Ok(SimValue::I16(!x)),
            SimValue::I32(x) => Ok(SimValue::I32(!x)),
            SimValue::I64(x) => Ok(SimValue::I64(!x)),
            _ => Err(SimErrorV::TypeMismatch("bnot on float"@)),
        },
        OpKind::Uextend | OpKind::Sextend => {
            let raw: Option<i64> = if op == OpKind::Sextend {
                Some(a.spec_as_i64())
            } else {
                match a {
                    SimValue::I8(x) => Some(x as u8 as i64),
                    SimValue::I16(x) => Some(x as u16 as i64),
                    SimValue::I32(x) => Some(x as u32 as i64),
                    SimValue::I64(x) => Some(x),
                    _ => None,
                }
            };
            match raw {
                None => Err(SimErrorV::TypeMismatch(name + " on float"@)),
                Some(raw) => match int_of_type(result_ty, raw) {
                    Some(v) => Ok(v),
                    None => Err(SimErrorV::TypeMismatch(name + " -> "@ + tname)),
                },
            }
        },
        OpKind::Ireduce => match int_of_type(result_ty, a.spec_as_i64()) {
            Some(v) => Ok(v),
            None => Err(SimErrorV::TypeMismatch("ireduce -> "@ + tname)),
        },
        OpKind::Bitcast => {
            let bits = a.spec_as_u64();
            match result_ty {
                IrType::F32 => Ok(SimValue::F32(bits as u32)),
                IrType::F64 => Ok(SimValue::F64(bits)),
                _ => match int_of_type(result_ty, bits as i64) {
                    Some(v) => Ok(v),
                    None => Err(SimErrorV::TypeMismatch("bitcast -> "@ + tname)),
                },
            }
        },
        _ => Err(SimErrorV::UnsupportedOpcode(name)),
    }
}

fn mismatch_with_ty(prefix: &String, sep: &str, f: &IrFunction, ty: IrType) -> (r: SimError)
    requires
        ty_named(f, ty),
    ensures
        r@ == SimErrorV::TypeMismatch(prefix@ + sep@ + ty_text(f, ty)),
{
    let mut s = prefix.clone();
    crate::text::push_str(&mut s, sep);
    push_ty_text(&mut s, f, ty);
    assert(s@ =~= prefix@ + sep@ + ty_text(f, ty));
    SimError::TypeMismatch(s)
}

/// Unary operation of [`spec_apply_unary`].
pub fn apply_unary(op: OpKind, name: &String, a: SimValue, result_ty: IrType, f: &IrFunction) -> (r:
    Result<SimValue, SimError>)
    requires
        ty_named(f, result_ty),
    ensures
        res_view(r) == spec_apply_unary(op, name@, a, result_ty, ty_text(f, result_ty)),
{
    match op {
        OpKind::Ineg => match a {
            SimValue::I8(x) => Ok(SimValue::I8(0i8.wrapping_sub(x))),
            SimValue::I16(x) => Ok(SimValue::I16(0i16.wrapping_sub(x))),
            SimValue::I32(x) => Ok(SimValue::I32(0i32.wrapping_sub(x))),
            SimValue::I64(x) => Ok(SimValue::I64(0i64.wrapping_sub(x))),
            _ => Err(SimError::TypeMismatch(String::from_str("ineg on float"))),
        },
        OpKind::Fneg => match a {
            SimValue::F32(b) => Ok(SimValue::F32(b ^ 0x8000_0000)),
            SimValue::F64(b) => Ok(SimValue::F64(b ^ 0x8000_0000_0000_0000)),
            _ => Err(SimError::TypeMismatch(String::from_str("fneg on int"))),
        },
        OpKind::Bnot => match a {
            SimValue::I8(x) => Ok(SimValue::I8(!x)),
            SimValue::I16(x) => Ok(SimValue::I16(!x)),
            SimValue::I32(x) => Ok(SimValue::I32(!x)),
            SimValue::I64(x) => Ok(SimValue::I64(!x)),
            _ => Err(SimError::TypeMismatch(String::from_str("bnot on float"))),
        },
        OpKind::Uextend | OpKind::Sextend => {
            let raw: i64 = if op == OpKind::Sextend {
                a.as_i64()
            } else {
                match a {
                    SimValue::I8(x) => x as u8 as i64,
                    SimValue::I16(x) => x as u16 as i64,
                    SimValue::I32(x) => x as u32 as i64,
                    SimValue::I64(x) => x,
                    _ => {
                        let mut s = name.clone();
                        crate::text::push_str(&mut s, " on float");
                        return Err(SimError::TypeMismatch(s));
                    },
                }
            };
            match int_of_type_exec(result_ty, raw) {
                Some(v) => Ok(v),
                None => Err(mismatch_with_ty(name, " -> ", f, result_ty)),
            }
        },
        OpKind::Ireduce => match int_of_type_exec(result_ty, a.as_i64()) {
            Some(v) => Ok(v),
            None => Err(
                SimError::TypeMismatch(crate::sim::error::with_ty_text("ireduce -> ", f, result_ty)),
            ),
        },
        OpKind::Bitcast => {
            let bits = a.as_u64();
            match result_ty {
                IrType::F32 => Ok(SimValue::F32(bits as u32)),
                IrType::F64 => Ok(SimValue::F64(bits)),
                _ => match int_of_type_exec(result_ty, bits as i64) {
                    Some(v) => Ok(v),
                    None => Err(
                        SimError::TypeMismatch(
                            crate::sim::error::with_ty_text("bitcast -> ", f, result_ty),
                        ),
                    ),
                },
            }
        },
        _ => Err(SimError::UnsupportedOpcode(name.clone())),
    }
}

/// Integer comparison on the sign-extended (signed conditions) or the
/// `as_u64` forms (unsigned conditions) of two values.
pub open spec fn spec_int_compare(cond: IntCC, a: SimValue, b: SimValue) -> bool {
    let xs = a.spec_as_i64();
    let ys = b.spec_as_i64();
    let xu = a.spec_as_u64();
    let yu = b.spec_as_u64();
    match cond {
        IntCC::Equal => xs == ys,
        IntCC::NotEqual => xs != ys,
        IntCC::SignedLessThan => xs < ys,
        IntCC::SignedLessThanOrEqual => xs <= ys,
        IntCC::SignedGreaterThan => xs > ys,
        IntCC::SignedGreaterThanOrEqual => xs >= ys,
        IntCC::UnsignedLessThan => xu < yu,
        IntCC::UnsignedLessThanOrEqual => xu <= yu,
        IntCC::UnsignedGreaterThan => xu > yu,
        IntCC::UnsignedGreaterThanOrEqual => xu >= yu,
    }
}

/// Integer comparison of [`spec_int_compare`].
pub fn int_compare(cond: IntCC, a: SimValue, b: SimValue) -> (r: bool)
    ensures
        r == spec_int_compare(cond, a, b),
{
    let xs = a.as_i64();
    let ys = b.as_i64();
    let xu = a.as_u64();
    let yu = b.as_u64();
    match cond {
        IntCC::Equal => xs == ys,
        IntCC::NotEqual => xs != ys,
        IntCC::SignedLessThan => xs < ys,
        IntCC::SignedLessThanOrEqual => xs <= ys,
        IntCC::SignedGreaterThan => xs > ys,
        IntCC::SignedGreaterThanOrEqual => xs >= ys,
        IntCC::UnsignedLessThan => xu < yu,
        IntCC::UnsignedLessThanOrEqual => xu <= yu,
        IntCC::UnsignedGreaterThan => xu > yu,
        IntCC::UnsignedGreaterThanOrEqual => xu >= yu,
    }
}

} // verus!
