//! What the integer and float operations compute, stated against the
//! mathematics of their operands.

use vstd::prelude::*;

use crate::sim::arith::{
    imm_like, spec_apply_binary, spec_apply_binary_imm, spec_apply_unary, spec_int_compare, BinOutcome,
};
use crate::sim::error::SimErrorV;
use crate::sim::float::spec_float_compare;
use crate::sim::ir::{FloatCC, IntCC, OpKind};
use crate::sim::memory::{spec_load, spec_store, stored_bits};
use crate::sim::value::{IrType, SimValue};

verus! {

/// The register form of an opcode that takes an immediate.
pub open spec fn register_form(op: OpKind) -> Option<OpKind> {
    match op {
        OpKind::IaddImm => Some(OpKind::Iadd),
        OpKind::ImulImm => Some(OpKind::Imul),
        OpKind::SdivImm => Some(OpKind::Sdiv),
        OpKind::UdivImm => Some(OpKind::Udiv),
        OpKind::SremImm => Some(OpKind::Srem),
        OpKind::UremImm => Some(OpKind::Urem),
        OpKind::BandImm => Some(OpKind::Band),
        OpKind::BorImm => Some(OpKind::Bor),
        OpKind::BxorImm => Some(OpKind::Bxor),
        OpKind::IshlImm => Some(OpKind::Ishl),
        OpKind::UshrImm => Some(OpKind::Ushr),
        OpKind::SshrImm => Some(OpKind::Sshr),
        _ => None,
    }
}

/// An operation with an immediate computes what its register form computes
/// on the operand and the immediate taken at the operand's width.
pub proof fn law_imm_form_is_register_form(op: OpKind, name: Seq<char>, a: SimValue, imm: i64)
    requires
        a.is_int(),
        register_form(op) is Some,
    ensures
        spec_apply_binary_imm(op, name, a, imm) == spec_apply_binary(
            register_form(op)->0,
            name,
            a,
            imm_like(a, imm),
        ),
{
}

/// The mathematical value of an integer operand.
pub open spec fn int_value(v: SimValue) -> int {
    match v {
        SimValue::I8(x) => x as int,
        SimValue::I16(x) => x as int,
        SimValue::I32(x) => x as int,
        SimValue::I64(x) => x as int,
        _ => 0,
    }
}

/// The smallest and largest value of an integer type.
pub open spec fn int_min(t: IrType) -> int {
    match t {
        IrType::I8 => -0x80,
        IrType::I16 => -0x8000,
        IrType::I32 => -0x8000_0000,
        _ => -0x8000_0000_0000_0000,
    }
}

pub open spec fn int_max(t: IrType) -> int {
    -int_min(t) - 1
}

/// `2^bits` of an integer type.
pub open spec fn modulus(t: IrType) -> int {
    -2 * int_min(t)
}

/// An integer operand of type `t`.
pub open spec fn is_int_of(v: SimValue, t: IrType) -> bool {
    v.is_int() && v.spec_ty() == t
}

/// The result value of an operation that produced one.
pub open spec fn value_of(r: Result<BinOutcome, SimErrorV>) -> SimValue {
    r->Ok_0->Value_0
}

/// A successful integer result of type `t`.
pub open spec fn int_result(r: Result<BinOutcome, SimErrorV>, t: IrType) -> bool {
    r matches Ok(BinOutcome::Value(v)) && is_int_of(v, t)
}

/// A value in twice the range of type `t`, brought into its range by
/// adding or subtracting `2^bits` once.
pub open spec fn wrapped(v: int, t: IrType) -> int {
    if v > int_max(t) {
        v - modulus(t)
    } else if v < int_min(t) {
        v + modulus(t)
    } else {
        v
    }
}

proof fn lemma_wrap8(v: i64)
    by (bit_vector)
    requires
        -256 <= v <= 255,
    ensures
        (v as i8) as int == (if v > 127 { v - 256 } else if v < -128 { v + 256 } else { v as int }),
{
}

proof fn lemma_wrap16(v: i64)
    by (bit_vector)
    requires
        -0x1_0000 <= v <= 0xffff,
    ensures
        (v as i16) as int == (if v > 0x7fff { v - 0x1_0000 } else if v < -0x8000 { v + 0x1_0000 } else { v as int }),
{
}

proof fn lemma_wrap32(v: i64)
    by (bit_vector)
    requires
        -0x1_0000_0000 <= v <= 0xffff_ffff,
    ensures
        (v as i32) as int == (if v > 0x7fff_ffff { v - 0x1_0000_0000 } else if v < -0x8000_0000 { v + 0x1_0000_0000 } else { v as int }),
{
}

/// `iadd`, `isub` and `imul` give the true sum, difference and product
/// wherever it fits the operands' type; a sum or difference that does
/// not fit wraps around once by `2^bits`.
pub proof fn law_add_sub_mul(name: Seq<char>, a: SimValue, b: SimValue)
    requires
        a.is_int(),
        b.spec_ty() == a.spec_ty(),
    ensures
        ({
            let t = a.spec_ty();
            let x = int_value(a);
            let y = int_value(b);
            &&& int_result(spec_apply_binary(OpKind::Iadd, name, a, b), t)
            &&& int_result(spec_apply_binary(OpKind::Isub, name, a, b), t)
            &&& int_result(spec_apply_binary(OpKind::Imul, name, a, b), t)
            &&& (int_min(t) <= x + y <= int_max(t) ==> int_value(value_of(spec_apply_binary(OpKind::Iadd, name, a, b))) == x + y)
            &&& (int_min(t) <= x - y <= int_max(t) ==> int_value(value_of(spec_apply_binary(OpKind::Isub, name, a, b))) == x - y)
            &&& (int_min(t) <= x * y <= int_max(t) ==> int_value(value_of(spec_apply_binary(OpKind::Imul, name, a, b))) == x * y)
            &&& int_value(value_of(spec_apply_binary(OpKind::Iadd, name, a, b))) == wrapped(x + y, t)
            &&& int_value(value_of(spec_apply_binary(OpKind::Isub, name, a, b))) == wrapped(x - y, t)
        }),
{
    match (a, b) {
        (SimValue::I8(x), SimValue::I8(y)) => {
            lemma_wrap8((x + y) as i64);
            lemma_wrap8((x - y) as i64);
        },
        (SimValue::I16(x), SimValue::I16(y)) => {
            lemma_wrap16((x + y) as i64);
            lemma_wrap16((x - y) as i64);
        },
        (SimValue::I32(x), SimValue::I32(y)) => {
            lemma_wrap32((x + y) as i64);
            lemma_wrap32((x - y) as i64);
        },
        _ => {},
    }
}


/// `band`, `bor` and `bxor` act bit by bit: on the operands sign-extended
/// to 64 bits, the result's bits are the AND, OR and XOR of theirs.
pub proof fn law_bitwise(name: Seq<char>, a: SimValue, b: SimValue)
    requires
        a.is_int(),
        b.spec_ty() == a.spec_ty(),
    ensures
        ({
            let t = a.spec_ty();
            let x = a.spec_as_i64();
            let y = b.spec_as_i64();
            &&& int_result(spec_apply_binary(OpKind::Band, name, a, b), t)
            &&& int_result(spec_apply_binary(OpKind::Bor, name, a, b), t)
            &&& int_result(spec_apply_binary(OpKind::Bxor, name, a, b), t)
            &&& value_of(spec_apply_binary(OpKind::Band, name, a, b)).spec_as_i64() == x & y
            &&& value_of(spec_apply_binary(OpKind::Bor, name, a, b)).spec_as_i64() == x | y
            &&& value_of(spec_apply_binary(OpKind::Bxor, name, a, b)).spec_as_i64() == x ^ y
        }),
{
    match (a, b) {
        (SimValue::I8(x), SimValue::I8(y)) => {
            assert(((x as i64 & y as i64) as i8) as i64 == (x as i64 & y as i64)
                && ((x as i64 | y as i64) as i8) as i64 == (x as i64 | y as i64)
                && ((x as i64 ^ y as i64) as i8) as i64 == (x as i64 ^ y as i64)) by (bit_vector);
        },
        (SimValue::I16(x), SimValue::I16(y)) => {
            assert(((x as i64 & y as i64) as i16) as i64 == (x as i64 & y as i64)
                && ((x as i64 | y as i64) as i16) as i64 == (x as i64 | y as i64)
                && ((x as i64 ^ y as i64) as i16) as i64 == (x as i64 ^ y as i64)) by (bit_vector);
        },
        (SimValue::I32(x), SimValue::I32(y)) => {
            assert(((x as i64 & y as i64) as i32) as i64 == (x as i64 & y as i64)
                && ((x as i64 | y as i64) as i32) as i64 == (x as i64 | y as i64)
                && ((x as i64 ^ y as i64) as i32) as i64 == (x as i64 ^ y as i64)) by (bit_vector);
        },
        _ => {},
    }
}

/// Whether integer type `t` has more bits than the type of `a`.
pub open spec fn wider(t: IrType, a: SimValue) -> bool {
    &&& (t == IrType::I8 || t == IrType::I16 || t == IrType::I32 || t == IrType::I64)
    &&& t.spec_bytes() > a.spec_ty().spec_bytes()
}

/// The unsigned value of an integer operand's bits.
pub open spec fn unsigned_value(a: SimValue) -> int {
    if int_value(a) < 0 {
        int_value(a) + modulus(a.spec_ty())
    } else {
        int_value(a)
    }
}

/// `uextend` to a wider type gives the operand's bits read as unsigned
/// (never negative); `sextend` gives the operand's value.
pub proof fn law_extend(name: Seq<char>, a: SimValue, t: IrType, tname: Seq<char>)
    requires
        a.is_int(),
        wider(t, a),
    ensures
        spec_apply_unary(OpKind::Uextend, name, a, t, tname) matches Ok(v) && is_int_of(v, t)
            && int_value(v) == unsigned_value(a),
        spec_apply_unary(OpKind::Sextend, name, a, t, tname) matches Ok(v) && is_int_of(v, t)
            && int_value(v) == int_value(a),
        unsigned_value(a) >= 0,
{
    match a {
        SimValue::I8(x) => {
            assert((x as u8 as i64) as int == (if x < 0 { x + 0x100 } else { x as int })) by (bit_vector);
        },
        SimValue::I16(x) => {
            assert((x as u16 as i64) as int == (if x < 0 { x + 0x1_0000 } else { x as int })) by (bit_vector);
        },
        SimValue::I32(x) => {
            assert((x as u32 as i64) as int == (if x < 0 { x + 0x1_0000_0000 } else { x as int })) by (bit_vector);
        },
        _ => {},
    }
}

/// `ireduce` to a narrower integer type keeps the operand's value where it
/// fits the result type.
pub proof fn law_ireduce(name: Seq<char>, a: SimValue, t: IrType, tname: Seq<char>)
    requires
        a.is_int(),
        t == IrType::I8 || t == IrType::I16 || t == IrType::I32 || t == IrType::I64,
        int_min(t) <= int_value(a) <= int_max(t),
    ensures
        spec_apply_unary(OpKind::Ireduce, name, a, t, tname) matches Ok(v) && is_int_of(v, t)
            && int_value(v) == int_value(a),
{
}

/// `bnot` gives `-x - 1` and `ineg` the negation, wrapped once when it
/// does not fit (only for the type's minimum).
pub proof fn law_bnot_ineg(name: Seq<char>, a: SimValue, t: IrType, tname: Seq<char>)
    requires
        a.is_int(),
    ensures
        spec_apply_unary(OpKind::Bnot, name, a, t, tname) matches Ok(v) && is_int_of(v, a.spec_ty())
            && int_value(v) == -int_value(a) - 1,
        spec_apply_unary(OpKind::Ineg, name, a, t, tname) matches Ok(v) && is_int_of(v, a.spec_ty())
            && int_value(v) == wrapped(-int_value(a), a.spec_ty()),
{
    match a {
        SimValue::I8(x) => {
            assert(!x == -x - 1) by (bit_vector);
        },
        SimValue::I16(x) => {
            assert(!x == -x - 1) by (bit_vector);
        },
        SimValue::I32(x) => {
            assert(!x == -x - 1) by (bit_vector);
        },
        SimValue::I64(x) => {
            assert(!x == -x - 1) by (bit_vector);
        },
        _ => {},
    }
}


/// How the float conditions relate: `Unordered` is the negation of
/// `Ordered`; ordered operands are in exactly one of less, equal and
/// greater, unordered ones in none; each other condition is the
/// combination of these its name says; and swapping the operands swaps
/// less and greater.
pub proof fn law_fcmp_relations(a: SimValue, b: SimValue)
    ensures
        ({
            let c = |cond: FloatCC| spec_float_compare(cond, a, b);
            let ord = c(FloatCC::Ordered);
            let lt = c(FloatCC::LessThan);
            let eq = c(FloatCC::Equal);
            let gt = c(FloatCC::GreaterThan);
            &&& c(FloatCC::Unordered) == !ord
            &&& ord ==> (lt || eq || gt) && !(lt && eq) && !(lt && gt) && !(eq && gt)
            &&& !ord ==> !lt && !eq && !gt
            &&& c(FloatCC::LessThanOrEqual) == (lt || eq)
            &&& c(FloatCC::GreaterThanOrEqual) == (gt || eq)
            &&& c(FloatCC::NotEqual) == !eq
            &&& c(FloatCC::OrderedNotEqual) == (lt || gt)
            &&& c(FloatCC::UnorderedOrEqual) == (!ord || eq)
            &&& c(FloatCC::UnorderedOrLessThan) == (!ord || lt)
            &&& c(FloatCC::UnorderedOrLessThanOrEqual) == (!ord || lt || eq)
            &&& c(FloatCC::UnorderedOrGreaterThan) == (!ord || gt)
            &&& c(FloatCC::UnorderedOrGreaterThanOrEqual) == (!ord || gt || eq)
            &&& lt == spec_float_compare(FloatCC::GreaterThan, b, a)
            &&& ord == spec_float_compare(FloatCC::Ordered, b, a)
        }),
{
}

/// An `f64` bit pattern of a non-negative number or `+inf`.
pub open spec fn nonneg_f64(x: u64) -> bool {
    x <= 0x7ff0_0000_0000_0000
}

/// An `f64` bit pattern of a non-positive number or `-inf`.
pub open spec fn nonpos_f64(x: u64) -> bool {
    0x8000_0000_0000_0000 <= x <= 0xfff0_0000_0000_0000
}

/// An `f64` NaN: all exponent bits set and a non-zero fraction.
pub open spec fn nan_f64(x: u64) -> bool {
    (0x7ff0_0000_0000_0000 < x < 0x8000_0000_0000_0000) || 0xfff0_0000_0000_0000 < x
}

/// `f64` values compare by magnitude: among non-negative patterns the
/// larger bits are the larger number, among non-positive ones the smaller;
/// every non-positive number is at most every non-negative one, with
/// equality only for the two zeros; a NaN is unordered with anything, and
/// so is an integer operand. A non-NaN value equals itself.
pub proof fn law_fcmp_f64_order(x: u64, y: u64, other: SimValue)
    ensures
        nonneg_f64(x) && nonneg_f64(y) ==> (spec_float_compare(FloatCC::LessThan, SimValue::F64(x), SimValue::F64(y)) == (x < y)
            && spec_float_compare(FloatCC::Equal, SimValue::F64(x), SimValue::F64(y)) == (x == y)),
        nonpos_f64(x) && nonpos_f64(y) ==> (spec_float_compare(FloatCC::LessThan, SimValue::F64(x), SimValue::F64(y)) == (x > y)
            && spec_float_compare(FloatCC::Equal, SimValue::F64(x), SimValue::F64(y)) == (x == y)),
        nonpos_f64(x) && nonneg_f64(y) ==> (spec_float_compare(FloatCC::LessThanOrEqual, SimValue::F64(x), SimValue::F64(y))
            && (spec_float_compare(FloatCC::Equal, SimValue::F64(x), SimValue::F64(y)) == (x == 0x8000_0000_0000_0000 && y == 0))),
        nan_f64(x) ==> spec_float_compare(FloatCC::Unordered, SimValue::F64(x), other)
            && spec_float_compare(FloatCC::Unordered, other, SimValue::F64(x)),
        other.is_int() ==> spec_float_compare(FloatCC::Unordered, other, SimValue::F64(y)),
        !nan_f64(x) ==> spec_float_compare(FloatCC::Equal, SimValue::F64(x), SimValue::F64(x))
            && spec_float_compare(FloatCC::GreaterThanOrEqual, SimValue::F64(x), SimValue::F64(x)),
{
    assert({
        &&& (nonneg_f64(x) ==> (x >> 63u64) == 0 && (x & 0x7fff_ffff_ffff_ffffu64) == x && !(((x >> 52u64) & 0x7ffu64) == 0x7ff && (x & 0xf_ffff_ffff_ffffu64) != 0))
        &&& (nonneg_f64(y) ==> (y >> 63u64) == 0 && (y & 0x7fff_ffff_ffff_ffffu64) == y && !(((y >> 52u64) & 0x7ffu64) == 0x7ff && (y & 0xf_ffff_ffff_ffffu64) != 0))
        &&& (nonpos_f64(x) ==> (x >> 63u64) == 1 && (x & 0x7fff_ffff_ffff_ffffu64) == x - 0x8000_0000_0000_0000u64 && !(((x >> 52u64) & 0x7ffu64) == 0x7ff && (x & 0xf_ffff_ffff_ffffu64) != 0))
        &&& (nonpos_f64(y) ==> (y >> 63u64) == 1 && (y & 0x7fff_ffff_ffff_ffffu64) == y - 0x8000_0000_0000_0000u64 && !(((y >> 52u64) & 0x7ffu64) == 0x7ff && (y & 0xf_ffff_ffff_ffffu64) != 0))
        &&& (nan_f64(x) ==> ((x >> 52u64) & 0x7ffu64) == 0x7ff && (x & 0xf_ffff_ffff_ffffu64) != 0)
        &&& (!nan_f64(x) ==> !(((x >> 52u64) & 0x7ffu64) == 0x7ff && (x & 0xf_ffff_ffff_ffffu64) != 0))
    }) by (bit_vector);
}


proof fn lemma_sign_extend_bits(v: i64)
    by (bit_vector)
    ensures
        (v as u64) as int == (if v < 0 { v + 0x1_0000_0000_0000_0000 } else { v as int }),
{
}

/// `icmp` on two operands of one integer type: the signed conditions
/// compare their values, the unsigned ones their bits read as unsigned.
pub proof fn law_icmp(a: SimValue, b: SimValue)
    requires
        a.is_int(),
        b.spec_ty() == a.spec_ty(),
    ensures
        ({
            let x = int_value(a);
            let y = int_value(b);
            let xu = unsigned_value(a);
            let yu = unsigned_value(b);
            &&& spec_int_compare(IntCC::Equal, a, b) == (x == y)
            &&& spec_int_compare(IntCC::NotEqual, a, b) == (x != y)
            &&& spec_int_compare(IntCC::SignedLessThan, a, b) == (x < y)
            &&& spec_int_compare(IntCC::SignedLessThanOrEqual, a, b) == (x <= y)
            &&& spec_int_compare(IntCC::SignedGreaterThan, a, b) == (x > y)
            &&& spec_int_compare(IntCC::SignedGreaterThanOrEqual, a, b) == (x >= y)
            &&& spec_int_compare(IntCC::UnsignedLessThan, a, b) == (xu < yu)
            &&& spec_int_compare(IntCC::UnsignedLessThanOrEqual, a, b) == (xu <= yu)
            &&& spec_int_compare(IntCC::UnsignedGreaterThan, a, b) == (xu > yu)
            &&& spec_int_compare(IntCC::UnsignedGreaterThanOrEqual, a, b) == (xu >= yu)
        }),
{
    lemma_sign_extend_bits(a.spec_as_i64());
    lemma_sign_extend_bits(b.spec_as_i64());
}


proof fn lemma_div_rem_nonneg(x: int, d: int)
    by (nonlinear_arith)
    requires
        x >= 0,
        d > 0,
    ensures
        d * (x / d) + x % d == x,
        (x / d) * d + x % d == x,
        0 <= x % d < d,
        0 <= x / d <= x,
        d >= 2 ==> 2 * (x / d) <= x,
        d == 1 ==> x / d == x,
{
}

pub open spec fn abs(v: int) -> int {
    if v < 0 {
        -v
    } else {
        v
    }
}

/// Signed division and remainder of `i64`, for a divisor that is not zero
/// and not the overflowing `MIN / -1`: the quotient truncates toward zero
/// and the remainder has the dividend's sign.
proof fn lemma_signed_div_rem(x: i64, y: i64)
    requires
        y != 0,
        !(x == i64::MIN && y == -1),
    ensures
        x.checked_div(y) is Some,
        x.checked_rem(y) is Some,
        (x.checked_div(y)->0 as int) * y + (x.checked_rem(y)->0 as int) == x,
        abs(x.checked_rem(y)->0 as int) < abs(y as int),
        x.checked_rem(y)->0 == 0 || ((x.checked_rem(y)->0 < 0) == (x < 0)),
        abs(x.checked_div(y)->0 as int) <= abs(x as int),
        abs(y as int) >= 2 ==> 2 * abs(x.checked_div(y)->0 as int) <= abs(x as int),
        y == 1 ==> x.checked_div(y)->0 == x,
        y == -1 ==> x.checked_div(y)->0 == -x,
{
    let xi = x as int;
    let d = y as int;
    let ax = abs(xi);
    let ad = abs(d);
    lemma_div_rem_nonneg(ax, ad);
    let qq = ax / ad;
    let rr = ax % ad;
    if xi == 0 {
    } else if xi > 0 && d > 0 {
    } else if xi < 0 && d < 0 {
        assert(xi * -1 == ax);
        assert(d * -1 == ad);
        assert(qq * d + rr * -1 == xi) by (nonlinear_arith)
            requires
                ad * qq + rr == ax,
                ad == -d,
                ax == -xi,
        ;
    } else if xi < 0 {
        assert(xi * -1 == ax);
        assert((qq * -1) * d + rr * -1 == xi) by (nonlinear_arith)
            requires
                ad * qq + rr == ax,
                ad == d,
                ax == -xi,
        ;
    } else {
        assert(d * -1 == ad);
        assert((qq * -1) * d + rr == xi) by (nonlinear_arith)
            requires
                ad * qq + rr == ax,
                ad == -d,
                ax == xi,
        ;
    }
}

/// The low `8`, `16` or `32` bits of a sign-extended operand, read as
/// unsigned, and the reverse: a small unsigned number stored back.
proof fn lemma_bits8(x: i8, v: u64)
    by (bit_vector)
    ensures
        ((x as i64 as u64) & 0xff) as int == (if x < 0 { x + 0x100 } else { x as int }),
        v < 0x100 ==> ((v as i64) as i8) as int == (if v >= 0x80 { v - 0x100 } else { v as int }),
{
}

proof fn lemma_bits16(x: i16, v: u64)
    by (bit_vector)
    ensures
        ((x as i64 as u64) & 0xffff) as int == (if x < 0 { x + 0x1_0000 } else { x as int }),
        v < 0x1_0000 ==> ((v as i64) as i16) as int == (if v >= 0x8000 { v - 0x1_0000 } else { v as int }),
{
}

proof fn lemma_bits32(x: i32, v: u64)
    by (bit_vector)
    ensures
        ((x as i64 as u64) & 0xffff_ffff) as int == (if x < 0 { x + 0x1_0000_0000 } else { x as int }),
        v < 0x1_0000_0000 ==> ((v as i64) as i32) as int == (if v >= 0x8000_0000 { v - 0x1_0000_0000 } else { v as int }),
{
}

proof fn lemma_bits64(x: i64, v: u64)
    by (bit_vector)
    ensures
        ((x as u64) & 0xffff_ffff_ffff_ffff) as int == (if x < 0 { x + 0x1_0000_0000_0000_0000 } else { x as int }),
        (v as i64) as int == (if v >= 0x8000_0000_0000_0000 { v - 0x1_0000_0000_0000_0000 } else { v as int }),
{
}

/// `sdiv` and `srem` divide the operands' values with the quotient
/// truncated toward zero and the remainder taking the dividend's sign;
/// `udiv` and `urem` do the same with the operands' bits read as unsigned;
/// a zero divisor gives zero for all four.
pub proof fn law_div_rem(name: Seq<char>, a: SimValue, b: SimValue)
    requires
        a.is_int(),
        b.spec_ty() == a.spec_ty(),
    ensures
        ({
            let t = a.spec_ty();
            let x = int_value(a);
            let y = int_value(b);
            let xu = unsigned_value(a);
            let yu = unsigned_value(b);
            let q = value_of(spec_apply_binary(OpKind::Sdiv, name, a, b));
            let r = value_of(spec_apply_binary(OpKind::Srem, name, a, b));
            let qu = value_of(spec_apply_binary(OpKind::Udiv, name, a, b));
            let ru = value_of(spec_apply_binary(OpKind::Urem, name, a, b));
            &&& int_result(spec_apply_binary(OpKind::Sdiv, name, a, b), t)
            &&& int_result(spec_apply_binary(OpKind::Srem, name, a, b), t)
            &&& int_result(spec_apply_binary(OpKind::Udiv, name, a, b), t)
            &&& int_result(spec_apply_binary(OpKind::Urem, name, a, b), t)
            &&& (y == 0 ==> int_value(q) == 0 && int_value(r) == 0 && int_value(qu) == 0 && int_value(ru) == 0)
            &&& (y != 0 && !(x == int_min(t) && y == -1) ==> {
                &&& int_value(q) * y + int_value(r) == x
                &&& abs(int_value(r)) < abs(y)
                &&& (int_value(r) == 0 || (int_value(r) < 0) == (x < 0))
            })
            &&& (yu != 0 ==> {
                &&& unsigned_value(qu) * yu + unsigned_value(ru) == xu
                &&& 0 <= unsigned_value(ru) < yu
            })
        }),
{
    let xs = a.spec_as_i64();
    let ys = b.spec_as_i64();
    if ys != 0 && !(xs == i64::MIN && ys == -1) {
        lemma_signed_div_rem(xs, ys);
    }
    match (a, b) {
        (SimValue::I8(x), SimValue::I8(y)) => {
            lemma_bits8(x, 0);
            lemma_bits8(y, 0);
            let xu = (x as i64 as u64) & 0xff;
            let yu = (y as i64 as u64) & 0xff;
            if yu != 0 {
                lemma_div_rem_nonneg(xu as int, yu as int);
                lemma_bits8(x, xu / yu);
                lemma_bits8(x, xu % yu);
            }
        },
        (SimValue::I16(x), SimValue::I16(y)) => {
            lemma_bits16(x, 0);
            lemma_bits16(y, 0);
            let xu = (x as i64 as u64) & 0xffff;
            let yu = (y as i64 as u64) & 0xffff;
            if yu != 0 {
                lemma_div_rem_nonneg(xu as int, yu as int);
                lemma_bits16(x, xu / yu);
                lemma_bits16(x, xu % yu);
            }
        },
        (SimValue::I32(x), SimValue::I32(y)) => {
            lemma_bits32(x, 0);
            lemma_bits32(y, 0);
            let xu = (x as i64 as u64) & 0xffff_ffff;
            let yu = (y as i64 as u64) & 0xffff_ffff;
            if yu != 0 {
                lemma_div_rem_nonneg(xu as int, yu as int);
                lemma_bits32(x, xu / yu);
                lemma_bits32(x, xu % yu);
            }
        },
        (SimValue::I64(x), SimValue::I64(y)) => {
            lemma_bits64(x, 0);
            lemma_bits64(y, 0);
            let xu = (x as u64) & 0xffff_ffff_ffff_ffff;
            let yu = (y as u64) & 0xffff_ffff_ffff_ffff;
            if yu != 0 {
                lemma_div_rem_nonneg(xu as int, yu as int);
                lemma_bits64(x, xu / yu);
                lemma_bits64(x, xu % yu);
            }
        },
        _ => {},
    }
}


/// The number of bits of an integer type.
pub open spec fn width_bits(t: IrType) -> int {
    match t {
        IrType::I8 => 8,
        IrType::I16 => 16,
        IrType::I32 => 32,
        _ => 64,
    }
}

/// The amount a shift operand shifts by: its value modulo the width.
pub open spec fn shift_amount(b: SimValue) -> int {
    int_value(b) % width_bits(b.spec_ty())
}

/// The amount an operand of each width shifts by, as `int_op` takes it.
proof fn lemma_amount8(y: i8)
    by (bit_vector)
    ensures
        (((y as i64) as u32) & 7u32) as int == (y as int) % 8,
{
}

proof fn lemma_amount16(y: i16)
    by (bit_vector)
    ensures
        (((y as i64) as u32) & 15u32) as int == (y as int) % 16,
{
}

proof fn lemma_amount32(y: i32)
    by (bit_vector)
    ensures
        (((y as i64) as u32) & 31u32) as int == (y as int) % 32,
{
}

proof fn lemma_amount64(y: i64)
    by (bit_vector)
    ensures
        ((y as u32) & 63u32) as int == (y as int) % 64,
{
}

proof fn lemma_amount(b: SimValue)
    requires
        b.is_int(),
    ensures
        (((b.spec_as_i64() as u32) & ((width_bits(b.spec_ty()) - 1) as u32)) as int) == shift_amount(b),
{
    match b {
        SimValue::I8(y) => lemma_amount8(y),
        SimValue::I16(y) => lemma_amount16(y),
        SimValue::I32(y) => lemma_amount32(y),
        SimValue::I64(y) => lemma_amount64(y),
        _ => {},
    }
}

/// A shift takes its amount modulo the operand's width: two amount
/// operands that agree modulo the width shift alike.
pub proof fn law_shift_amount_mod_width(op: OpKind, name: Seq<char>, a: SimValue, b: SimValue, b2: SimValue)
    requires
        op == OpKind::Ishl || op == OpKind::Ushr || op == OpKind::Sshr,
        a.is_int(),
        b.spec_ty() == a.spec_ty(),
        b2.spec_ty() == a.spec_ty(),
        shift_amount(b) == shift_amount(b2),
    ensures
        spec_apply_binary(op, name, a, b) == spec_apply_binary(op, name, a, b2),
{
    lemma_amount(b);
    lemma_amount(b2);
}

proof fn lemma_shr_u64(v: u64, sh: u32)
    requires
        sh < 64,
    ensures
        (v >> (sh % 64u32)) as int == v as nat / vstd::arithmetic::power2::pow2(sh as nat),
        (v >> (sh % 64u32)) <= v,
{
    assert(v >> (sh % 64u32) == v >> (sh as u64)) by (bit_vector)
        requires
            sh < 64,
    ;
    vstd::bits::lemma_u64_shr_is_div(v, sh as u64);
    vstd::arithmetic::power2::lemma_pow2_pos(sh as nat);
    vstd::arithmetic::div_mod::lemma_div_is_ordered_by_denominator(v as int, 1, vstd::arithmetic::power2::pow2(sh as nat) as int);
}

/// `ushr` divides the operand's bits, read as unsigned, by two to the
/// power of the shift amount.
pub proof fn law_ushr(name: Seq<char>, a: SimValue, b: SimValue)
    requires
        a.is_int(),
        b.spec_ty() == a.spec_ty(),
    ensures
        int_result(spec_apply_binary(OpKind::Ushr, name, a, b), a.spec_ty()),
        unsigned_value(value_of(spec_apply_binary(OpKind::Ushr, name, a, b))) == unsigned_value(a)
            / vstd::arithmetic::power2::pow2(shift_amount(b) as nat) as int,
{
    lemma_amount(b);
    let sh = (b.spec_as_i64() as u32) & ((width_bits(b.spec_ty()) - 1) as u32);
    match a {
        SimValue::I8(x) => {
            lemma_bits8(x, 0);
            let xu = (x as i64 as u64) & 0xff;
            lemma_shr_u64(xu, sh);
            lemma_bits8(x, xu >> (sh % 64u32));
        },
        SimValue::I16(x) => {
            lemma_bits16(x, 0);
            let xu = (x as i64 as u64) & 0xffff;
            lemma_shr_u64(xu, sh);
            lemma_bits16(x, xu >> (sh % 64u32));
        },
        SimValue::I32(x) => {
            lemma_bits32(x, 0);
            let xu = (x as i64 as u64) & 0xffff_ffff;
            lemma_shr_u64(xu, sh);
            lemma_bits32(x, xu >> (sh % 64u32));
        },
        SimValue::I64(x) => {
            lemma_bits64(x, 0);
            let xu = (x as u64) & 0xffff_ffff_ffff_ffff;
            lemma_shr_u64(xu, sh);
            lemma_bits64(x, xu >> (sh % 64u32));
        },
        _ => {},
    }
}

proof fn lemma_sshr_bits(z: i64, sh: u32)
    by (bit_vector)
    requires
        sh < 64,
    ensures
        z >= 0 ==> (z >> (sh % 64u32)) >= 0 && ((z >> (sh % 64u32)) as u64) == (z as u64) >> (sh % 64u32),
        z < 0 ==> (z >> (sh % 64u32)) == !((!z) >> (sh % 64u32)) && !z >= 0 && !z == -z - 1,
        z < 0 ==> (z >> (sh % 64u32)) < 0 && (z >> (sh % 64u32)) == -((!z) >> (sh % 64u32)) - 1
            && ((!z) >> (sh % 64u32)) >= 0 && (((!z) >> (sh % 64u32)) as u64) == ((!z) as u64) >> (sh % 64u32),
{
}

proof fn lemma_floor_div_neg(x: int, p: int)
    by (nonlinear_arith)
    requires
        x < 0,
        p > 0,
    ensures
        x / p == -((-x - 1) / p) - 1,
        x <= -((-x - 1) / p) - 1 <= -1,
{
    let q = (-x - 1) / p;
    let r = (-x - 1) % p;
    assert(-x - 1 == q * p + r && 0 <= r < p && q >= 0);
    assert(x == (-q - 1) * p + (p - r - 1));
    vstd::arithmetic::div_mod::lemma_fundamental_div_mod_converse(x, p, -q - 1, p - r - 1);
}

/// `sshr` divides the operand's value by two to the power of the shift
/// amount, rounding toward negative infinity.
pub proof fn law_sshr(name: Seq<char>, a: SimValue, b: SimValue)
    requires
        a.is_int(),
        b.spec_ty() == a.spec_ty(),
    ensures
        int_result(spec_apply_binary(OpKind::Sshr, name, a, b), a.spec_ty()),
        int_value(value_of(spec_apply_binary(OpKind::Sshr, name, a, b))) == int_value(a)
            / vstd::arithmetic::power2::pow2(shift_amount(b) as nat) as int,
{
    lemma_amount(b);
    let sh = (b.spec_as_i64() as u32) & ((width_bits(b.spec_ty()) - 1) as u32);
    let z = a.spec_as_i64();
    let p = vstd::arithmetic::power2::pow2(sh as nat) as int;
    vstd::arithmetic::power2::lemma_pow2_pos(sh as nat);
    lemma_sshr_bits(z, sh);
    let r = z >> (sh % 64u32);
    if z >= 0 {
        lemma_shr_u64(z as u64, sh);
        assert(r as int == z as int / p);
        assert(0 <= r <= z);
    } else {
        lemma_shr_u64((!z) as u64, sh);
        lemma_floor_div_neg(z as int, p);
        assert(r as int == z as int / p);
        assert(z <= r < 0);
    }
}

proof fn lemma_shl_i8(x: i8, sh: u32, sh1: u32)
    by (bit_vector)
    requires
        sh < 7,
        sh1 == sh + 1,
    ensures
        ((((x as i64) << (sh1 % 64u32)) as i8) as int) == (if 2 * ((((x as i64) << (sh % 64u32)) as i8) as int) > 0x7f {
            2 * ((((x as i64) << (sh % 64u32)) as i8) as int) - 0x100
        } else if 2 * ((((x as i64) << (sh % 64u32)) as i8) as int) < -0x80 {
            2 * ((((x as i64) << (sh % 64u32)) as i8) as int) + 0x100
        } else {
            2 * ((((x as i64) << (sh % 64u32)) as i8) as int)
        }),
        (((x as i64) << (0u32 % 64u32)) as i8) == x,
{
}

proof fn lemma_shl_i16(x: i16, sh: u32, sh1: u32)
    by (bit_vector)
    requires
        sh < 15,
        sh1 == sh + 1,
    ensures
        ((((x as i64) << (sh1 % 64u32)) as i16) as int) == (if 2 * ((((x as i64) << (sh % 64u32)) as i16) as int) > 0x7fff {
            2 * ((((x as i64) << (sh % 64u32)) as i16) as int) - 0x1_0000
        } else if 2 * ((((x as i64) << (sh % 64u32)) as i16) as int) < -0x8000 {
            2 * ((((x as i64) << (sh % 64u32)) as i16) as int) + 0x1_0000
        } else {
            2 * ((((x as i64) << (sh % 64u32)) as i16) as int)
        }),
        (((x as i64) << (0u32 % 64u32)) as i16) == x,
{
}

proof fn lemma_shl_i32(x: i32, sh: u32, sh1: u32)
    by (bit_vector)
    requires
        sh < 31,
        sh1 == sh + 1,
    ensures
        ((((x as i64) << (sh1 % 64u32)) as i32) as int) == (if 2 * ((((x as i64) << (sh % 64u32)) as i32) as int) > 0x7fff_ffff {
            2 * ((((x as i64) << (sh % 64u32)) as i32) as int) - 0x1_0000_0000
        } else if 2 * ((((x as i64) << (sh % 64u32)) as i32) as int) < -0x8000_0000 {
            2 * ((((x as i64) << (sh % 64u32)) as i32) as int) + 0x1_0000_0000
        } else {
            2 * ((((x as i64) << (sh % 64u32)) as i32) as int)
        }),
        (((x as i64) << (0u32 % 64u32)) as i32) == x,
{
}

proof fn lemma_shl_i64(x: i64, sh: u32, sh1: u32)
    by (bit_vector)
    requires
        sh < 63,
        sh1 == sh + 1,
    ensures
        ((x << (sh1 % 64u32)) as int) == (if 2 * ((x << (sh % 64u32)) as int) > 0x7fff_ffff_ffff_ffff {
            2 * ((x << (sh % 64u32)) as int) - 0x1_0000_0000_0000_0000
        } else if 2 * ((x << (sh % 64u32)) as int) < -0x8000_0000_0000_0000 {
            2 * ((x << (sh % 64u32)) as int) + 0x1_0000_0000_0000_0000
        } else {
            2 * ((x << (sh % 64u32)) as int)
        }),
        (x << (0u32 % 64u32)) == x,
{
}

/// `ishl` by zero keeps the operand, and each further bit of shift doubles
/// the result, wrapping around once by `2^bits` when it does not fit (as
/// `iadd` of the result to itself does).
pub proof fn law_ishl(name: Seq<char>, a: SimValue, b: SimValue, b1: SimValue)
    requires
        a.is_int(),
        b.spec_ty() == a.spec_ty(),
        b1.spec_ty() == a.spec_ty(),
    ensures
        int_result(spec_apply_binary(OpKind::Ishl, name, a, b), a.spec_ty()),
        shift_amount(b) == 0 ==> value_of(spec_apply_binary(OpKind::Ishl, name, a, b)) == a,
        shift_amount(b1) == shift_amount(b) + 1 ==> int_value(value_of(spec_apply_binary(OpKind::Ishl, name, a, b1)))
            == wrapped(2 * int_value(value_of(spec_apply_binary(OpKind::Ishl, name, a, b))), a.spec_ty()),
{
    lemma_amount(b);
    lemma_amount(b1);
    let sh = (b.spec_as_i64() as u32) & ((width_bits(b.spec_ty()) - 1) as u32);
    let sh1 = (b1.spec_as_i64() as u32) & ((width_bits(b1.spec_ty()) - 1) as u32);
    if shift_amount(b1) == shift_amount(b) + 1 {
        match a {
            SimValue::I8(x) => lemma_shl_i8(x, sh, sh1),
            SimValue::I16(x) => lemma_shl_i16(x, sh, sh1),
            SimValue::I32(x) => lemma_shl_i32(x, sh, sh1),
            SimValue::I64(x) => lemma_shl_i64(x, sh, sh1),
            _ => {},
        }
    } else {
        match a {
            SimValue::I8(x) => lemma_shl_i8(x, 0, 1),
            SimValue::I16(x) => lemma_shl_i16(x, 0, 1),
            SimValue::I32(x) => lemma_shl_i32(x, 0, 1),
            SimValue::I64(x) => lemma_shl_i64(x, 0, 1),
            _ => {},
        }
    }
}

/// The bits a value occupies in memory, as an unsigned number: an
/// integer's bits read as unsigned, a float's bit pattern.
pub open spec fn raw_bits(v: SimValue) -> int {
    match v {
        SimValue::F32(b) => b as int,
        SimValue::F64(b) => b as int,
        _ => unsigned_value(v),
    }
}

proof fn lemma_unsigned8(x: i8)
    by (bit_vector)
    ensures
        (x as u8) as int == (if x < 0 { x + 0x100 } else { x as int }),
{
}

proof fn lemma_unsigned16(x: i16)
    by (bit_vector)
    ensures
        (x as u16) as int == (if x < 0 { x + 0x1_0000 } else { x as int }),
{
}

proof fn lemma_unsigned32(x: i32)
    by (bit_vector)
    ensures
        (x as u32) as int == (if x < 0 { x + 0x1_0000_0000 } else { x as int }),
{
}

/// A store that fits writes the value's bits little-endian: byte `i` of
/// the value's size at `addr + i` is bits `8i ..= 8i + 7` of its raw
/// bits; memory keeps its size.
pub proof fn law_store_is_little_endian(mem: Seq<u8>, addr: usize, v: SimValue, i: int)
    requires
        addr + v.spec_ty().spec_bytes() <= mem.len(),
        0 <= i < v.spec_ty().spec_bytes(),
    ensures
        spec_store(mem, addr, v) is Ok,
        spec_store(mem, addr, v)->Ok_0.len() == mem.len(),
        spec_store(mem, addr, v)->Ok_0[addr + i] as int == (raw_bits(v) / vstd::arithmetic::power2::pow2(
            8 * i as nat,
        ) as int) % 256,
{
    let size = v.spec_ty().spec_bytes() as nat;
    crate::sim::memory::lemma_le_bytes_len(stored_bits(v), size);
    crate::sim::memory::lemma_le_bytes_index(stored_bits(v), size, i as nat);
    match v {
        SimValue::I8(x) => lemma_unsigned8(x),
        SimValue::I16(x) => lemma_unsigned16(x),
        SimValue::I32(x) => lemma_unsigned32(x),
        SimValue::I64(x) => lemma_sign_extend_bits(x),
        _ => {},
    }
}

/// An access is in bounds exactly when all of its bytes lie in memory: a
/// load or store that reaches past the end fails with `OutOfBounds` naming
/// the address, the size and the memory's length; a load of a scalar type
/// that fits succeeds.
pub proof fn law_access_bounds(mem: Seq<u8>, addr: usize, ty: IrType, v: SimValue, tname: Seq<char>)
    ensures
        addr + ty.spec_bytes() > mem.len() ==> spec_load(mem, addr, ty, tname) == Err::<SimValue, SimErrorV>(
            SimErrorV::OutOfBounds {
                addr: addr as u64,
                size: ty.spec_bytes() as usize,
                memory_len: mem.len() as usize,
            },
        ),
        addr + v.spec_ty().spec_bytes() > mem.len() ==> spec_store(mem, addr, v) == Err::<Seq<u8>, SimErrorV>(
            SimErrorV::OutOfBounds {
                addr: addr as u64,
                size: v.spec_ty().spec_bytes() as usize,
                memory_len: mem.len() as usize,
            },
        ),
        addr + ty.spec_bytes() <= mem.len() && !(ty is Other) ==> spec_load(mem, addr, ty, tname) is Ok,
{
}

} // verus!
