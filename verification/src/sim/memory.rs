//! Little-endian loads and stores on the flat byte memory.

use vstd::prelude::*;

use crate::sim::error::{res_view, ty_named, ty_text, SimError, SimErrorV};
use crate::sim::ir::IrFunction;
use crate::sim::value::{IrType, SimValue};

verus! {

/// The `n` low bytes of `v`, least significant first.
pub open spec fn le_bytes(v: nat, n: nat) -> Seq<u8>
    decreases n,
{
    if n == 0 {
        seq![]
    } else {
        seq![(v % 256) as u8] + le_bytes(v / 256, (n - 1) as nat)
    }
}

/// The number whose little-endian bytes are `b`.
pub open spec fn le_value(b: Seq<u8>) -> nat
    decreases b.len(),
{
    if b.len() == 0 {
        0
    } else {
        b[0] as nat + 256 * le_value(b.drop_first())
    }
}

/// The bit pattern a value is stored as: integers in two's complement at
/// their width, floats as their IEEE bits.
pub open spec fn stored_bits(v: SimValue) -> nat {
    match v {
        SimValue::I8(x) => x as u8 as nat,
        SimValue::I16(x) => x as u16 as nat,
        SimValue::I32(x) => x as u32 as nat,
        SimValue::I64(x) => x as u64 as nat,
        SimValue::F32(b) => b as nat,
        SimValue::F64(b) => b as nat,
    }
}

/// The value of scalar type `ty` whose little-endian bytes are `b`.
pub open spec fn decode(ty: IrType, b: Seq<u8>) -> Option<SimValue> {
    let n = le_value(b);
    match ty {
        IrType::I8 => Some(SimValue::I8(b[0] as i8)),
        IrType::I16 => Some(SimValue::I16(n as u16 as i16)),
        IrType::I32 => Some(SimValue::I32(n as u32 as i32)),
        IrType::I64 => Some(SimValue::I64(n as u64 as i64)),
        IrType::F32 => Some(SimValue::F32(n as u32)),
        IrType::F64 => Some(SimValue::F64(n as u64)),
        IrType::Other { .. } => None,
    }
}

/// The error for an access of `size` bytes at `addr` outside a memory of
/// `len` bytes.
pub open spec fn oob(addr: usize, size: nat, len: nat) -> SimErrorV {
    SimErrorV::OutOfBounds { addr: addr as u64, size: size as usize, memory_len: len as usize }
}

/// Load of a value of type `ty` at byte address `addr`: the bytes
/// `addr .. addr + size` read little-endian; an access past the end is
/// `OutOfBounds`; a type outside the scalar set (that fits) is a
/// `TypeMismatch`.
pub open spec fn spec_load(mem: Seq<u8>, addr: usize, ty: IrType, tname: Seq<char>) -> Result<
    SimValue,
    SimErrorV,
> {
    let size = ty.spec_bytes() as nat;
    if addr + size > mem.len() {
        Err(oob(addr, size, mem.len()))
    } else {
        match decode(ty, mem.subrange(addr as int, addr + size)) {
            Some(v) => Ok(v),
            None => Err(SimErrorV::TypeMismatch("load type "@ + tname)),
        }
    }
}

/// Memory after storing `v` at `addr`: its bytes replace
/// `addr .. addr + size`; `OutOfBounds` if they do not fit.
pub open spec fn spec_store(mem: Seq<u8>, addr: usize, v: SimValue) -> Result<Seq<u8>, SimErrorV> {
    let size = v.spec_ty().spec_bytes() as nat;
    if addr + size > mem.len() {
        Err(oob(addr, size, mem.len()))
    } else {
        Ok(mem.subrange(0, addr as int) + le_bytes(stored_bits(v), size) + mem.subrange(
            addr + size,
            mem.len() as int,
        ))
    }
}

proof fn lemma_le_value_unfold(b: Seq<u8>)
    requires
        b.len() <= 8,
    ensures
        b.len() == 1 ==> le_value(b) == b[0] as nat,
        b.len() == 2 ==> le_value(b) == b[0] as nat + 256 * b[1] as nat,
        b.len() == 4 ==> le_value(b) == b[0] as nat + 256 * b[1] as nat + 65536 * b[2] as nat
            + 16777216 * b[3] as nat,
        b.len() == 8 ==> le_value(b) == b[0] as nat + 256 * b[1] as nat + 65536 * b[2] as nat
            + 16777216 * b[3] as nat + 4294967296 * b[4] as nat + 1099511627776 * b[5] as nat
            + 281474976710656 * b[6] as nat + 72057594037927936 * b[7] as nat,
{
    reveal_with_fuel(le_value, 9);
    let d1 = b.drop_first();
    let d2 = d1.drop_first();
    let d3 = d2.drop_first();
    let d4 = d3.drop_first();
    let d5 = d4.drop_first();
    let d6 = d5.drop_first();
    let d7 = d6.drop_first();
    let d8 = d7.drop_first();
    if b.len() == 8 {
        assert(le_value(d8) == 0);
        assert(le_value(d7) == d7[0] as nat);
    }
}

/// Reads `n` bytes at `addr` as a little-endian number.
fn read_le(mem: &Vec<u8>, addr: usize, n: usize) -> (r: u64)
    requires
        n == 1 || n == 2 || n == 4 || n == 8,
        addr + n <= mem@.len(),
    ensures
        r as nat == le_value(mem@.subrange(addr as int, addr + n)),
{
    let len = mem.len();
    let ghost b = mem@.subrange(addr as int, addr + n);
    proof {
        lemma_le_value_unfold(b);
    }
    let b0 = mem[addr] as u64;
    if n == 1 {
        return b0;
    }
    let b1 = mem[addr + 1] as u64;
    if n == 2 {
        return b0 + 256 * b1;
    }
    let b2 = mem[addr + 2] as u64;
    let b3 = mem[addr + 3] as u64;
    if n == 4 {
        return b0 + 256 * b1 + 65536 * b2 + 16777216 * b3;
    }
    let b4 = mem[addr + 4] as u64;
    let b5 = mem[addr + 5] as u64;
    let b6 = mem[addr + 6] as u64;
    let b7 = mem[addr + 7] as u64;
    b0 + 256 * b1 + 65536 * b2 + 16777216 * b3 + 4294967296 * b4 + 1099511627776 * b5
        + 281474976710656 * b6 + 72057594037927936 * b7
}

/// Load of [`spec_load`].
pub fn load_from(mem: &Vec<u8>, addr: usize, ty: IrType, f: &IrFunction) -> (r: Result<
    SimValue,
    SimError,
>)
    requires
        ty_named(f, ty),
    ensures
        res_view(r) == spec_load(mem@, addr, ty, ty_text(f, ty)),
{
    let size = ty.bytes() as usize;
    if size > mem.len() || addr > mem.len() - size {
        return Err(
            SimError::OutOfBounds { addr: addr as u64, size, memory_len: mem.len() },
        );
    }
    match ty {
        IrType::I8 => Ok(SimValue::I8(mem[addr] as i8)),
        IrType::I16 => Ok(SimValue::I16(read_le(mem, addr, 2) as u16 as i16)),
        IrType::I32 => Ok(SimValue::I32(read_le(mem, addr, 4) as u32 as i32)),
        IrType::I64 => Ok(SimValue::I64(read_le(mem, addr, 8) as i64)),
        IrType::F32 => Ok(SimValue::F32(read_le(mem, addr, 4) as u32)),
        IrType::F64 => Ok(SimValue::F64(read_le(mem, addr, 8))),
        IrType::Other { .. } => Err(
            SimError::TypeMismatch(crate::sim::error::with_ty_text("load type ", f, ty)),
        ),
    }
}

/// Writes the `n` low bytes of `v` at `addr`, least significant first.
fn write_le(mem: &mut Vec<u8>, addr: usize, v: u64, n: usize)
    requires
        n == 1 || n == 2 || n == 4 || n == 8,
        addr + n <= old(mem)@.len(),
    ensures
        final(mem)@ == old(mem)@.subrange(0, addr as int) + le_bytes(v as nat, n as nat)
            + old(mem)@.subrange(addr + n, old(mem)@.len() as int),
{
    let len = mem.len();
    let mut i: usize = 0;
    let mut rest: u64 = v;
    proof {
        vstd::arithmetic::power2::lemma2_to64();
        lemma_le_bytes_len(v as nat, n as nat);
        assert(8 * (0 as nat) == 0);
        assert(v as nat / vstd::arithmetic::power2::pow2(0) == v as nat);
    }
    while i < n
        invariant
            n == 1 || n == 2 || n == 4 || n == 8,
            i <= n,
            addr + n <= mem@.len(),
            mem@.len() == old(mem)@.len(),
            mem@.len() == len,
            le_bytes(v as nat, n as nat).len() == n,
            rest as nat == v as nat / vstd::arithmetic::power2::pow2(8 * i as nat),
            forall|j: int| 0 <= j < addr || addr + i <= j < mem@.len() ==> mem@[j] == old(mem)@[j],
            forall|j: int|
                0 <= j < i ==> #[trigger] mem@[addr + j] == le_bytes(v as nat, n as nat)[j],
        decreases n - i,
    {
        proof {
            lemma_le_bytes_index(v as nat, n as nat, i as nat);
            vstd::arithmetic::power2::lemma_pow2_unfold((8 * (i + 1)) as nat);
        }
        mem.set(addr + i, (rest % 256) as u8);
        proof {
            lemma_pow2_step_8(i as nat);
            vstd::arithmetic::power2::lemma_pow2_pos(8 * i as nat);
            vstd::arithmetic::div_mod::lemma_div_denominator(
                v as int,
                vstd::arithmetic::power2::pow2(8 * i as nat) as int,
                256,
            );
        }
        rest = rest / 256;
        i = i + 1;
    }
    let ghost expect = old(mem)@.subrange(0, addr as int) + le_bytes(v as nat, n as nat)
        + old(mem)@.subrange(addr + n, old(mem)@.len() as int);
    assert forall|j: int| 0 <= j < mem@.len() implies mem@[j] == expect[j] by {
        if addr <= j < addr + n {
            assert(mem@[addr + (j - addr)] == le_bytes(v as nat, n as nat)[j - addr]);
        }
    }
    assert(mem@ =~= expect);
}

proof fn lemma_pow2_step_8(i: nat)
    ensures
        vstd::arithmetic::power2::pow2(8 * (i + 1)) == vstd::arithmetic::power2::pow2(8 * i) * 256,
{
    vstd::arithmetic::power2::lemma_pow2_adds(8 * i, 8);
    vstd::arithmetic::power2::lemma2_to64();
}

pub proof fn lemma_le_bytes_len(v: nat, n: nat)
    ensures
        le_bytes(v, n).len() == n,
    decreases n,
{
    if n > 0 {
        lemma_le_bytes_len(v / 256, (n - 1) as nat);
    }
}

/// Byte `i` of the little-endian encoding is `v / 256^i mod 256`.
pub proof fn lemma_le_bytes_index(v: nat, n: nat, i: nat)
    requires
        i < n,
    ensures
        le_bytes(v, n).len() == n,
        le_bytes(v, n)[i as int] == ((v / vstd::arithmetic::power2::pow2(8 * i)) % 256) as u8,
    decreases i,
{
    lemma_le_bytes_len(v, n);
    lemma_le_bytes_len(v / 256, (n - 1) as nat);
    let tail = le_bytes(v / 256, (n - 1) as nat);
    assert(le_bytes(v, n) == seq![(v % 256) as u8] + tail);
    if i == 0 {
        vstd::arithmetic::power2::lemma2_to64();
        assert(8 * i == 0);
        assert(v / vstd::arithmetic::power2::pow2(0) == v);
    } else {
        assert(le_bytes(v, n)[i as int] == tail[i - 1]);
        lemma_le_bytes_index(v / 256, (n - 1) as nat, (i - 1) as nat);
        lemma_pow2_step_8((i - 1) as nat);
        vstd::arithmetic::power2::lemma2_to64();
        vstd::arithmetic::power2::lemma_pow2_pos(8 * (i - 1) as nat);
        vstd::arithmetic::div_mod::lemma_div_denominator(
            v as int,
            256,
            vstd::arithmetic::power2::pow2(8 * (i - 1) as nat) as int,
        );
        assert(256 * vstd::arithmetic::power2::pow2(8 * (i - 1) as nat) == vstd::arithmetic::power2::pow2(
            8 * i,
        )) by (nonlinear_arith)
            requires
                vstd::arithmetic::power2::pow2(8 * ((i - 1) as nat + 1)) == vstd::arithmetic::power2::pow2(
                    8 * (i - 1) as nat,
                ) * 256,
                i >= 1,
        ;
    }
}

/// Store of [`spec_store`].
pub fn store_to(mem: &mut Vec<u8>, addr: usize, val: SimValue) -> (r: Result<(), SimError>)
    ensures
        match spec_store(old(mem)@, addr, val) {
            Ok(m) => r is Ok && final(mem)@ == m,
            Err(e) => r matches Err(e2) && e2@ == e && final(mem)@ == old(mem)@,
        },
{
    let size = val.ty().bytes() as usize;
    if size > mem.len() || addr > mem.len() - size {
        return Err(
            SimError::OutOfBounds { addr: addr as u64, size, memory_len: mem.len() },
        );
    }
    let bits: u64 = match val {
        SimValue::I8(x) => x as u8 as u64,
        SimValue::I16(x) => x as u16 as u64,
        SimValue::I32(x) => x as u32 as u64,
        SimValue::I64(x) => x as u64,
        SimValue::F32(b) => b as u64,
        SimValue::F64(b) => b,
    };
    write_le(mem, addr, bits, size);
    Ok(())
}

/// Reading back the little-endian encoding of `v` in `n` bytes gives `v`
/// modulo `256^n`.
pub proof fn lemma_le_roundtrip(v: nat, n: nat)
    ensures
        le_value(le_bytes(v, n)) == v % vstd::arithmetic::power2::pow2(8 * n),
    decreases n,
{
    vstd::arithmetic::power2::lemma2_to64();
    if n == 0 {
        assert(8 * n == 0);
    } else {
        let n1 = (n - 1) as nat;
        lemma_le_roundtrip(v / 256, n1);
        lemma_le_bytes_len(v / 256, n1);
        let b = le_bytes(v, n);
        assert(b.drop_first() =~= le_bytes(v / 256, n1));
        lemma_pow2_step_8(n1);
        vstd::arithmetic::power2::lemma_pow2_pos(8 * n1);
        vstd::arithmetic::div_mod::lemma_mod_breakdown(
            v as int,
            256,
            vstd::arithmetic::power2::pow2(8 * n1) as int,
        );
        assert(256 * vstd::arithmetic::power2::pow2(8 * n1) == vstd::arithmetic::power2::pow2(8 * n));
    }
}

proof fn lemma_i8_roundtrip(x: i8, written: Seq<u8>)
    requires
        written =~= le_bytes(x as u8 as nat, 1),
    ensures
        decode(IrType::I8, written) == Some(SimValue::I8(x)),
{
    reveal_with_fuel(le_bytes, 2);
    let bits = x as u8 as nat;
    assert(written[0] == (bits % 256) as u8);
    assert(bits % 256 == bits);
    let xu: u8 = x as u8;
    assert(xu as i8 == x) by (bit_vector)
        requires
            xu == x as u8,
    ;
    assert(written[0] == xu);
}

/// A load of the type just stored, at the address just stored to, gives
/// back the stored value.
pub proof fn law_store_then_load(mem: Seq<u8>, addr: usize, v: SimValue, tname: Seq<char>)
    requires
        spec_store(mem, addr, v) is Ok,
    ensures
        spec_load(spec_store(mem, addr, v)->Ok_0, addr, v.spec_ty(), tname) == Ok::<
            SimValue,
            SimErrorV,
        >(v),
{
    let size = v.spec_ty().spec_bytes() as nat;
    let bits = stored_bits(v);
    let m2 = spec_store(mem, addr, v)->Ok_0;
    lemma_le_bytes_len(bits, size);
    let written = m2.subrange(addr as int, addr + size);
    assert(written =~= le_bytes(bits, size));
    lemma_le_roundtrip(bits, size);
    vstd::arithmetic::power2::lemma2_to64();
    assert(vstd::arithmetic::power2::pow2(8) == 256);
    assert(vstd::arithmetic::power2::pow2(16) == 65536);
    assert(vstd::arithmetic::power2::pow2(32) == 0x1_0000_0000);
    assert(vstd::arithmetic::power2::pow2(64) == 0x1_0000_0000_0000_0000);
    match v {
        SimValue::I8(x) => {
            lemma_i8_roundtrip(x, written);
            assert(size == 1);
            assert(m2.len() == mem.len());
            assert(!(addr + size > m2.len()));
            assert(decode(IrType::I8, m2.subrange(addr as int, addr + 1)) == Some(SimValue::I8(x)));
        },
        SimValue::I16(x) => {
            assert(8 * size == 16);
            assert(((x as u16 as nat) % 0x10000) as u16 as i16 == x) by (bit_vector);
            assert(spec_load(m2, addr, v.spec_ty(), tname) == Ok::<SimValue, SimErrorV>(v));
        },
        SimValue::I32(x) => {
            assert(8 * size == 32);
            assert(((x as u32 as nat) % 0x1_0000_0000) as u32 as i32 == x) by (bit_vector);
            assert(spec_load(m2, addr, v.spec_ty(), tname) == Ok::<SimValue, SimErrorV>(v));
        },
        SimValue::I64(x) => {
            assert(8 * size == 64);
            assert(((x as u64 as nat) % 0x1_0000_0000_0000_0000) as u64 as i64 == x) by (bit_vector);
            assert(spec_load(m2, addr, v.spec_ty(), tname) == Ok::<SimValue, SimErrorV>(v));
        },
        SimValue::F32(b) => {
            assert(8 * size == 32);
            assert(bits == b as nat);
            assert(vstd::arithmetic::power2::pow2(8 * size) == 0x1_0000_0000);
            assert(le_value(le_bytes(bits, size)) == bits % 0x1_0000_0000);
            assert(le_value(written) == b as nat);
            assert(decode(IrType::F32, written) == Some(SimValue::F32(b)));
            assert(spec_load(m2, addr, v.spec_ty(), tname) == Ok::<SimValue, SimErrorV>(v));
        },
        SimValue::F64(b) => {
            assert(8 * size == 64);
            assert(bits == b as nat);
            assert(vstd::arithmetic::power2::pow2(8 * size) == 0x1_0000_0000_0000_0000);
            assert(le_value(le_bytes(bits, size)) == bits % 0x1_0000_0000_0000_0000);
            assert(le_value(written) == b as nat);
            assert(decode(IrType::F64, written) == Some(SimValue::F64(b)));
            assert(spec_load(m2, addr, v.spec_ty(), tname) == Ok::<SimValue, SimErrorV>(v));
        },
    }
}

/// A store leaves every byte outside the stored range unchanged, so a load
/// of a range disjoint from it reads what was there before.
pub proof fn law_store_preserves_disjoint_load(
    mem: Seq<u8>,
    addr: usize,
    v: SimValue,
    addr2: usize,
    ty: IrType,
    tname: Seq<char>,
)
    requires
        spec_store(mem, addr, v) is Ok,
        addr2 + ty.spec_bytes() <= addr || addr + v.spec_ty().spec_bytes() <= addr2,
    ensures
        spec_load(spec_store(mem, addr, v)->Ok_0, addr2, ty, tname) == spec_load(
            mem,
            addr2,
            ty,
            tname,
        ),
{
    let size = v.spec_ty().spec_bytes() as nat;
    let m2 = spec_store(mem, addr, v)->Ok_0;
    lemma_le_bytes_len(stored_bits(v), size);
    assert(m2.len() == mem.len());
    let n2 = ty.spec_bytes() as nat;
    if addr2 + n2 <= mem.len() {
        assert(m2.subrange(addr2 as int, addr2 + n2) =~= mem.subrange(addr2 as int, addr2 + n2));
    }
}

} // verus!
