//! A plain model of the parts of a finalized Cranelift function that the
//! interpreter reads: blocks in layout order, their parameters and
//! instructions, value types, and the display names of imported callees.

use vstd::prelude::*;

use crate::sim::value::IrType;

verus! {

/// The opcodes whose behaviour the interpreter knows. Every other opcode is
/// `Other`; its display name travels with the instruction.
#[derive(Clone, Copy, Debug, PartialEq, Eq, Structural)]
pub enum OpKind {
    Iconst,
    F32const,
    F64const,
    Iadd,
    IaddImm,
    Isub,
    Imul,
    ImulImm,
    Sdiv,
    SdivImm,
    Udiv,
    UdivImm,
    Srem,
    SremImm,
    Urem,
    UremImm,
    Band,
    BandImm,
    Bor,
    BorImm,
    Bxor,
    BxorImm,
    Ishl,
    IshlImm,
    Ushr,
    UshrImm,
    Sshr,
    SshrImm,
    Fadd,
    Fsub,
    Fmul,
    Fdiv,
    Ineg,
    Fneg,
    Bnot,
    Uextend,
    Sextend,
    Ireduce,
    Bitcast,
    Select,
    Return,
    Other,
}

/// Integer comparison condition codes.
#[derive(Clone, Copy, Debug, PartialEq, Eq, Structural)]
pub enum IntCC {
    Equal,
    NotEqual,
    SignedLessThan,
    SignedLessThanOrEqual,
    SignedGreaterThan,
    SignedGreaterThanOrEqual,
    UnsignedLessThan,
    UnsignedLessThanOrEqual,
    UnsignedGreaterThan,
    UnsignedGreaterThanOrEqual,
}

/// Floating-point comparison condition codes.
#[derive(Clone, Copy, Debug, PartialEq, Eq, Structural)]
pub enum FloatCC {
    Ordered,
    Unordered,
    Equal,
    NotEqual,
    OrderedNotEqual,
    UnorderedOrEqual,
    LessThan,
    LessThanOrEqual,
    GreaterThan,
    GreaterThanOrEqual,
    UnorderedOrLessThan,
    UnorderedOrLessThanOrEqual,
    UnorderedOrGreaterThan,
    UnorderedOrGreaterThanOrEqual,
}

/// One argument of a block call: an SSA value, or anything else (such as a
/// try-call return slot), which the interpreter skips.
#[derive(Clone, Copy, Debug, PartialEq, Eq, Structural)]
pub enum BlockArg {
    Value(u32),
    Other,
}

/// A branch destination: the target block and the arguments passed to its
/// parameters.
#[derive(Clone, Debug)]
pub struct BlockCall {
    pub block: u32,
    pub args: Vec<BlockArg>,
}

/// The operand shapes of the instructions. Value operands are SSA value
/// numbers; immediates are carried as plain integers (float immediates by
/// their bits).
#[derive(Clone, Debug)]
pub enum InstData {
    UnaryImm { imm: i64 },
    UnaryIeee32 { bits: u32 },
    UnaryIeee64 { bits: u64 },
    Binary { a: u32, b: u32 },
    BinaryImm64 { arg: u32, imm: i64 },
    Unary { arg: u32 },
    LoadNoOffset { arg: u32 },
    IntCompare { cond: IntCC, a: u32, b: u32 },
    IntCompareImm { cond: IntCC, arg: u32, imm: i64 },
    FloatCompare { cond: FloatCC, a: u32, b: u32 },
    Ternary { a: u32, b: u32, c: u32 },
    Load { arg: u32, offset: i32 },
    Store { value: u32, addr: u32, offset: i32 },
    Jump { destination: BlockCall },
    Brif { arg: u32, then_dest: BlockCall, else_dest: BlockCall },
    MultiAry { args: Vec<u32> },
    Call { func_ref: u32, args: Vec<u32> },
    Other,
}

/// One instruction: its number (for `instN` in messages), opcode, the
/// opcode's display name, its operands, and its result values.
#[derive(Clone, Debug)]
pub struct Inst {
    pub number: u32,
    pub opcode: OpKind,
    pub opcode_name: String,
    pub data: InstData,
    pub results: Vec<u32>,
}

/// A block: its parameters and its instructions in layout order.
#[derive(Clone, Debug)]
pub struct Block {
    pub params: Vec<u32>,
    pub insts: Vec<Inst>,
}

/// A function as the interpreter sees it. Blocks are indexed by block
/// number, values by value number, callees by function-reference number.
#[derive(Clone, Debug)]
pub struct IrFunction {
    pub entry: Option<u32>,
    pub blocks: Vec<Block>,
    pub value_types: Vec<IrType>,
    pub callee_names: Vec<String>,
    pub other_type_names: Vec<String>,
}

impl BlockCall {
    pub open spec fn wf(&self, f: &IrFunction) -> bool {
        &&& self.block < f.blocks@.len()
        &&& forall|i: int|
            0 <= i < self.args@.len() ==> (#[trigger] self.args@[i] matches BlockArg::Value(v)
                ==> v < f.value_types@.len())
    }
}

impl InstData {
    pub open spec fn wf(&self, f: &IrFunction) -> bool {
        let n = f.value_types@.len();
        match self {
            InstData::Binary { a, b } => a < n && b < n,
            InstData::BinaryImm64 { arg, .. } => arg < n,
            InstData::Unary { arg } => arg < n,
            InstData::LoadNoOffset { arg } => arg < n,
            InstData::IntCompare { a, b, .. } => a < n && b < n,
            InstData::IntCompareImm { arg, .. } => arg < n,
            InstData::FloatCompare { a, b, .. } => a < n && b < n,
            InstData::Ternary { a, b, c } => a < n && b < n && c < n,
            InstData::Load { arg, .. } => arg < n,
            InstData::Store { value, addr, .. } => value < n && addr < n,
            InstData::Jump { destination } => destination.wf(f),
            InstData::Brif { arg, then_dest, else_dest } => arg < n && then_dest.wf(f)
                && else_dest.wf(f),
            InstData::MultiAry { args } => forall|i: int|
                0 <= i < args@.len() ==> #[trigger] args@[i] < n,
            InstData::Call { func_ref, args } => func_ref < f.callee_names@.len() && forall|i: int|
                0 <= i < args@.len() ==> #[trigger] args@[i] < n,
            _ => true,
        }
    }
}

impl Inst {
    pub open spec fn wf(&self, f: &IrFunction) -> bool {
        &&& self.data.wf(f)
        &&& forall|i: int|
            0 <= i < self.results@.len() ==> #[trigger] self.results@[i] < f.value_types@.len()
    }
}

impl IrFunction {
    /// Every number in the function refers to something that exists: the
    /// entry and branch targets to blocks, operands, parameters and results
    /// to typed values, callees to names, and other types to their names.
    pub open spec fn wf(&self) -> bool {
        &&& self.entry matches Some(e) ==> e < self.blocks@.len()
        &&& forall|b: int, i: int|
            0 <= b < self.blocks@.len() && 0 <= i < self.blocks@[b].params@.len()
                ==> #[trigger] self.blocks@[b].params@[i] < self.value_types@.len()
        &&& forall|b: int, i: int|
            0 <= b < self.blocks@.len() && 0 <= i < self.blocks@[b].insts@.len()
                ==> #[trigger] self.blocks@[b].insts@[i].wf(self)
        &&& forall|v: int|
            0 <= v < self.value_types@.len() ==> (#[trigger] self.value_types@[v] matches IrType::Other { name_index, .. }
                ==> name_index < self.other_type_names@.len())
    }
}

/// Whether every number in `vs` is below `n`.
fn all_below(vs: &Vec<u32>, n: usize) -> (r: bool)
    ensures
        r == forall|i: int| 0 <= i < vs@.len() ==> #[trigger] vs@[i] < n,
{
    let mut i: usize = 0;
    while i < vs.len()
        invariant
            i <= vs@.len(),
            forall|j: int| 0 <= j < i ==> #[trigger] vs@[j] < n,
        decreases vs@.len() - i,
    {
        if vs[i] as usize >= n {
            return false;
        }
        i = i + 1;
    }
    true
}

impl BlockCall {
    /// Whether the destination is consistent with `f`.
    pub fn check(&self, f: &IrFunction) -> (r: bool)
        ensures
            r == self.wf(f),
    {
        if self.block as usize >= f.blocks.len() {
            return false;
        }
        let n = f.value_types.len();
        let mut i: usize = 0;
        while i < self.args.len()
            invariant
                i <= self.args@.len(),
                n == f.value_types@.len(),
                forall|j: int|
                    0 <= j < i ==> (#[trigger] self.args@[j] matches BlockArg::Value(v) ==> v < n),
            decreases self.args@.len() - i,
        {
            match self.args[i] {
                BlockArg::Value(v) => {
                    if v as usize >= n {
                        return false;
                    }
                },
                BlockArg::Other => {},
            }
            i = i + 1;
        }
        true
    }
}

impl InstData {
    /// Whether the operands are consistent with `f`.
    pub fn check(&self, f: &IrFunction) -> (r: bool)
        ensures
            r == self.wf(f),
    {
        let n = f.value_types.len();
        match self {
            InstData::Binary { a, b } => (*a as usize) < n && (*b as usize) < n,
            InstData::BinaryImm64 { arg, .. } => (*arg as usize) < n,
            InstData::Unary { arg } => (*arg as usize) < n,
            InstData::LoadNoOffset { arg } => (*arg as usize) < n,
            InstData::IntCompare { a, b, .. } => (*a as usize) < n && (*b as usize) < n,
            InstData::IntCompareImm { arg, .. } => (*arg as usize) < n,
            InstData::FloatCompare { a, b, .. } => (*a as usize) < n && (*b as usize) < n,
            InstData::Ternary { a, b, c } => (*a as usize) < n && (*b as usize) < n && (*c as usize)
                < n,
            InstData::Load { arg, .. } => (*arg as usize) < n,
            InstData::Store { value, addr, .. } => (*value as usize) < n && (*addr as usize) < n,
            InstData::Jump { destination } => destination.check(f),
            InstData::Brif { arg, then_dest, else_dest } => (*arg as usize) < n && then_dest.check(f)
                && else_dest.check(f),
            InstData::MultiAry { args } => all_below(args, n),
            InstData::Call { func_ref, args } => (*func_ref as usize) < f.callee_names.len()
                && all_below(args, n),
            _ => true,
        }
    }
}

impl Inst {
    /// Whether the instruction is consistent with `f`.
    pub fn check(&self, f: &IrFunction) -> (r: bool)
        ensures
            r == self.wf(f),
    {
        self.data.check(f) && all_below(&self.results, f.value_types.len())
    }
}

impl IrFunction {
    /// Whether every number in the function refers to something that
    /// exists (see [`IrFunction::wf`]).
    pub fn is_wf(&self) -> (r: bool)
        ensures
            r == self.wf(),
    {
        match self.entry {
            Some(e) => {
                if e as usize >= self.blocks.len() {
                    return false;
                }
            },
            None => {},
        }
        let nv = self.value_types.len();
        let mut b: usize = 0;
        while b < self.blocks.len()
            invariant
                b <= self.blocks@.len(),
                nv == self.value_types@.len(),
                forall|bb: int, i: int|
                    0 <= bb < b && 0 <= i < self.blocks@[bb].params@.len()
                        ==> #[trigger] self.blocks@[bb].params@[i] < nv,
                forall|bb: int, i: int|
                    0 <= bb < b && 0 <= i < self.blocks@[bb].insts@.len()
                        ==> #[trigger] self.blocks@[bb].insts@[i].wf(self),
            decreases self.blocks@.len() - b,
        {
            if !all_below(&self.blocks[b].params, nv) {
                return false;
            }
            let mut i: usize = 0;
            while i < self.blocks[b].insts.len()
                invariant
                    b < self.blocks@.len(),
                    i <= self.blocks@[b as int].insts@.len(),
                    forall|j: int| 0 <= j < i ==> #[trigger] self.blocks@[b as int].insts@[j].wf(self),
                decreases self.blocks@[b as int].insts@.len() - i,
            {
                if !self.blocks[b].insts[i].check(self) {
                    return false;
                }
                i = i + 1;
            }
            b = b + 1;
        }
        let nn = self.other_type_names.len();
        let mut v: usize = 0;
        while v < nv
            invariant
                v <= nv,
                nv == self.value_types@.len(),
                nn == self.other_type_names@.len(),
                forall|w: int|
                    0 <= w < v ==> (#[trigger] self.value_types@[w] matches IrType::Other { name_index, .. }
                        ==> name_index < nn),
            decreases nv - v,
        {
            match self.value_types[v] {
                IrType::Other { name_index, .. } => {
                    if name_index as usize >= nn {
                        return false;
                    }
                },
                _ => {},
            }
            v = v + 1;
        }
        true
    }
}

} // verus!
