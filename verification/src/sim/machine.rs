//! The interpreter's state and its step semantics.
//!
//! A run starts at the entry block with its parameters bound to the
//! arguments, then executes one instruction per step until a `return`, a
//! fault, the step budget, or a float operation that must be computed by
//! the caller (the run is then suspended until the result is supplied).

use vstd::prelude::*;

use crate::sim::arith::{
    int_of_type_exec, apply_binary, apply_binary_imm, apply_unary, imm_like, int_compare, int_of_type,
    spec_apply_binary, spec_apply_binary_imm, spec_apply_unary, spec_int_compare, BinOutcome,
    FloatRequest, FloatWidth,
};
use crate::sim::error::{res_view, ty_named, ty_text, with_ty_text, SimError, SimErrorV};
use crate::sim::float::{float_compare, spec_float_compare};
use crate::sim::ir::{BlockArg, BlockCall, FloatCC, Inst, InstData, IntCC, IrFunction, OpKind};
use crate::sim::memory::{load_from, spec_load, spec_store, store_to};
use crate::sim::trace::{
    brif_line, call_line, call_results_text, halt_line, jump_line, make_brif_line,
    make_call_line, make_halt_line, make_jump_line, make_produce_line, make_return_line,
    produce_line, return_line, Line, PieceV,
};
use crate::sim::value::{IrType, SimValue};
use crate::sim::simulator::{result_view, Registers, SimResult};

verus! {

/// The mathematical state of a run.
pub struct MachineState {
    pub memory: Seq<u8>,
    pub regs: Seq<Option<SimValue>>,
    pub trace: Seq<Seq<PieceV>>,
    pub record_trace: bool,
    pub max_steps: usize,
    pub steps: usize,
    pub block: u32,
    pub pos: usize,
    pub returns: Seq<SimValue>,
    pub error: Option<SimErrorV>,
    pub pending: Option<FloatRequest>,
    pub finished: bool,
}

/// The state of a run in progress.
pub struct Machine {
    memory: Vec<u8>,
    regs: Vec<Option<SimValue>>,
    trace: Vec<Line>,
    record_trace: bool,
    max_steps: usize,
    steps: usize,
    block: u32,
    pos: usize,
    returns: Vec<SimValue>,
    error: Option<SimError>,
    pending: Option<FloatRequest>,
    finished: bool,
}

pub open spec fn trace_view(t: Seq<Line>) -> Seq<Seq<PieceV>> {
    t.map_values(|l: Line| l@)
}

pub open spec fn opt_err_view(e: Option<SimError>) -> Option<SimErrorV> {
    match e {
        Some(x) => Some(x@),
        None => None,
    }
}

impl View for Machine {
    type V = MachineState;

    closed spec fn view(&self) -> MachineState {
        MachineState {
            memory: self.memory@,
            regs: self.regs@,
            trace: trace_view(self.trace@),
            record_trace: self.record_trace,
            max_steps: self.max_steps,
            steps: self.steps,
            block: self.block,
            pos: self.pos,
            returns: self.returns@,
            error: opt_err_view(self.error),
            pending: self.pending,
            finished: self.finished,
        }
    }
}

/// A run may take another step.
pub open spec fn running(st: MachineState) -> bool {
    !st.finished && st.pending is None
}

/// The state is consistent with the function.
pub open spec fn state_wf(f: &IrFunction, st: MachineState) -> bool {
    &&& f.wf()
    &&& st.regs.len() == f.value_types@.len()
    &&& st.steps <= st.max_steps
    &&& !st.finished ==> st.block < f.blocks@.len() && st.pos <= f.blocks@[st.block as int].insts@.len()
    &&& st.pending is Some ==> !st.finished && st.pos < f.blocks@[st.block as int].insts@.len()
}

/// The value bound to `v`, if any.
pub open spec fn lookup(regs: Seq<Option<SimValue>>, v: u32) -> Option<SimValue> {
    if v < regs.len() {
        regs[v as int]
    } else {
        None
    }
}

/// Appends a trace line when tracing.
pub open spec fn log(st: MachineState, line: Seq<PieceV>) -> MachineState {
    if st.record_trace {
        MachineState { trace: st.trace.push(line), ..st }
    } else {
        st
    }
}

/// Halts the run with an error, logging the halt when tracing.
pub open spec fn fail(st: MachineState, inst_no: u32, e: SimErrorV) -> MachineState {
    let s = log(st, halt_line(e, inst_no));
    MachineState { error: Some(e), finished: true, ..s }
}

/// Binds the first `k` pairs of `slots` and `vals`, in order.
pub open spec fn bind_n(regs: Seq<Option<SimValue>>, slots: Seq<u32>, vals: Seq<SimValue>, k: nat) -> Seq<
    Option<SimValue>,
>
    decreases k,
{
    if k == 0 {
        regs
    } else {
        bind_n(regs, slots, vals, (k - 1) as nat).update(
            slots[k - 1] as int,
            Some(vals[k - 1]),
        )
    }
}

/// Binds `slots[i]` to `vals[i]` for every `i` both have.
pub open spec fn bind(regs: Seq<Option<SimValue>>, slots: Seq<u32>, vals: Seq<SimValue>) -> Seq<
    Option<SimValue>,
> {
    bind_n(regs, slots, vals, if slots.len() < vals.len() {
        slots.len()
    } else {
        vals.len()
    })
}

/// The values of `vs` in order, or the first one that is unbound.
pub open spec fn read_all(regs: Seq<Option<SimValue>>, vs: Seq<u32>) -> Result<Seq<SimValue>, u32>
    decreases vs.len(),
{
    if vs.len() == 0 {
        Ok(seq![])
    } else {
        match read_all(regs, vs.drop_last()) {
            Err(v) => Err(v),
            Ok(xs) => match lookup(regs, vs.last()) {
                Some(x) => Ok(xs.push(x)),
                None => Err(vs.last()),
            },
        }
    }
}

/// The SSA values among a block call's arguments, in order.
pub open spec fn block_arg_values(args: Seq<BlockArg>) -> Seq<u32>
    decreases args.len(),
{
    if args.len() == 0 {
        seq![]
    } else {
        let rest = block_arg_values(args.drop_last());
        match args.last() {
            BlockArg::Value(v) => rest.push(v),
            BlockArg::Other => rest,
        }
    }
}

/// Logs the produce line and binds the instruction's results to `vals`,
/// then moves to the next instruction.
pub open spec fn produce(st: MachineState, inst: Inst, vals: Seq<SimValue>) -> MachineState {
    let s = log(st, produce_line(inst.results@, inst.opcode_name@, vals));
    MachineState { regs: bind(s.regs, inst.results@, vals), pos: (s.pos + 1) as usize, ..s }
}

/// Continues with a value or halts with an error.
pub open spec fn with_value(st: MachineState, inst: Inst, r: Result<SimValue, SimErrorV>) -> MachineState {
    match r {
        Ok(v) => produce(st, inst, seq![v]),
        Err(e) => fail(st, inst.number, e),
    }
}

/// Continues with a value, suspends on a float request, or halts.
pub open spec fn with_outcome(st: MachineState, inst: Inst, r: Result<BinOutcome, SimErrorV>) -> MachineState {
    match r {
        Ok(BinOutcome::Value(v)) => produce(st, inst, seq![v]),
        Ok(BinOutcome::Float(req)) => MachineState { pending: Some(req), ..st },
        Err(e) => fail(st, inst.number, e),
    }
}

/// The type of an instruction's first result, if it has one.
pub open spec fn result_ty0(f: &IrFunction, inst: Inst) -> Option<IrType> {
    if inst.results@.len() > 0 {
        Some(f.value_types@[inst.results@[0] as int])
    } else {
        None
    }
}

/// Moves to the start of `target`, binding its parameters to `params`.
pub open spec fn jump_to(f: &IrFunction, st: MachineState, target: u32, params: Seq<SimValue>) -> MachineState {
    MachineState {
        regs: bind(st.regs, f.blocks@[target as int].params@, params),
        block: target,
        pos: 0,
        ..st
    }
}

/// Binds zeros to the first `k` call results; stops at the first result
/// whose type has no zero and reports that type.
pub open spec fn call_fill(f: &IrFunction, regs: Seq<Option<SimValue>>, results: Seq<u32>, k: nat) -> (
    Seq<Option<SimValue>>,
    Option<IrType>,
)
    decreases k,
{
    if k == 0 {
        (regs, None)
    } else {
        let (r, bad) = call_fill(f, regs, results, (k - 1) as nat);
        if bad is Some {
            (r, bad)
        } else {
            let ty = f.value_types@[results[k - 1] as int];
            match SimValue::spec_zero_of(ty) {
                Some(z) => (r.update(results[k - 1] as int, Some(z)), None),
                None => (r, Some(ty)),
            }
        }
    }
}

/// `iconst`: the immediate truncated to the result type (`i64` when there
/// is no result); a non-integer result type is a `TypeMismatch`.
pub open spec fn exec_iconst(f: &IrFunction, st: MachineState, inst: Inst, imm: i64) -> MachineState {
    let ty = match result_ty0(f, inst) {
        Some(t) => t,
        None => IrType::I64,
    };
    match int_of_type(ty, imm) {
        Some(v) => produce(st, inst, seq![v]),
        None => fail(st, inst.number, SimErrorV::TypeMismatch("iconst type "@ + ty_text(f, ty))),
    }
}

/// A two-operand arithmetic instruction.
pub open spec fn exec_binary(st: MachineState, inst: Inst, a: u32, b: u32) -> MachineState {
    match lookup(st.regs, a) {
        None => fail(st, inst.number, SimErrorV::UndefinedValue(a)),
        Some(x) => match lookup(st.regs, b) {
            None => fail(st, inst.number, SimErrorV::UndefinedValue(b)),
            Some(y) => with_outcome(st, inst, spec_apply_binary(inst.opcode, inst.opcode_name@, x, y)),
        },
    }
}

/// An arithmetic instruction with an immediate.
pub open spec fn exec_binary_imm(st: MachineState, inst: Inst, arg: u32, imm: i64) -> MachineState {
    match lookup(st.regs, arg) {
        None => fail(st, inst.number, SimErrorV::UndefinedValue(arg)),
        Some(x) => with_outcome(st, inst, spec_apply_binary_imm(inst.opcode, inst.opcode_name@, x, imm)),
    }
}

/// A unary instruction or cast; the target type is the result's type, or
/// the operand's type when there is no result.
pub open spec fn exec_unary(f: &IrFunction, st: MachineState, inst: Inst, arg: u32) -> MachineState {
    match lookup(st.regs, arg) {
        None => fail(st, inst.number, SimErrorV::UndefinedValue(arg)),
        Some(x) => {
            let ty = match result_ty0(f, inst) {
                Some(t) => t,
                None => x.spec_ty(),
            };
            with_value(st, inst, spec_apply_unary(inst.opcode, inst.opcode_name@, x, ty, ty_text(f, ty)))
        },
    }
}

/// The `I8` truth value of a condition.
pub open spec fn flag(b: bool) -> SimValue {
    SimValue::I8(if b { 1 } else { 0 })
}

/// `icmp`: `I8` 1 or 0.
pub open spec fn exec_int_test(st: MachineState, inst: Inst, cond: crate::sim::ir::IntCC, a: u32, b: u32) -> MachineState {
    match lookup(st.regs, a) {
        None => fail(st, inst.number, SimErrorV::UndefinedValue(a)),
        Some(x) => match lookup(st.regs, b) {
            None => fail(st, inst.number, SimErrorV::UndefinedValue(b)),
            Some(y) => produce(st, inst, seq![flag(spec_int_compare(cond, x, y))]),
        },
    }
}

/// `icmp_imm`: the immediate is taken at the operand's width; a float
/// operand is a `TypeMismatch`.
pub open spec fn exec_int_test_imm(st: MachineState, inst: Inst, cond: crate::sim::ir::IntCC, arg: u32, imm: i64) -> MachineState {
    match lookup(st.regs, arg) {
        None => fail(st, inst.number, SimErrorV::UndefinedValue(arg)),
        Some(x) => if !x.is_int() {
            fail(st, inst.number, SimErrorV::TypeMismatch("icmp_imm on float operand"@))
        } else {
            produce(st, inst, seq![flag(spec_int_compare(cond, x, imm_like(x, imm)))])
        },
    }
}

/// `fcmp`: `I8` 1 or 0.
pub open spec fn exec_float_test(st: MachineState, inst: Inst, cond: crate::sim::ir::FloatCC, a: u32, b: u32) -> MachineState {
    match lookup(st.regs, a) {
        None => fail(st, inst.number, SimErrorV::UndefinedValue(a)),
        Some(x) => match lookup(st.regs, b) {
            None => fail(st, inst.number, SimErrorV::UndefinedValue(b)),
            Some(y) => produce(st, inst, seq![flag(spec_float_compare(cond, x, y))]),
        },
    }
}

/// `select`: the second operand when the first is non-zero, else the
/// third.
pub open spec fn exec_select(st: MachineState, inst: Inst, a: u32, b: u32, c: u32) -> MachineState {
    match lookup(st.regs, a) {
        None => fail(st, inst.number, SimErrorV::UndefinedValue(a)),
        Some(cv) => match lookup(st.regs, b) {
            None => fail(st, inst.number, SimErrorV::UndefinedValue(b)),
            Some(x) => match lookup(st.regs, c) {
                None => fail(st, inst.number, SimErrorV::UndefinedValue(c)),
                Some(y) => produce(st, inst, seq![if cv.spec_as_i64() != 0 { x } else { y }]),
            },
        },
    }
}

/// The byte address of a memory access: the base's `as_u64` plus the
/// sign-extended offset, wrapping.
pub open spec fn effective_addr(base: SimValue, offset: i32) -> usize {
    vstd::wrapping::u64_specs::wrapping_add(base.spec_as_u64(), offset as i64 as u64) as usize
}

/// `load`: of the result's type (`i64` when there is no result).
pub open spec fn exec_load(f: &IrFunction, st: MachineState, inst: Inst, arg: u32, offset: i32) -> MachineState {
    match lookup(st.regs, arg) {
        None => fail(st, inst.number, SimErrorV::UndefinedValue(arg)),
        Some(x) => {
            let ty = match result_ty0(f, inst) {
                Some(t) => t,
                None => IrType::I64,
            };
            with_value(st, inst, spec_load(st.memory, effective_addr(x, offset), ty, ty_text(f, ty)))
        },
    }
}

/// `store`: writes the first operand at the address of the second.
pub open spec fn exec_store(st: MachineState, inst: Inst, value: u32, addr: u32, offset: i32) -> MachineState {
    match lookup(st.regs, value) {
        None => fail(st, inst.number, SimErrorV::UndefinedValue(value)),
        Some(v) => match lookup(st.regs, addr) {
            None => fail(st, inst.number, SimErrorV::UndefinedValue(addr)),
            Some(p) => match spec_store(st.memory, effective_addr(p, offset), v) {
                Ok(m) => produce(MachineState { memory: m, ..st }, inst, seq![]),
                Err(e) => fail(st, inst.number, e),
            },
        },
    }
}

/// `jump`: logs the jump and moves to the target with its arguments.
pub open spec fn exec_jump(f: &IrFunction, st: MachineState, inst: Inst, dest: BlockCall) -> MachineState {
    match read_all(st.regs, block_arg_values(dest.args@)) {
        Err(v) => fail(st, inst.number, SimErrorV::UndefinedValue(v)),
        Ok(params) => jump_to(f, log(st, jump_line(dest.block)), dest.block, params),
    }
}

/// `brif`: the first destination when the condition is non-zero, else the
/// second.
pub open spec fn exec_brif(
    f: &IrFunction,
    st: MachineState,
    inst: Inst,
    arg: u32,
    then_dest: BlockCall,
    else_dest: BlockCall,
) -> MachineState {
    match lookup(st.regs, arg) {
        None => fail(st, inst.number, SimErrorV::UndefinedValue(arg)),
        Some(x) => {
            let cond = x.spec_as_i64() != 0;
            let chosen = if cond {
                then_dest
            } else {
                else_dest
            };
            match read_all(st.regs, block_arg_values(chosen.args@)) {
                Err(v) => fail(st, inst.number, SimErrorV::UndefinedValue(v)),
                Ok(params) => jump_to(f, log(st, brif_line(cond, chosen.block)), chosen.block, params),
            }
        },
    }
}

/// `return`: logs the values and finishes with them.
pub open spec fn exec_return(st: MachineState, inst: Inst, args: Seq<u32>) -> MachineState {
    match read_all(st.regs, args) {
        Err(v) => fail(st, inst.number, SimErrorV::UndefinedValue(v)),
        Ok(vals) => {
            let s = log(st, return_line(vals));
            MachineState { returns: vals, finished: true, ..s }
        },
    }
}

/// `call` (stubbed): logs the call, then binds a zero of each result's
/// type; a result type without a zero is a `TypeMismatch`.
pub open spec fn exec_call(f: &IrFunction, st: MachineState, inst: Inst, func_ref: u32, args: Seq<u32>) -> MachineState {
    match read_all(st.regs, args) {
        Err(v) => fail(st, inst.number, SimErrorV::UndefinedValue(v)),
        Ok(vals) => {
            let s = log(
                st,
                call_line(
                    f.callee_names@[func_ref as int]@,
                    vals,
                    st.memory,
                    call_results_text(f, inst.results@),
                ),
            );
            let (regs2, bad) = call_fill(f, s.regs, inst.results@, inst.results@.len());
            match bad {
                Some(ty) => fail(
                    MachineState { regs: regs2, ..s },
                    inst.number,
                    SimErrorV::TypeMismatch("call result type "@ + ty_text(f, ty) + " not supported"@),
                ),
                None => MachineState { regs: regs2, pos: (s.pos + 1) as usize, ..s },
            }
        },
    }
}

/// One instruction, with the step already counted. An instruction whose
/// opcode does not go with its operand shape, or that the interpreter does
/// not cover, halts with `UnsupportedOpcode`.
#[verifier::opaque]
pub open spec fn exec_inst(f: &IrFunction, st: MachineState, inst: Inst) -> MachineState {
    let op = inst.opcode;
    let unsupported = fail(st, inst.number, SimErrorV::UnsupportedOpcode(inst.opcode_name@));
    match inst.data {
        InstData::UnaryImm { imm } => if op == OpKind::Iconst {
            exec_iconst(f, st, inst, imm)
        } else {
            unsupported
        },
        InstData::UnaryIeee32 { bits } => if op == OpKind::F32const {
            produce(st, inst, seq![SimValue::F32(bits)])
        } else {
            unsupported
        },
        InstData::UnaryIeee64 { bits } => if op == OpKind::F64const {
            produce(st, inst, seq![SimValue::F64(bits)])
        } else {
            unsupported
        },
        InstData::Binary { a, b } => exec_binary(st, inst, a, b),
        InstData::BinaryImm64 { arg, imm } => exec_binary_imm(st, inst, arg, imm),
        InstData::Unary { arg } => exec_unary(f, st, inst, arg),
        InstData::LoadNoOffset { arg } => if op == OpKind::Bitcast {
            exec_unary(f, st, inst, arg)
        } else {
            unsupported
        },
        InstData::IntCompare { cond, a, b } => exec_int_test(st, inst, cond, a, b),
        InstData::IntCompareImm { cond, arg, imm } => exec_int_test_imm(st, inst, cond, arg, imm),
        InstData::FloatCompare { cond, a, b } => exec_float_test(st, inst, cond, a, b),
        InstData::Ternary { a, b, c } => if op == OpKind::Select {
            exec_select(st, inst, a, b, c)
        } else {
            unsupported
        },
        InstData::Load { arg, offset } => exec_load(f, st, inst, arg, offset),
        InstData::Store { value, addr, offset } => exec_store(st, inst, value, addr, offset),
        InstData::Jump { destination } => exec_jump(f, st, inst, destination),
        InstData::Brif { arg, then_dest, else_dest } => exec_brif(f, st, inst, arg, then_dest, else_dest),
        InstData::MultiAry { args } => if op == OpKind::Return {
            exec_return(st, inst, args@)
        } else {
            unsupported
        },
        InstData::Call { func_ref, args } => exec_call(f, st, inst, func_ref, args@),
        InstData::Other => unsupported,
    }
}

/// One step of a running state: halt when the block has no more
/// instructions or the step budget is spent, otherwise count the step and
/// execute the current instruction.
#[verifier::opaque]
pub open spec fn spec_step(f: &IrFunction, st: MachineState) -> MachineState {
    let insts = f.blocks@[st.block as int].insts@;
    if st.pos >= insts.len() {
        MachineState {
            error: Some(SimErrorV::UnsupportedOpcode("(block has no terminator)"@)),
            finished: true,
            ..st
        }
    } else if st.steps >= st.max_steps {
        fail(
            st,
            insts[st.pos as int].number,
            SimErrorV::StepLimitExceeded { limit: st.max_steps },
        )
    } else {
        exec_inst(f, MachineState { steps: (st.steps + 1) as usize, ..st }, insts[st.pos as int])
    }
}

/// Steps until the run finishes or suspends.
pub open spec fn spec_advance(f: &IrFunction, st: MachineState) -> MachineState
    decreases st.max_steps - st.steps,
{
    if !running(st) {
        st
    } else {
        let s2 = spec_step(f, st);
        if running(s2) && s2.steps > st.steps && s2.steps <= st.max_steps && s2.max_steps
            == st.max_steps {
            spec_advance(f, s2)
        } else {
            s2
        }
    }
}

/// The initial state of a run: no entry block halts at once; otherwise the
/// entry block's parameters are bound to the arguments.
pub open spec fn spec_start(
    f: &IrFunction,
    args: Seq<SimValue>,
    mem: Seq<u8>,
    record: bool,
    max_steps: usize,
) -> MachineState {
    let regs0 = Seq::new(f.value_types@.len(), |i: int| None::<SimValue>);
    match f.entry {
        None => MachineState {
            memory: mem,
            regs: regs0,
            trace: seq![],
            record_trace: record,
            max_steps,
            steps: 0,
            block: 0,
            pos: 0,
            returns: seq![],
            error: Some(SimErrorV::UnsupportedOpcode("(no entry block)"@)),
            pending: None,
            finished: true,
        },
        Some(e) => MachineState {
            memory: mem,
            regs: bind(regs0, f.blocks@[e as int].params@, args),
            trace: seq![],
            record_trace: record,
            max_steps,
            steps: 0,
            block: e,
            pos: 0,
            returns: seq![],
            error: None,
            pending: None,
            finished: false,
        },
    }
}

/// A running state positioned at an instruction of its block.
pub open spec fn ready(f: &IrFunction, st: MachineState) -> bool {
    &&& state_wf(f, st)
    &&& running(st)
    &&& st.pos < f.blocks@[st.block as int].insts@.len()
}

/// What executing one instruction keeps: consistency and the step count.
pub open spec fn kept(f: &IrFunction, before: MachineState, after: MachineState) -> bool {
    &&& state_wf(f, after)
    &&& after.steps == before.steps
    &&& after.max_steps == before.max_steps
}

/// The instruction a state is at.
pub open spec fn current_inst(f: &IrFunction, st: MachineState) -> Inst {
    f.blocks@[st.block as int].insts@[st.pos as int]
}

/// The value a float result denotes at the requested width (the low 32
/// bits for `F32`).
pub open spec fn float_value(req: FloatRequest, bits: u64) -> SimValue {
    match req.width {
        FloatWidth::F32 => SimValue::F32(bits as u32),
        FloatWidth::F64 => SimValue::F64(bits),
    }
}

/// Completes the suspended float instruction with its computed result.
pub open spec fn spec_resume(f: &IrFunction, st: MachineState, bits: u64) -> MachineState {
    produce(
        MachineState { pending: None, ..st },
        current_inst(f, st),
        seq![float_value(st.pending->0, bits)],
    )
}


// ---------- lemmas ----------

pub proof fn lemma_trace_view_push(t: Seq<Line>, l: Line)
    ensures
        trace_view(t.push(l)) == trace_view(t).push(l@),
{
    assert(trace_view(t.push(l)) =~= trace_view(t).push(l@));
}

pub proof fn lemma_bind_n_len(regs: Seq<Option<SimValue>>, slots: Seq<u32>, vals: Seq<SimValue>, k: nat)
    requires
        k <= slots.len(),
        k <= vals.len(),
        forall|i: int| 0 <= i < slots.len() ==> #[trigger] slots[i] < regs.len(),
    ensures
        bind_n(regs, slots, vals, k).len() == regs.len(),
    decreases k,
{
    if k > 0 {
        lemma_bind_n_len(regs, slots, vals, (k - 1) as nat);
    }
}

pub proof fn lemma_read_all_prefix_err(regs: Seq<Option<SimValue>>, s: Seq<u32>, k: int)
    requires
        0 <= k <= s.len(),
        read_all(regs, s.take(k)) is Err,
    ensures
        read_all(regs, s) == read_all(regs, s.take(k)),
    decreases s.len() - k,
{
    if k < s.len() {
        let t = s.take(k + 1);
        assert(t.drop_last() =~= s.take(k));
        lemma_read_all_prefix_err(regs, s, k + 1);
    } else {
        assert(s.take(k) =~= s);
    }
}

pub proof fn lemma_call_fill_stuck(
    f: &IrFunction,
    regs: Seq<Option<SimValue>>,
    results: Seq<u32>,
    k1: nat,
    k2: nat,
)
    requires
        k1 <= k2,
        call_fill(f, regs, results, k1).1 is Some,
    ensures
        call_fill(f, regs, results, k2) == call_fill(f, regs, results, k1),
    decreases k2 - k1,
{
    if k1 < k2 {
        lemma_call_fill_stuck(f, regs, results, k1, (k2 - 1) as nat);
    }
}

pub proof fn lemma_call_fill_len(f: &IrFunction, regs: Seq<Option<SimValue>>, results: Seq<u32>, k: nat)
    requires
        k <= results.len(),
        forall|i: int| 0 <= i < results.len() ==> #[trigger] results[i] < regs.len(),
    ensures
        call_fill(f, regs, results, k).0.len() == regs.len(),
    decreases k,
{
    if k > 0 {
        lemma_call_fill_len(f, regs, results, (k - 1) as nat);
    }
}

// ---------- exec helpers ----------

/// Binds `slots[i]` to `vals[i]` for every `i` both have.
fn bind_into(regs: &mut Vec<Option<SimValue>>, slots: &Vec<u32>, vals: &Vec<SimValue>)
    requires
        forall|i: int| 0 <= i < slots@.len() ==> #[trigger] slots@[i] < old(regs)@.len(),
    ensures
        final(regs)@ == bind(old(regs)@, slots@, vals@),
        final(regs)@.len() == old(regs)@.len(),
{
    let k = if slots.len() < vals.len() {
        slots.len()
    } else {
        vals.len()
    };
    let mut i: usize = 0;
    while i < k
        invariant
            k <= slots@.len(),
            k <= vals@.len(),
            k == (if slots@.len() < vals@.len() {
                slots@.len()
            } else {
                vals@.len()
            }),
            i <= k,
            forall|j: int| 0 <= j < slots@.len() ==> #[trigger] slots@[j] < old(regs)@.len(),
            regs@ == bind_n(old(regs)@, slots@, vals@, i as nat),
            regs@.len() == old(regs)@.len(),
        decreases k - i,
    {
        let slot = slots[i];
        regs.set(slot as usize, Some(vals[i]));
        i = i + 1;
    }
}

/// The SSA values among block-call arguments.
fn block_values(args: &Vec<BlockArg>) -> (r: Vec<u32>)
    ensures
        r@ == block_arg_values(args@),
{
    let mut out: Vec<u32> = Vec::new();
    let mut i: usize = 0;
    while i < args.len()
        invariant
            i <= args@.len(),
            out@ == block_arg_values(args@.take(i as int)),
        decreases args@.len() - i,
    {
        assert(args@.take(i + 1).drop_last() =~= args@.take(i as int));
        match args[i] {
            BlockArg::Value(v) => out.push(v),
            BlockArg::Other => {},
        }
        i = i + 1;
    }
    assert(args@.take(args@.len() as int) =~= args@);
    out
}

/// Zero-fills call results; the first result type without a zero stops
/// the fill and is returned.
fn fill_call_results(regs: &mut Vec<Option<SimValue>>, f: &IrFunction, results: &Vec<u32>) -> (bad:
    Option<IrType>)
    requires
        f.wf(),
        old(regs)@.len() == f.value_types@.len(),
        forall|i: int| 0 <= i < results@.len() ==> #[trigger] results@[i] < f.value_types@.len(),
    ensures
        (final(regs)@, bad) == call_fill(f, old(regs)@, results@, results@.len()),
        bad matches Some(t) ==> ty_named(f, t),
{
    let n = results.len();
    let mut i: usize = 0;
    while i < n
        invariant
            n == results@.len(),
            i <= n,
            f.wf(),
            regs@.len() == f.value_types@.len(),
            forall|j: int| 0 <= j < results@.len() ==> #[trigger] results@[j] < f.value_types@.len(),
            (regs@, None::<IrType>) == call_fill(f, old(regs)@, results@, i as nat),
        decreases n - i,
    {
        let v = results[i];
        let ty = f.value_types[v as usize];
        assert(f.value_types@[v as int] == ty);
        match SimValue::zero_of(ty) {
            Some(z) => {
                regs.set(v as usize, Some(z));
            },
            None => {
                proof {
                    lemma_call_fill_stuck(f, old(regs)@, results@, (i + 1) as nat, n as nat);
                }
                return Some(ty);
            },
        }
        i = i + 1;
    }
    None
}

impl Machine {
    /// The run is consistent with `f`.
    pub open spec fn wf(&self, f: &IrFunction) -> bool {
        state_wf(f, self@)
    }

    fn lookup_reg(&self, v: u32) -> (r: Option<SimValue>)
        ensures
            r == lookup(self@.regs, v),
    {
        if (v as usize) < self.regs.len() {
            self.regs[v as usize]
        } else {
            None
        }
    }

    fn read_values(&self, vs: &Vec<u32>) -> (r: Result<Vec<SimValue>, u32>)
        ensures
            match read_all(self@.regs, vs@) {
                Ok(xs) => r matches Ok(out) && out@ == xs,
                Err(v) => r == Err::<Vec<SimValue>, u32>(v),
            },
    {
        let mut out: Vec<SimValue> = Vec::new();
        let mut i: usize = 0;
        while i < vs.len()
            invariant
                i <= vs@.len(),
                read_all(self@.regs, vs@.take(i as int)) == Ok::<Seq<SimValue>, u32>(out@),
            decreases vs@.len() - i,
        {
            assert(vs@.take(i + 1).drop_last() =~= vs@.take(i as int));
            match self.lookup_reg(vs[i]) {
                Some(x) => out.push(x),
                None => {
                    proof {
                        lemma_read_all_prefix_err(self@.regs, vs@, i + 1);
                    }
                    return Err(vs[i]);
                },
            }
            i = i + 1;
        }
        assert(vs@.take(vs@.len() as int) =~= vs@);
        Ok(out)
    }

    fn log(&mut self, line: Line)
        ensures
            final(self)@ == log(old(self)@, line@),
    {
        if self.record_trace {
            proof {
                lemma_trace_view_push(self.trace@, line);
            }
            self.trace.push(line);
        }
    }

    fn fail(&mut self, n: u32, e: SimError)
        ensures
            final(self)@ == fail(old(self)@, n, e@),
    {
        if self.record_trace {
            let line = make_halt_line(&e, n);
            self.log(line);
        }
        self.error = Some(e);
        self.finished = true;
    }

    fn produce(&mut self, f: &IrFunction, inst: &Inst, vals: Vec<SimValue>)
        requires
            ready(f, old(self)@),
            inst.wf(f),
        ensures
            final(self)@ == produce(old(self)@, *inst, vals@),
            kept(f, old(self)@, final(self)@),
    {
        if self.record_trace {
            let line = make_produce_line(&inst.results, &inst.opcode_name, &vals);
            self.log(line);
        }
        bind_into(&mut self.regs, &inst.results, &vals);
        let n = f.blocks[self.block as usize].insts.len();
        assert(self.pos < n);
        self.pos = self.pos + 1;
    }

    fn take_value(&mut self, f: &IrFunction, inst: &Inst, r: Result<SimValue, SimError>)
        requires
            ready(f, old(self)@),
            inst.wf(f),
        ensures
            final(self)@ == with_value(old(self)@, *inst, res_view(r)),
            kept(f, old(self)@, final(self)@),
    {
        match r {
            Ok(v) => self.produce(f, inst, one(v)),
            Err(e) => self.fail(inst.number, e),
        }
    }

    fn take_outcome(&mut self, f: &IrFunction, inst: &Inst, r: Result<BinOutcome, SimError>)
        requires
            ready(f, old(self)@),
            inst.wf(f),
        ensures
            final(self)@ == with_outcome(old(self)@, *inst, res_view(r)),
            kept(f, old(self)@, final(self)@),
    {
        match r {
            Ok(BinOutcome::Value(v)) => self.produce(f, inst, one(v)),
            Ok(BinOutcome::Float(req)) => {
                self.pending = Some(req);
            },
            Err(e) => self.fail(inst.number, e),
        }
    }

    fn undefined(&mut self, inst: &Inst, v: u32)
        ensures
            final(self)@ == fail(old(self)@, inst.number, SimErrorV::UndefinedValue(v)),
    {
        self.fail(inst.number, SimError::UndefinedValue(v));
    }

    fn run_iconst(&mut self, f: &IrFunction, inst: &Inst, imm: i64)
        requires
            ready(f, old(self)@),
            inst.wf(f),
        ensures
            final(self)@ == exec_iconst(f, old(self)@, *inst, imm),
            kept(f, old(self)@, final(self)@),
    {
        let ty = match first_result_ty(f, inst) {
            Some(t) => t,
            None => IrType::I64,
        };
        match int_of_type_exec(ty, imm) {
            Some(v) => self.produce(f, inst, one(v)),
            None => self.fail(inst.number, SimError::TypeMismatch(with_ty_text("iconst type ", f, ty))),
        }
    }

    fn run_binary(&mut self, f: &IrFunction, inst: &Inst, a: u32, b: u32)
        requires
            ready(f, old(self)@),
            inst.wf(f),
        ensures
            final(self)@ == exec_binary(old(self)@, *inst, a, b),
            kept(f, old(self)@, final(self)@),
    {
        match self.lookup_reg(a) {
            None => self.undefined(inst, a),
            Some(x) => match self.lookup_reg(b) {
                None => self.undefined(inst, b),
                Some(y) => {
                    let r = apply_binary(inst.opcode, &inst.opcode_name, x, y);
                    self.take_outcome(f, inst, r);
                },
            },
        }
    }

    fn run_binary_imm(&mut self, f: &IrFunction, inst: &Inst, arg: u32, imm: i64)
        requires
            ready(f, old(self)@),
            inst.wf(f),
        ensures
            final(self)@ == exec_binary_imm(old(self)@, *inst, arg, imm),
            kept(f, old(self)@, final(self)@),
    {
        match self.lookup_reg(arg) {
            None => self.undefined(inst, arg),
            Some(x) => {
                let r = apply_binary_imm(inst.opcode, &inst.opcode_name, x, imm);
                self.take_outcome(f, inst, r);
            },
        }
    }

    fn run_unary(&mut self, f: &IrFunction, inst: &Inst, arg: u32)
        requires
            ready(f, old(self)@),
            inst.wf(f),
        ensures
            final(self)@ == exec_unary(f, old(self)@, *inst, arg),
            kept(f, old(self)@, final(self)@),
    {
        match self.lookup_reg(arg) {
            None => self.undefined(inst, arg),
            Some(x) => {
                let ty = match first_result_ty(f, inst) {
                    Some(t) => t,
                    None => x.ty(),
                };
                let r = apply_unary(inst.opcode, &inst.opcode_name, x, ty, f);
                self.take_value(f, inst, r);
            },
        }
    }

    fn run_int_test(&mut self, f: &IrFunction, inst: &Inst, cond: IntCC, a: u32, b: u32)
        requires
            ready(f, old(self)@),
            inst.wf(f),
        ensures
            final(self)@ == exec_int_test(old(self)@, *inst, cond, a, b),
            kept(f, old(self)@, final(self)@),
    {
        match self.lookup_reg(a) {
            None => self.undefined(inst, a),
            Some(x) => match self.lookup_reg(b) {
                None => self.undefined(inst, b),
                Some(y) => {
                    let c = int_compare(cond, x, y);
                    self.produce(f, inst, one(flag_value(c)));
                },
            },
        }
    }

    fn run_int_test_imm(&mut self, f: &IrFunction, inst: &Inst, cond: IntCC, arg: u32, imm: i64)
        requires
            ready(f, old(self)@),
            inst.wf(f),
        ensures
            final(self)@ == exec_int_test_imm(old(self)@, *inst, cond, arg, imm),
            kept(f, old(self)@, final(self)@),
    {
        match self.lookup_reg(arg) {
            None => self.undefined(inst, arg),
            Some(x) => {
                let b = match x {
                    SimValue::I8(_) => SimValue::I8(imm as i8),
                    SimValue::I16(_) => SimValue::I16(imm as i16),
                    SimValue::I32(_) => SimValue::I32(imm as i32),
                    SimValue::I64(_) => SimValue::I64(imm),
                    SimValue::F32(_) | SimValue::F64(_) => {
                        let e = SimError::TypeMismatch(String::from_str("icmp_imm on float operand"));
                        self.fail(inst.number, e);
                        return ;
                    },
                };
                let c = int_compare(cond, x, b);
                self.produce(f, inst, one(flag_value(c)));
            },
        }
    }

    fn run_float_test(&mut self, f: &IrFunction, inst: &Inst, cond: FloatCC, a: u32, b: u32)
        requires
            ready(f, old(self)@),
            inst.wf(f),
        ensures
            final(self)@ == exec_float_test(old(self)@, *inst, cond, a, b),
            kept(f, old(self)@, final(self)@),
    {
        match self.lookup_reg(a) {
            None => self.undefined(inst, a),
            Some(x) => match self.lookup_reg(b) {
                None => self.undefined(inst, b),
                Some(y) => {
                    let c = float_compare(cond, x, y);
                    self.produce(f, inst, one(flag_value(c)));
                },
            },
        }
    }

    fn run_select(&mut self, f: &IrFunction, inst: &Inst, a: u32, b: u32, c: u32)
        requires
            ready(f, old(self)@),
            inst.wf(f),
        ensures
            final(self)@ == exec_select(old(self)@, *inst, a, b, c),
            kept(f, old(self)@, final(self)@),
    {
        match self.lookup_reg(a) {
            None => self.undefined(inst, a),
            Some(cv) => match self.lookup_reg(b) {
                None => self.undefined(inst, b),
                Some(x) => match self.lookup_reg(c) {
                    None => self.undefined(inst, c),
                    Some(y) => {
                        let v = if cv.as_i64() != 0 {
                            x
                        } else {
                            y
                        };
                        self.produce(f, inst, one(v));
                    },
                },
            },
        }
    }

    fn run_load(&mut self, f: &IrFunction, inst: &Inst, arg: u32, offset: i32)
        requires
            ready(f, old(self)@),
            inst.wf(f),
        ensures
            final(self)@ == exec_load(f, old(self)@, *inst, arg, offset),
            kept(f, old(self)@, final(self)@),
    {
        match self.lookup_reg(arg) {
            None => self.undefined(inst, arg),
            Some(x) => {
                let ty = match first_result_ty(f, inst) {
                    Some(t) => t,
                    None => IrType::I64,
                };
                let r = load_from(&self.memory, address(x, offset), ty, f);
                self.take_value(f, inst, r);
            },
        }
    }

    fn run_store(&mut self, f: &IrFunction, inst: &Inst, value: u32, addr: u32, offset: i32)
        requires
            ready(f, old(self)@),
            inst.wf(f),
        ensures
            final(self)@ == exec_store(old(self)@, *inst, value, addr, offset),
            kept(f, old(self)@, final(self)@),
    {
        match self.lookup_reg(value) {
            None => self.undefined(inst, value),
            Some(v) => match self.lookup_reg(addr) {
                None => self.undefined(inst, addr),
                Some(p) => {
                    match store_to(&mut self.memory, address(p, offset), v) {
                        Ok(()) => self.produce(f, inst, Vec::new()),
                        Err(e) => self.fail(inst.number, e),
                    }
                },
            },
        }
    }

    fn enter(&mut self, f: &IrFunction, target: u32, params: &Vec<SimValue>)
        requires
            state_wf(f, old(self)@),
            running(old(self)@),
            target < f.blocks@.len(),
        ensures
            final(self)@ == jump_to(f, old(self)@, target, params@),
            kept(f, old(self)@, final(self)@),
    {
        let slots = &f.blocks[target as usize].params;
        assert forall|i: int| 0 <= i < slots@.len() implies #[trigger] slots@[i] < self.regs@.len() by {
            assert(f.blocks@[target as int].params@[i] < f.value_types@.len());
        }
        bind_into(&mut self.regs, slots, params);
        self.block = target;
        self.pos = 0;
    }

    fn run_jump(&mut self, f: &IrFunction, inst: &Inst, dest: &BlockCall)
        requires
            ready(f, old(self)@),
            dest.wf(f),
        ensures
            final(self)@ == exec_jump(f, old(self)@, *inst, *dest),
            kept(f, old(self)@, final(self)@),
    {
        let vs = block_values(&dest.args);
        match self.read_values(&vs) {
            Err(v) => self.undefined(inst, v),
            Ok(params) => {
                if self.record_trace {
                    let line = make_jump_line(dest.block);
                    self.log(line);
                }
                self.enter(f, dest.block, &params);
            },
        }
    }

    fn run_brif(&mut self, f: &IrFunction, inst: &Inst, arg: u32, then_dest: &BlockCall, else_dest: &BlockCall)
        requires
            ready(f, old(self)@),
            then_dest.wf(f),
            else_dest.wf(f),
        ensures
            final(self)@ == exec_brif(f, old(self)@, *inst, arg, *then_dest, *else_dest),
            kept(f, old(self)@, final(self)@),
    {
        match self.lookup_reg(arg) {
            None => self.undefined(inst, arg),
            Some(x) => {
                let cond = x.as_i64() != 0;
                let chosen = if cond {
                    then_dest
                } else {
                    else_dest
                };
                let vs = block_values(&chosen.args);
                match self.read_values(&vs) {
                    Err(v) => self.undefined(inst, v),
                    Ok(params) => {
                        if self.record_trace {
                            let line = make_brif_line(cond, chosen.block);
                            self.log(line);
                        }
                        self.enter(f, chosen.block, &params);
                    },
                }
            },
        }
    }

    fn run_return(&mut self, f: &IrFunction, inst: &Inst, args: &Vec<u32>)
        requires
            ready(f, old(self)@),
        ensures
            final(self)@ == exec_return(old(self)@, *inst, args@),
            kept(f, old(self)@, final(self)@),
    {
        match self.read_values(args) {
            Err(v) => self.undefined(inst, v),
            Ok(vals) => {
                if self.record_trace {
                    let line = make_return_line(&vals);
                    self.log(line);
                }
                self.returns = vals;
                self.finished = true;
            },
        }
    }

    fn run_call(&mut self, f: &IrFunction, inst: &Inst, func_ref: u32, args: &Vec<u32>)
        requires
            ready(f, old(self)@),
            inst.wf(f),
            func_ref < f.callee_names@.len(),
        ensures
            final(self)@ == exec_call(f, old(self)@, *inst, func_ref, args@),
            kept(f, old(self)@, final(self)@),
    {
        match self.read_values(args) {
            Err(v) => self.undefined(inst, v),
            Ok(vals) => {
                if self.record_trace {
                    assert forall|i: int| 0 <= i < inst.results@.len() implies #[trigger] inst.results@[i]
                        < f.value_types@.len() && ty_named(f, f.value_types@[inst.results@[i] as int]) by {
                        assert(f.value_types@[inst.results@[i] as int] == f.value_types@[inst.results@[i] as int]);
                    }
                    let line = make_call_line(
                        &f.callee_names[func_ref as usize],
                        &vals,
                        &self.memory,
                        f,
                        &inst.results,
                    );
                    self.log(line);
                }
                proof {
                    lemma_call_fill_len(f, self.regs@, inst.results@, inst.results@.len());
                }
                let bad = fill_call_results(&mut self.regs, f, &inst.results);
                match bad {
                    Some(ty) => {
                        let mut s = with_ty_text("call result type ", f, ty);
                        crate::text::push_str(&mut s, " not supported");
                        assert(s@ =~= "call result type "@ + ty_text(f, ty) + " not supported"@);
                        self.fail(inst.number, SimError::TypeMismatch(s));
                    },
                    None => {
                        let n = f.blocks[self.block as usize].insts.len();
                        assert(self.pos < n);
                        self.pos = self.pos + 1;
                    },
                }
            },
        }
    }

    fn unsupported(&mut self, inst: &Inst)
        ensures
            final(self)@ == fail(old(self)@, inst.number, SimErrorV::UnsupportedOpcode(inst.opcode_name@)),
    {
        self.fail(inst.number, SimError::UnsupportedOpcode(inst.opcode_name.clone()));
    }

    /// Executes one instruction (the step already counted).
    fn execute(&mut self, f: &IrFunction, inst: &Inst)
        requires
            ready(f, old(self)@),
            inst.wf(f),
        ensures
            final(self)@ == exec_inst(f, old(self)@, *inst),
            kept(f, old(self)@, final(self)@),
    {
        reveal(exec_inst);
        let op = inst.opcode;
        match &inst.data {
            InstData::UnaryImm { imm } => if op == OpKind::Iconst {
                self.run_iconst(f, inst, *imm)
            } else {
                self.unsupported(inst)
            },
            InstData::UnaryIeee32 { bits } => if op == OpKind::F32const {
                self.produce(f, inst, one(SimValue::F32(*bits)))
            } else {
                self.unsupported(inst)
            },
            InstData::UnaryIeee64 { bits } => if op == OpKind::F64const {
                self.produce(f, inst, one(SimValue::F64(*bits)))
            } else {
                self.unsupported(inst)
            },
            InstData::Binary { a, b } => self.run_binary(f, inst, *a, *b),
            InstData::BinaryImm64 { arg, imm } => self.run_binary_imm(f, inst, *arg, *imm),
            InstData::Unary { arg } => self.run_unary(f, inst, *arg),
            InstData::LoadNoOffset { arg } => if op == OpKind::Bitcast {
                self.run_unary(f, inst, *arg)
            } else {
                self.unsupported(inst)
            },
            InstData::IntCompare { cond, a, b } => self.run_int_test(f, inst, *cond, *a, *b),
            InstData::IntCompareImm { cond, arg, imm } => self.run_int_test_imm(f, inst, *cond, *arg, *imm),
            InstData::FloatCompare { cond, a, b } => self.run_float_test(f, inst, *cond, *a, *b),
            InstData::Ternary { a, b, c } => if op == OpKind::Select {
                self.run_select(f, inst, *a, *b, *c)
            } else {
                self.unsupported(inst)
            },
            InstData::Load { arg, offset } => self.run_load(f, inst, *arg, *offset),
            InstData::Store { value, addr, offset } => self.run_store(f, inst, *value, *addr, *offset),
            InstData::Jump { destination } => self.run_jump(f, inst, destination),
            InstData::Brif { arg, then_dest, else_dest } => self.run_brif(f, inst, *arg, then_dest, else_dest),
            InstData::MultiAry { args } => if op == OpKind::Return {
                self.run_return(f, inst, args)
            } else {
                self.unsupported(inst)
            },
            InstData::Call { func_ref, args } => self.run_call(f, inst, *func_ref, args),
            InstData::Other => self.unsupported(inst),
        }
    }

    /// One step of a running state.
    fn step(&mut self, f: &IrFunction)
        requires
            state_wf(f, old(self)@),
            running(old(self)@),
        ensures
            final(self)@ == spec_step(f, old(self)@),
            state_wf(f, final(self)@),
            final(self)@.max_steps == old(self)@.max_steps,
            final(self)@.steps >= old(self)@.steps,
            running(final(self)@) ==> final(self)@.steps == old(self)@.steps + 1,
    {
        reveal(spec_step);
        let b = self.block as usize;
        let p = self.pos;
        if p >= f.blocks[b].insts.len() {
            self.error = Some(SimError::UnsupportedOpcode(String::from_str("(block has no terminator)")));
            self.finished = true;
            return ;
        }
        if self.steps >= self.max_steps {
            let limit = self.max_steps;
            self.fail(f.blocks[b].insts[p].number, SimError::StepLimitExceeded { limit });
            return ;
        }
        self.steps = self.steps + 1;
        let inst = &f.blocks[b].insts[p];
        assert(f.blocks@[b as int].insts@[p as int].wf(f));
        self.execute(f, inst);
    }

    /// Steps until the run finishes or waits for a float result.
    fn advance(&mut self, f: &IrFunction)
        requires
            state_wf(f, old(self)@),
        ensures
            final(self)@ == spec_advance(f, old(self)@),
            state_wf(f, final(self)@),
            !running(final(self)@),
    {
        let ghost target = spec_advance(f, self@);
        while !self.finished && self.pending.is_none()
            invariant
                state_wf(f, self@),
                spec_advance(f, self@) == target,
            decreases (self@.max_steps - self@.steps) + (if running(self@) {
                1int
            } else {
                0int
            }),
        {
            self.step(f);
        }
    }
}

impl Machine {
    /// The initial state of a run, advanced until it finishes or waits for
    /// a float result.
    pub(crate) fn start(
        f: &IrFunction,
        args: &[SimValue],
        memory: Vec<u8>,
        record_trace: bool,
        max_steps: usize,
    ) -> (m: Machine)
        requires
            f.wf(),
        ensures
            m@ == spec_advance(f, spec_start(f, args@, memory@, record_trace, max_steps)),
            state_wf(f, m@),
            !running(m@),
    {
        let n = f.value_types.len();
        let mut regs: Vec<Option<SimValue>> = Vec::new();
        let mut i: usize = 0;
        while i < n
            invariant
                n == f.value_types@.len(),
                i <= n,
                regs@ =~= Seq::new(i as nat, |j: int| None::<SimValue>),
            decreases n - i,
        {
            regs.push(None);
            i = i + 1;
        }
        let mut vals: Vec<SimValue> = Vec::new();
        let mut k: usize = 0;
        while k < args.len()
            invariant
                k <= args@.len(),
                vals@ =~= args@.take(k as int),
            decreases args@.len() - k,
        {
            vals.push(args[k]);
            k = k + 1;
        }
        assert(vals@ =~= args@);
        match f.entry {
            None => {
                let m = Machine {
                    memory,
                    regs,
                    trace: Vec::new(),
                    record_trace,
                    max_steps,
                    steps: 0,
                    block: 0,
                    pos: 0,
                    returns: Vec::new(),
                    error: Some(SimError::UnsupportedOpcode(String::from_str("(no entry block)"))),
                    pending: None,
                    finished: true,
                };
                assert(m@.trace =~= seq![]);
                assert(m@.returns =~= seq![]);
                assert(m@ == spec_start(f, args@, memory@, record_trace, max_steps));
                m
            },
            Some(e) => {
                let slots = &f.blocks[e as usize].params;
                assert forall|j: int| 0 <= j < slots@.len() implies #[trigger] slots@[j] < regs@.len() by {
                    assert(f.blocks@[e as int].params@[j] < f.value_types@.len());
                }
                bind_into(&mut regs, slots, &vals);
                let mut m = Machine {
                    memory,
                    regs,
                    trace: Vec::new(),
                    record_trace,
                    max_steps,
                    steps: 0,
                    block: e,
                    pos: 0,
                    returns: Vec::new(),
                    error: None,
                    pending: None,
                    finished: false,
                };
                assert(trace_view(m.trace@) =~= seq![]);
                m.advance(f);
                m
            },
        }
    }

    /// The float computation the run is waiting for, if any.
    pub fn float_request(&self) -> (r: Option<FloatRequest>)
        ensures
            r == self@.pending,
    {
        self.pending
    }

    /// Whether the run has ended (returned or halted).
    pub fn is_finished(&self) -> (r: bool)
        ensures
            r == self@.finished,
    {
        self.finished
    }

    /// Supplies the result of the requested float computation (its bits;
    /// for `F32` the low 32 bits) and runs on until the run finishes or
    /// waits again.
    pub fn resume(&mut self, f: &IrFunction, bits: u64)
        requires
            old(self).wf(f),
            old(self)@.pending is Some,
        ensures
            final(self)@ == spec_advance(f, spec_resume(f, old(self)@, bits)),
            final(self).wf(f),
            !running(final(self)@),
    {
        let req = self.pending.unwrap();
        self.pending = None;
        let v = match req.width {
            FloatWidth::F32 => SimValue::F32(bits as u32),
            FloatWidth::F64 => SimValue::F64(bits),
        };
        let b = self.block as usize;
        let p = self.pos;
        let inst = &f.blocks[b].insts[p];
        assert(f.blocks@[b as int].insts@[p as int].wf(f));
        self.produce(f, inst, one(v));
        self.advance(f);
    }

    /// The outcome of a finished run; `None` while a float result is still
    /// awaited.
    pub fn into_result(self) -> (r: Option<SimResult>)
        ensures
            r is None <==> self@.pending is Some,
            r matches Some(res) ==> res@ == result_view(self@),
    {
        if self.pending.is_some() {
            None
        } else {
            Some(
                SimResult {
                    returns: self.returns,
                    registers: Registers { slots: self.regs },
                    memory: self.memory,
                    trace: self.trace,
                    error: self.error,
                },
            )
        }
    }
}

/// A one-element vector.
fn one(v: SimValue) -> (r: Vec<SimValue>)
    ensures
        r@ == seq![v],
{
    let mut r = Vec::new();
    r.push(v);
    assert(r@ =~= seq![v]);
    r
}

fn flag_value(b: bool) -> (r: SimValue)
    ensures
        r == flag(b),
{
    SimValue::I8(if b {
        1
    } else {
        0
    })
}

/// The byte address of a memory access.
fn address(base: SimValue, offset: i32) -> (r: usize)
    ensures
        r == effective_addr(base, offset),
{
    base.as_u64().wrapping_add(offset as i64 as u64) as usize
}

/// The type of an instruction's first result.
fn first_result_ty(f: &IrFunction, inst: &Inst) -> (r: Option<IrType>)
    requires
        f.wf(),
        inst.wf(f),
    ensures
        r == result_ty0(f, *inst),
        r matches Some(t) ==> ty_named(f, t),
{
    if inst.results.len() > 0 {
        let v = inst.results[0];
        assert(f.value_types@[v as int] == f.value_types@[v as int]);
        Some(f.value_types[v as usize])
    } else {
        None
    }
}

} // verus!
