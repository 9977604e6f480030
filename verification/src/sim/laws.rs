//! Properties of whole runs.

use vstd::prelude::*;

use crate::sim::ir::{BlockCall, FloatCC, Inst, InstData, IntCC, IrFunction, OpKind};
use crate::sim::arith::BinOutcome;
use crate::sim::error::SimErrorV;
use crate::sim::machine::{
    exec_binary, exec_binary_imm, exec_brif, exec_call, exec_float_test, exec_iconst, exec_inst,
    exec_int_test, exec_int_test_imm, exec_jump, exec_load, exec_return, exec_select, exec_store,
    call_fill, effective_addr, exec_unary, fail, lookup, produce, read_all, running, spec_advance, spec_resume,
    spec_start, spec_step,
    with_outcome, with_value, MachineState,
};
use crate::sim::semantics::{int_max, int_min, int_value, is_int_of};
use crate::sim::simulator::spec_run;
use crate::sim::value::{IrType, SimValue};

verus! {

proof fn lemma_exec_inst_untraced(f: &IrFunction, st: MachineState, inst: Inst)
    requires
        !st.record_trace,
    ensures
        exec_inst(f, st, inst).trace == st.trace,
        !exec_inst(f, st, inst).record_trace,
{
    reveal(exec_inst);
}

proof fn lemma_step_untraced(f: &IrFunction, st: MachineState)
    requires
        !st.record_trace,
    ensures
        spec_step(f, st).trace == st.trace,
        !spec_step(f, st).record_trace,
{
    reveal(spec_step);
    let insts = f.blocks@[st.block as int].insts@;
    if st.pos < insts.len() && st.steps < st.max_steps {
        lemma_exec_inst_untraced(
            f,
            MachineState { steps: (st.steps + 1) as usize, ..st },
            insts[st.pos as int],
        );
    }
}

proof fn lemma_advance_untraced(f: &IrFunction, st: MachineState)
    requires
        !st.record_trace,
    ensures
        spec_advance(f, st).trace == st.trace,
        !spec_advance(f, st).record_trace,
    decreases st.max_steps - st.steps,
{
    if running(st) {
        let s2 = spec_step(f, st);
        lemma_step_untraced(f, st);
        if running(s2) && s2.steps > st.steps && s2.steps <= st.max_steps && s2.max_steps
            == st.max_steps {
            lemma_advance_untraced(f, s2);
        }
    }
}

/// With tracing off, a run records no trace lines.
pub proof fn law_untraced_run_records_nothing(
    f: &IrFunction,
    args: Seq<SimValue>,
    memory: Seq<u8>,
    max_steps: usize,
)
    ensures
        spec_run(f, args, memory, false, max_steps).trace == Seq::<Seq<crate::sim::trace::PieceV>>::empty(),
{
    let s0 = spec_start(f, args, memory, false, max_steps);
    assert(s0.trace =~= Seq::<Seq<crate::sim::trace::PieceV>>::empty());
    lemma_advance_untraced(f, s0);
}

/// With tracing off, resuming a run adds no trace lines.
pub proof fn law_untraced_resume_records_nothing(f: &IrFunction, st: MachineState, bits: u64)
    requires
        !st.record_trace,
        st.pending is Some,
    ensures
        spec_advance(f, spec_resume(f, st, bits)).trace == st.trace,
{
    let s1 = spec_resume(f, st, bits);
    lemma_advance_untraced(f, s1);
}

/// Two states that agree in everything a run computes: memory, registers,
/// step count, position, returns, error, pending float operation and
/// whether the run ended (not in their trace, whether they record one, or
/// their budget).
pub open spec fn same_core(a: MachineState, b: MachineState) -> bool {
    &&& a.memory == b.memory
    &&& a.regs == b.regs
    &&& a.steps == b.steps
    &&& a.block == b.block
    &&& a.pos == b.pos
    &&& a.returns == b.returns
    &&& a.error == b.error
    &&& a.pending == b.pending
    &&& a.finished == b.finished
}

/// Two states that differ at most in their trace and whether they record
/// one.
pub open spec fn same_but_trace(a: MachineState, b: MachineState) -> bool {
    &&& same_core(a, b)
    &&& a.max_steps == b.max_steps
}

proof fn lemma_fail_agree(a: MachineState, b: MachineState, n: u32, e: SimErrorV)
    requires
        same_core(a, b),
    ensures
        same_core(fail(a, n, e), fail(b, n, e)),
        fail(a, n, e).max_steps == a.max_steps,
        fail(b, n, e).max_steps == b.max_steps,
{
}

proof fn lemma_produce_agree(a: MachineState, b: MachineState, inst: Inst, vals: Seq<SimValue>)
    requires
        same_core(a, b),
    ensures
        same_core(produce(a, inst, vals), produce(b, inst, vals)),
        produce(a, inst, vals).max_steps == a.max_steps,
        produce(b, inst, vals).max_steps == b.max_steps,
{
}

proof fn lemma_iconst_agree(f: &IrFunction, a: MachineState, b: MachineState, inst: Inst, imm: i64)
    requires
        same_core(a, b),
    ensures
        same_core(exec_iconst(f, a, inst, imm), exec_iconst(f, b, inst, imm)),
        exec_iconst(f, a, inst, imm).max_steps == a.max_steps,
        exec_iconst(f, b, inst, imm).max_steps == b.max_steps,
{
}

proof fn lemma_binary_agree(f: &IrFunction, a: MachineState, b: MachineState, inst: Inst, x: u32, y: u32)
    requires
        same_core(a, b),
    ensures
        same_core(exec_binary(a, inst, x, y), exec_binary(b, inst, x, y)),
        exec_binary(a, inst, x, y).max_steps == a.max_steps,
        exec_binary(b, inst, x, y).max_steps == b.max_steps,
{
}

proof fn lemma_binary_imm_agree(f: &IrFunction, a: MachineState, b: MachineState, inst: Inst, arg: u32, imm: i64)
    requires
        same_core(a, b),
    ensures
        same_core(exec_binary_imm(a, inst, arg, imm), exec_binary_imm(b, inst, arg, imm)),
        exec_binary_imm(a, inst, arg, imm).max_steps == a.max_steps,
        exec_binary_imm(b, inst, arg, imm).max_steps == b.max_steps,
{
}

proof fn lemma_unary_agree(f: &IrFunction, a: MachineState, b: MachineState, inst: Inst, arg: u32)
    requires
        same_core(a, b),
    ensures
        same_core(exec_unary(f, a, inst, arg), exec_unary(f, b, inst, arg)),
        exec_unary(f, a, inst, arg).max_steps == a.max_steps,
        exec_unary(f, b, inst, arg).max_steps == b.max_steps,
{
}

proof fn lemma_int_test_agree(f: &IrFunction, a: MachineState, b: MachineState, inst: Inst, cond: IntCC, x: u32, y: u32)
    requires
        same_core(a, b),
    ensures
        same_core(exec_int_test(a, inst, cond, x, y), exec_int_test(b, inst, cond, x, y)),
        exec_int_test(a, inst, cond, x, y).max_steps == a.max_steps,
        exec_int_test(b, inst, cond, x, y).max_steps == b.max_steps,
{
}

proof fn lemma_int_test_imm_agree(f: &IrFunction, a: MachineState, b: MachineState, inst: Inst, cond: IntCC, arg: u32, imm: i64)
    requires
        same_core(a, b),
    ensures
        same_core(exec_int_test_imm(a, inst, cond, arg, imm), exec_int_test_imm(b, inst, cond, arg, imm)),
        exec_int_test_imm(a, inst, cond, arg, imm).max_steps == a.max_steps,
        exec_int_test_imm(b, inst, cond, arg, imm).max_steps == b.max_steps,
{
}

proof fn lemma_float_test_agree(f: &IrFunction, a: MachineState, b: MachineState, inst: Inst, cond: FloatCC, x: u32, y: u32)
    requires
        same_core(a, b),
    ensures
        same_core(exec_float_test(a, inst, cond, x, y), exec_float_test(b, inst, cond, x, y)),
        exec_float_test(a, inst, cond, x, y).max_steps == a.max_steps,
        exec_float_test(b, inst, cond, x, y).max_steps == b.max_steps,
{
}

proof fn lemma_select_agree(f: &IrFunction, a: MachineState, b: MachineState, inst: Inst, x: u32, y: u32, z: u32)
    requires
        same_core(a, b),
    ensures
        same_core(exec_select(a, inst, x, y, z), exec_select(b, inst, x, y, z)),
        exec_select(a, inst, x, y, z).max_steps == a.max_steps,
        exec_select(b, inst, x, y, z).max_steps == b.max_steps,
{
}

proof fn lemma_load_agree(f: &IrFunction, a: MachineState, b: MachineState, inst: Inst, arg: u32, offset: i32)
    requires
        same_core(a, b),
    ensures
        same_core(exec_load(f, a, inst, arg, offset), exec_load(f, b, inst, arg, offset)),
        exec_load(f, a, inst, arg, offset).max_steps == a.max_steps,
        exec_load(f, b, inst, arg, offset).max_steps == b.max_steps,
{
}

proof fn lemma_store_agree(f: &IrFunction, a: MachineState, b: MachineState, inst: Inst, value: u32, addr: u32, offset: i32)
    requires
        same_core(a, b),
    ensures
        same_core(exec_store(a, inst, value, addr, offset), exec_store(b, inst, value, addr, offset)),
        exec_store(a, inst, value, addr, offset).max_steps == a.max_steps,
        exec_store(b, inst, value, addr, offset).max_steps == b.max_steps,
{
}

proof fn lemma_jump_agree(f: &IrFunction, a: MachineState, b: MachineState, inst: Inst, destination: BlockCall)
    requires
        same_core(a, b),
    ensures
        same_core(exec_jump(f, a, inst, destination), exec_jump(f, b, inst, destination)),
        exec_jump(f, a, inst, destination).max_steps == a.max_steps,
        exec_jump(f, b, inst, destination).max_steps == b.max_steps,
{
}

proof fn lemma_brif_agree(f: &IrFunction, a: MachineState, b: MachineState, inst: Inst, arg: u32, then_dest: BlockCall, else_dest: BlockCall)
    requires
        same_core(a, b),
    ensures
        same_core(exec_brif(f, a, inst, arg, then_dest, else_dest), exec_brif(f, b, inst, arg, then_dest, else_dest)),
        exec_brif(f, a, inst, arg, then_dest, else_dest).max_steps == a.max_steps,
        exec_brif(f, b, inst, arg, then_dest, else_dest).max_steps == b.max_steps,
{
}

proof fn lemma_return_agree(f: &IrFunction, a: MachineState, b: MachineState, inst: Inst, args: Seq<u32>)
    requires
        same_core(a, b),
    ensures
        same_core(exec_return(a, inst, args), exec_return(b, inst, args)),
        exec_return(a, inst, args).max_steps == a.max_steps,
        exec_return(b, inst, args).max_steps == b.max_steps,
{
}

proof fn lemma_call_agree(f: &IrFunction, a: MachineState, b: MachineState, inst: Inst, func_ref: u32, args: Seq<u32>)
    requires
        same_core(a, b),
    ensures
        same_core(exec_call(f, a, inst, func_ref, args), exec_call(f, b, inst, func_ref, args)),
        exec_call(f, a, inst, func_ref, args).max_steps == a.max_steps,
        exec_call(f, b, inst, func_ref, args).max_steps == b.max_steps,
{
}

proof fn lemma_exec_inst_agree(f: &IrFunction, a: MachineState, b: MachineState, inst: Inst)
    requires
        same_core(a, b),
    ensures
        same_core(exec_inst(f, a, inst), exec_inst(f, b, inst)),
        exec_inst(f, a, inst).max_steps == a.max_steps,
        exec_inst(f, b, inst).max_steps == b.max_steps,
{
    reveal(exec_inst);
    lemma_fail_agree(a, b, inst.number, SimErrorV::UnsupportedOpcode(inst.opcode_name@));
    match inst.data {
        InstData::UnaryImm { imm } => lemma_iconst_agree(f, a, b, inst, imm),
        InstData::UnaryIeee32 { bits } => lemma_produce_agree(a, b, inst, seq![SimValue::F32(bits)]),
        InstData::UnaryIeee64 { bits } => lemma_produce_agree(a, b, inst, seq![SimValue::F64(bits)]),
        InstData::Binary { a: x, b: y } => lemma_binary_agree(f, a, b, inst, x, y),
        InstData::BinaryImm64 { arg, imm } => lemma_binary_imm_agree(f, a, b, inst, arg, imm),
        InstData::Unary { arg } => lemma_unary_agree(f, a, b, inst, arg),
        InstData::LoadNoOffset { arg } => lemma_unary_agree(f, a, b, inst, arg),
        InstData::IntCompare { cond, a: x, b: y } => lemma_int_test_agree(f, a, b, inst, cond, x, y),
        InstData::IntCompareImm { cond, arg, imm } => lemma_int_test_imm_agree(f, a, b, inst, cond, arg, imm),
        InstData::FloatCompare { cond, a: x, b: y } => lemma_float_test_agree(f, a, b, inst, cond, x, y),
        InstData::Ternary { a: x, b: y, c: z } => lemma_select_agree(f, a, b, inst, x, y, z),
        InstData::Load { arg, offset } => lemma_load_agree(f, a, b, inst, arg, offset),
        InstData::Store { value, addr, offset } => lemma_store_agree(f, a, b, inst, value, addr, offset),
        InstData::Jump { destination } => lemma_jump_agree(f, a, b, inst, destination),
        InstData::Brif { arg, then_dest, else_dest } => lemma_brif_agree(f, a, b, inst, arg, then_dest, else_dest),
        InstData::MultiAry { args } => lemma_return_agree(f, a, b, inst, args@),
        InstData::Call { func_ref, args } => lemma_call_agree(f, a, b, inst, func_ref, args@),
        InstData::Other => {},
    }
}

proof fn lemma_step_agree(f: &IrFunction, a: MachineState, b: MachineState)
    requires
        same_but_trace(a, b),
    ensures
        same_but_trace(spec_step(f, a), spec_step(f, b)),
{
    reveal(spec_step);
    let insts = f.blocks@[a.block as int].insts@;
    if a.pos < insts.len() && a.steps < a.max_steps {
        lemma_exec_inst_agree(
            f,
            MachineState { steps: (a.steps + 1) as usize, ..a },
            MachineState { steps: (b.steps + 1) as usize, ..b },
            insts[a.pos as int],
        );
    }
}

proof fn lemma_advance_agree(f: &IrFunction, a: MachineState, b: MachineState)
    requires
        same_but_trace(a, b),
    ensures
        same_but_trace(spec_advance(f, a), spec_advance(f, b)),
    decreases a.max_steps - a.steps,
{
    if running(a) {
        lemma_step_agree(f, a, b);
        let a2 = spec_step(f, a);
        if running(a2) && a2.steps > a.steps && a2.steps <= a.max_steps && a2.max_steps
            == a.max_steps {
            lemma_advance_agree(f, a2, spec_step(f, b));
        }
    }
}

/// Tracing is only a record: a run with tracing on and one with tracing
/// off end in the same returns, registers, memory, error, step count and
/// position.
pub proof fn law_tracing_does_not_change_the_run(
    f: &IrFunction,
    args: Seq<SimValue>,
    memory: Seq<u8>,
    max_steps: usize,
)
    ensures
        same_but_trace(
            spec_run(f, args, memory, true, max_steps),
            spec_run(f, args, memory, false, max_steps),
        ),
{
    lemma_advance_agree(
        f,
        spec_start(f, args, memory, true, max_steps),
        spec_start(f, args, memory, false, max_steps),
    );
}

/// What one instruction keeps of a running state: the memory's size, the
/// step budget and count, and that any error it raises is not the
/// step-limit error and ends the run.
pub open spec fn inst_keeps(a: MachineState, b: MachineState) -> bool {
    &&& b.memory.len() == a.memory.len()
    &&& b.max_steps == a.max_steps
    &&& b.steps == a.steps
    &&& b.error is Some ==> b.finished && !(b.error matches Some(SimErrorV::StepLimitExceeded { .. }))
    &&& !b.finished ==> b.returns == a.returns && b.error is None
    &&& b.error is Some ==> b.returns == a.returns
}

/// A state that has ended did so with an error.
pub open spec fn ends_in_error(b: MachineState) -> bool {
    b.finished ==> b.error is Some
}

/// `b` is `a` after `inst` ran as a `return`: the returns are the values
/// of its operands, and registers and position stay as they were.
pub open spec fn returned_by(inst: Inst, a: MachineState, b: MachineState) -> bool {
    &&& inst.opcode == OpKind::Return
    &&& inst.data matches InstData::MultiAry { args } && read_all(a.regs, args@) == Ok::<
        Seq<SimValue>,
        u32,
    >(b.returns)
    &&& b.regs == a.regs
    &&& b.block == a.block
    &&& b.pos == a.pos
}

proof fn lemma_iconst_keeps(f: &IrFunction, a: MachineState, inst: Inst, imm: i64)
    requires
        a.error is None,
        !a.finished,
    ensures
        inst_keeps(a, exec_iconst(f, a, inst, imm)),
        ends_in_error(exec_iconst(f, a, inst, imm)),
{
}

proof fn lemma_binary_keeps(f: &IrFunction, a: MachineState, inst: Inst, x: u32, y: u32)
    requires
        a.error is None,
        !a.finished,
    ensures
        inst_keeps(a, exec_binary(a, inst, x, y)),
        ends_in_error(exec_binary(a, inst, x, y)),
{
}

proof fn lemma_binary_imm_keeps(f: &IrFunction, a: MachineState, inst: Inst, arg: u32, imm: i64)
    requires
        a.error is None,
        !a.finished,
    ensures
        inst_keeps(a, exec_binary_imm(a, inst, arg, imm)),
        ends_in_error(exec_binary_imm(a, inst, arg, imm)),
{
}

proof fn lemma_unary_keeps(f: &IrFunction, a: MachineState, inst: Inst, arg: u32)
    requires
        a.error is None,
        !a.finished,
    ensures
        inst_keeps(a, exec_unary(f, a, inst, arg)),
        ends_in_error(exec_unary(f, a, inst, arg)),
{
}

proof fn lemma_int_test_keeps(f: &IrFunction, a: MachineState, inst: Inst, cond: IntCC, x: u32, y: u32)
    requires
        a.error is None,
        !a.finished,
    ensures
        inst_keeps(a, exec_int_test(a, inst, cond, x, y)),
        ends_in_error(exec_int_test(a, inst, cond, x, y)),
{
}

proof fn lemma_int_test_imm_keeps(f: &IrFunction, a: MachineState, inst: Inst, cond: IntCC, arg: u32, imm: i64)
    requires
        a.error is None,
        !a.finished,
    ensures
        inst_keeps(a, exec_int_test_imm(a, inst, cond, arg, imm)),
        ends_in_error(exec_int_test_imm(a, inst, cond, arg, imm)),
{
}

proof fn lemma_float_test_keeps(f: &IrFunction, a: MachineState, inst: Inst, cond: FloatCC, x: u32, y: u32)
    requires
        a.error is None,
        !a.finished,
    ensures
        inst_keeps(a, exec_float_test(a, inst, cond, x, y)),
        ends_in_error(exec_float_test(a, inst, cond, x, y)),
{
}

proof fn lemma_select_keeps(f: &IrFunction, a: MachineState, inst: Inst, x: u32, y: u32, z: u32)
    requires
        a.error is None,
        !a.finished,
    ensures
        inst_keeps(a, exec_select(a, inst, x, y, z)),
        ends_in_error(exec_select(a, inst, x, y, z)),
{
}

proof fn lemma_load_keeps(f: &IrFunction, a: MachineState, inst: Inst, arg: u32, offset: i32)
    requires
        a.error is None,
        !a.finished,
    ensures
        inst_keeps(a, exec_load(f, a, inst, arg, offset)),
        ends_in_error(exec_load(f, a, inst, arg, offset)),
{
}

proof fn lemma_store_keeps(f: &IrFunction, a: MachineState, inst: Inst, value: u32, addr: u32, offset: i32)
    requires
        a.error is None,
        !a.finished,
    ensures
        inst_keeps(a, exec_store(a, inst, value, addr, offset)),
        ends_in_error(exec_store(a, inst, value, addr, offset)),
{
    match lookup(a.regs, value) {
        Some(v) => match lookup(a.regs, addr) {
            Some(p) => {
                let ad = crate::sim::machine::effective_addr(p, offset);
                let size = v.spec_ty().spec_bytes() as nat;
                if ad + size <= a.memory.len() {
                    crate::sim::memory::lemma_le_bytes_len(crate::sim::memory::stored_bits(v), size);
                }
            },
            None => {},
        },
        None => {},
    }
}

proof fn lemma_jump_keeps(f: &IrFunction, a: MachineState, inst: Inst, destination: BlockCall)
    requires
        a.error is None,
        !a.finished,
    ensures
        inst_keeps(a, exec_jump(f, a, inst, destination)),
        ends_in_error(exec_jump(f, a, inst, destination)),
{
}

proof fn lemma_brif_keeps(f: &IrFunction, a: MachineState, inst: Inst, arg: u32, then_dest: BlockCall, else_dest: BlockCall)
    requires
        a.error is None,
        !a.finished,
    ensures
        inst_keeps(a, exec_brif(f, a, inst, arg, then_dest, else_dest)),
        ends_in_error(exec_brif(f, a, inst, arg, then_dest, else_dest)),
{
}

proof fn lemma_return_keeps(f: &IrFunction, a: MachineState, inst: Inst, args: Seq<u32>)
    requires
        a.error is None,
        !a.finished,
    ensures
        inst_keeps(a, exec_return(a, inst, args)),
        exec_return(a, inst, args).finished && exec_return(a, inst, args).error is None ==> (read_all(
            a.regs,
            args,
        ) == Ok::<Seq<SimValue>, u32>(exec_return(a, inst, args).returns) && exec_return(
            a,
            inst,
            args,
        ).regs == a.regs && exec_return(a, inst, args).block == a.block && exec_return(
            a,
            inst,
            args,
        ).pos == a.pos),
{
}

proof fn lemma_call_keeps(f: &IrFunction, a: MachineState, inst: Inst, func_ref: u32, args: Seq<u32>)
    requires
        a.error is None,
        !a.finished,
    ensures
        inst_keeps(a, exec_call(f, a, inst, func_ref, args)),
        ends_in_error(exec_call(f, a, inst, func_ref, args)),
{
}

proof fn lemma_exec_inst_keeps(f: &IrFunction, a: MachineState, inst: Inst)
    requires
        a.error is None,
        !a.finished,
    ensures
        inst_keeps(a, exec_inst(f, a, inst)),
        exec_inst(f, a, inst).finished && exec_inst(f, a, inst).error is None ==> returned_by(
            inst,
            a,
            exec_inst(f, a, inst),
        ),
{
    reveal(exec_inst);
    match inst.data {
        InstData::UnaryImm { imm } => lemma_iconst_keeps(f, a, inst, imm),
        InstData::UnaryIeee32 { .. } => {},
        InstData::UnaryIeee64 { .. } => {},
        InstData::Binary { a: x, b: y } => lemma_binary_keeps(f, a, inst, x, y),
        InstData::BinaryImm64 { arg, imm } => lemma_binary_imm_keeps(f, a, inst, arg, imm),
        InstData::Unary { arg } => lemma_unary_keeps(f, a, inst, arg),
        InstData::LoadNoOffset { arg } => lemma_unary_keeps(f, a, inst, arg),
        InstData::IntCompare { cond, a: x, b: y } => lemma_int_test_keeps(f, a, inst, cond, x, y),
        InstData::IntCompareImm { cond, arg, imm } => lemma_int_test_imm_keeps(f, a, inst, cond, arg, imm),
        InstData::FloatCompare { cond, a: x, b: y } => lemma_float_test_keeps(f, a, inst, cond, x, y),
        InstData::Ternary { a: x, b: y, c: z } => lemma_select_keeps(f, a, inst, x, y, z),
        InstData::Load { arg, offset } => lemma_load_keeps(f, a, inst, arg, offset),
        InstData::Store { value, addr, offset } => lemma_store_keeps(f, a, inst, value, addr, offset),
        InstData::Jump { destination } => lemma_jump_keeps(f, a, inst, destination),
        InstData::Brif { arg, then_dest, else_dest } => lemma_brif_keeps(f, a, inst, arg, then_dest, else_dest),
        InstData::MultiAry { args } => lemma_return_keeps(f, a, inst, args@),
        InstData::Call { func_ref, args } => lemma_call_keeps(f, a, inst, func_ref, args@),
        InstData::Other => {},
    }
}

/// The state's error, step count and budget agree: an error ends the run,
/// and a step-limit error names the spent budget.
pub open spec fn sane(st: MachineState) -> bool {
    &&& st.steps <= st.max_steps
    &&& st.error is Some ==> st.finished
    &&& (st.error matches Some(SimErrorV::StepLimitExceeded { limit }) ==> limit == st.max_steps
        && st.steps == st.max_steps)
}

proof fn lemma_step_keeps(f: &IrFunction, a: MachineState)
    requires
        sane(a),
        running(a),
    ensures
        sane(spec_step(f, a)),
        spec_step(f, a).memory.len() == a.memory.len(),
        spec_step(f, a).max_steps == a.max_steps,
        spec_step(f, a).steps == a.steps || spec_step(f, a).steps == a.steps + 1,
        running(spec_step(f, a)) ==> spec_step(f, a).steps == a.steps + 1,
        !spec_step(f, a).finished ==> spec_step(f, a).returns == a.returns,
{
    reveal(spec_step);
    let insts = f.blocks@[a.block as int].insts@;
    if a.pos < insts.len() && a.steps < a.max_steps {
        lemma_exec_inst_keeps(f, MachineState { steps: (a.steps + 1) as usize, ..a }, insts[a.pos as int]);
    }
}

proof fn lemma_advance_keeps(f: &IrFunction, a: MachineState)
    requires
        sane(a),
    ensures
        sane(spec_advance(f, a)),
        spec_advance(f, a).memory.len() == a.memory.len(),
        spec_advance(f, a).max_steps == a.max_steps,
    decreases a.max_steps - a.steps,
{
    if running(a) {
        lemma_step_keeps(f, a);
        let a2 = spec_step(f, a);
        if running(a2) && a2.steps > a.steps && a2.steps <= a.max_steps && a2.max_steps == a.max_steps {
            lemma_advance_keeps(f, a2);
        }
    }
}

/// A run never changes the size of memory, and it halts with
/// `StepLimitExceeded` only after executing exactly `max_steps`
/// instructions, reporting that budget as the limit.
pub proof fn law_run_keeps_memory_size_and_budget(
    f: &IrFunction,
    args: Seq<SimValue>,
    memory: Seq<u8>,
    record_trace: bool,
    max_steps: usize,
)
    ensures
        sane(spec_run(f, args, memory, record_trace, max_steps)),
        spec_run(f, args, memory, record_trace, max_steps).memory.len() == memory.len(),
        spec_run(f, args, memory, record_trace, max_steps).steps <= max_steps,
        (spec_run(f, args, memory, record_trace, max_steps).error matches Some(
            SimErrorV::StepLimitExceeded { limit },
        ) ==> limit == max_steps && spec_run(f, args, memory, record_trace, max_steps).steps
            == max_steps),
{
    lemma_advance_keeps(f, spec_start(f, args, memory, record_trace, max_steps));
}

/// Resuming a suspended run keeps the same guarantees.
pub proof fn law_resume_keeps_memory_size_and_budget(f: &IrFunction, st: MachineState, bits: u64)
    requires
        sane(st),
        st.pending is Some,
    ensures
        spec_advance(f, spec_resume(f, st, bits)).memory.len() == st.memory.len(),
        sane(spec_advance(f, spec_resume(f, st, bits))),
{
    lemma_advance_keeps(f, spec_resume(f, st, bits));
}

proof fn lemma_call_fill_zeros(
    f: &IrFunction,
    regs: Seq<Option<SimValue>>,
    results: Seq<u32>,
    k: nat,
)
    requires
        k <= results.len(),
        forall|i: int| 0 <= i < results.len() ==> #[trigger] results[i] < regs.len(),
        call_fill(f, regs, results, k).1 is None,
    ensures
        call_fill(f, regs, results, k).0.len() == regs.len(),
        forall|i: int|
            0 <= i < k ==> #[trigger] call_fill(f, regs, results, k).0[results[i] as int]
                == SimValue::spec_zero_of(f.value_types@[results[i] as int]),
    decreases k,
{
    if k > 0 {
        let prev = call_fill(f, regs, results, (k - 1) as nat);
        if prev.1 is Some {
            crate::sim::machine::lemma_call_fill_stuck(f, regs, results, (k - 1) as nat, k);
        } else {
            lemma_call_fill_zeros(f, regs, results, (k - 1) as nat);
            let cur = call_fill(f, regs, results, k);
            assert forall|i: int| 0 <= i < k implies #[trigger] cur.0[results[i] as int]
                == SimValue::spec_zero_of(f.value_types@[results[i] as int]) by {
                if i < k - 1 && results[i] != results[k - 1] {
                    assert(cur.0[results[i] as int] == prev.0[results[i] as int]);
                }
            }
        }
    }
}

/// A stubbed call that does not halt binds every result of the call to
/// the zero of that result's type.
pub proof fn law_call_results_are_zeros(
    f: &IrFunction,
    st: MachineState,
    inst: Inst,
    func_ref: u32,
    args: Seq<u32>,
)
    requires
        forall|i: int| 0 <= i < inst.results@.len() ==> #[trigger] inst.results@[i] < st.regs.len(),
        exec_call(f, st, inst, func_ref, args).error is None,
        st.error is None,
    ensures
        forall|i: int|
            0 <= i < inst.results@.len() ==> #[trigger] lookup(
                exec_call(f, st, inst, func_ref, args).regs,
                inst.results@[i],
            ) == SimValue::spec_zero_of(f.value_types@[inst.results@[i] as int]),
{
    let after = exec_call(f, st, inst, func_ref, args);
    let s = crate::sim::machine::log(
        st,
        crate::sim::trace::call_line(
            f.callee_names@[func_ref as int]@,
            crate::sim::machine::read_all(st.regs, args)->Ok_0,
            st.memory,
            crate::sim::trace::call_results_text(f, inst.results@),
        ),
    );
    if crate::sim::machine::read_all(st.regs, args) is Ok {
        assert(s.regs == st.regs);
        let r = inst.results@;
        if call_fill(f, s.regs, r, r.len()).1 is None {
            lemma_call_fill_zeros(f, s.regs, r, r.len());
            assert forall|i: int| 0 <= i < r.len() implies #[trigger] lookup(after.regs, r[i])
                == SimValue::spec_zero_of(f.value_types@[r[i] as int]) by {
                assert(after.regs == call_fill(f, s.regs, r, r.len()).0);
            }
        }
    }
}

/// What a run has to show for itself: a run that ended without an error
/// stopped at a `return` whose operand values are the returns; a run with
/// an error has ended and has no returns; a run that has not ended has
/// neither.
pub open spec fn outcome_ok(f: &IrFunction, st: MachineState) -> bool {
    &&& st.error is Some ==> st.finished && st.returns.len() == 0
    &&& !st.finished ==> st.error is None && st.returns.len() == 0
    &&& st.finished && st.error is None ==> at_return(f, st)
}

/// The state stands at a `return` whose operands read to its returns.
pub open spec fn at_return(f: &IrFunction, st: MachineState) -> bool {
    let insts = f.blocks@[st.block as int].insts@;
    &&& st.pos < insts.len()
    &&& insts[st.pos as int].opcode == OpKind::Return
    &&& insts[st.pos as int].data matches InstData::MultiAry { args } && read_all(st.regs, args@)
        == Ok::<Seq<SimValue>, u32>(st.returns)
}

proof fn lemma_step_outcome(f: &IrFunction, a: MachineState)
    requires
        outcome_ok(f, a),
        running(a),
    ensures
        outcome_ok(f, spec_step(f, a)),
{
    reveal(spec_step);
    let insts = f.blocks@[a.block as int].insts@;
    if a.pos < insts.len() && a.steps < a.max_steps {
        let a1 = MachineState { steps: (a.steps + 1) as usize, ..a };
        lemma_exec_inst_keeps(f, a1, insts[a.pos as int]);
    }
}

proof fn lemma_advance_outcome(f: &IrFunction, a: MachineState)
    requires
        outcome_ok(f, a),
    ensures
        outcome_ok(f, spec_advance(f, a)),
    decreases a.max_steps - a.steps,
{
    if running(a) {
        lemma_step_outcome(f, a);
        let a2 = spec_step(f, a);
        if running(a2) && a2.steps > a.steps && a2.steps <= a.max_steps && a2.max_steps == a.max_steps {
            lemma_advance_outcome(f, a2);
        }
    }
}

/// A run's error is `None` only when it ended at a `return`, and then its
/// returns are that instruction's operand values; a run that halted with
/// an error has no returns; a run waiting for a float result has neither
/// an error nor returns.
pub proof fn law_run_outcome(
    f: &IrFunction,
    args: Seq<SimValue>,
    memory: Seq<u8>,
    record_trace: bool,
    max_steps: usize,
)
    ensures
        outcome_ok(f, spec_run(f, args, memory, record_trace, max_steps)),
{
    let s0 = spec_start(f, args, memory, record_trace, max_steps);
    assert(s0.returns.len() == 0);
    lemma_advance_outcome(f, s0);
}

/// Resuming a run keeps the same guarantees.
pub proof fn law_resume_outcome(f: &IrFunction, st: MachineState, bits: u64)
    requires
        outcome_ok(f, st),
        st.pending is Some,
        !st.finished,
    ensures
        outcome_ok(f, spec_advance(f, spec_resume(f, st, bits))),
{
    lemma_advance_outcome(f, spec_resume(f, st, bits));
}

proof fn lemma_advance_steps(f: &IrFunction, s: MachineState)
    requires
        sane(s),
    ensures
        spec_advance(f, s).steps >= s.steps,
    decreases s.max_steps - s.steps,
{
    if running(s) {
        lemma_step_keeps(f, s);
        let s2 = spec_step(f, s);
        if running(s2) && s2.steps > s.steps && s2.steps <= s.max_steps && s2.max_steps == s.max_steps {
            lemma_advance_steps(f, s2);
        }
    }
}

proof fn lemma_step_budget(f: &IrFunction, a: MachineState, b: MachineState)
    requires
        same_core(a, b),
        running(a),
        a.steps < a.max_steps,
        a.steps < b.max_steps,
    ensures
        same_core(spec_step(f, a), spec_step(f, b)),
{
    reveal(spec_step);
    let insts = f.blocks@[a.block as int].insts@;
    if a.pos < insts.len() {
        lemma_exec_inst_agree(
            f,
            MachineState { steps: (a.steps + 1) as usize, ..a },
            MachineState { steps: (b.steps + 1) as usize, ..b },
            insts[a.pos as int],
        );
    }
}

proof fn lemma_advance_budget(f: &IrFunction, a: MachineState, b: MachineState)
    requires
        same_core(a, b),
        a.max_steps <= b.max_steps,
        sane(a),
        sane(b),
    ensures
        spec_advance(f, b).steps <= a.max_steps ==> same_core(spec_advance(f, a), spec_advance(f, b)),
        spec_advance(f, b).steps > a.max_steps ==> {
            &&& spec_advance(f, a).error == Some(SimErrorV::StepLimitExceeded { limit: a.max_steps })
            &&& spec_advance(f, a).steps == a.max_steps
            &&& spec_advance(f, a).returns == a.returns
            &&& spec_advance(f, a).finished
        },
    decreases a.max_steps - a.steps,
{
    if running(a) {
        lemma_step_keeps(f, a);
        lemma_step_keeps(f, b);
        let a2 = spec_step(f, a);
        let b2 = spec_step(f, b);
        let insts = f.blocks@[a.block as int].insts@;
        if a.pos >= insts.len() {
            reveal(spec_step);
            assert(same_core(a2, b2));
        } else if a.steps < a.max_steps {
            lemma_step_budget(f, a, b);
            if running(a2) {
                lemma_advance_budget(f, a2, b2);
            }
        } else {
            reveal(spec_step);
            assert(a2.error == Some(SimErrorV::StepLimitExceeded { limit: a.max_steps }));
            if b.max_steps == a.max_steps {
                assert(same_core(a2, b2));
            } else {
                lemma_exec_inst_keeps(
                    f,
                    MachineState { steps: (b.steps + 1) as usize, ..b },
                    insts[a.pos as int],
                );
                assert(b2.steps == b.steps + 1);
                if running(b2) {
                    lemma_advance_steps(f, b2);
                }
            }
        }
    }
}

/// The step budget only cuts a run short: a run whose larger-budget twin
/// executes at most `max_steps` instructions ends the same (memory,
/// registers, steps, position, returns, error and pending float
/// operation); one whose twin needs more ends after exactly `max_steps`
/// instructions with `StepLimitExceeded { limit: max_steps }` and no
/// returns.
pub proof fn law_step_budget(
    f: &IrFunction,
    args: Seq<SimValue>,
    memory: Seq<u8>,
    record_trace: bool,
    max_steps: usize,
    larger: usize,
)
    requires
        max_steps <= larger,
    ensures
        spec_run(f, args, memory, record_trace, larger).steps <= max_steps ==> same_core(
            spec_run(f, args, memory, record_trace, max_steps),
            spec_run(f, args, memory, record_trace, larger),
        ),
        spec_run(f, args, memory, record_trace, larger).steps > max_steps ==> {
            let r = spec_run(f, args, memory, record_trace, max_steps);
            &&& r.error == Some(SimErrorV::StepLimitExceeded { limit: max_steps })
            &&& r.steps == max_steps
            &&& r.returns.len() == 0
            &&& r.finished
        },
{
    let a = spec_start(f, args, memory, record_trace, max_steps);
    let b = spec_start(f, args, memory, record_trace, larger);
    assert(a.returns.len() == 0);
    lemma_advance_budget(f, a, b);
}


/// The instruction that the next step from `st` executes, if that step
/// executes one (there is one left in the block and budget for it).
pub open spec fn next_inst(f: &IrFunction, st: MachineState) -> Option<Inst> {
    let insts = f.blocks@[st.block as int].insts@;
    if st.pos < insts.len() && st.steps < st.max_steps {
        Some(insts[st.pos as int])
    } else {
        None
    }
}

/// Byte `k` is not among those that `inst` writes from state `st`: only a
/// `store` whose operands are bound writes, and only the bytes of its value
/// at its effective address.
pub open spec fn outside_store(st: MachineState, inst: Inst, k: int) -> bool {
    match inst.data {
        InstData::Store { value, addr, offset } => match (lookup(st.regs, value), lookup(st.regs, addr)) {
            (Some(v), Some(p)) => {
                let ad = effective_addr(p, offset) as int;
                k < ad || k >= ad + v.spec_ty().spec_bytes()
            },
            _ => true,
        },
        _ => true,
    }
}

/// The next step from `st` executes a `store` that writes byte `k`.
pub open spec fn step_writes(f: &IrFunction, st: MachineState, k: int) -> bool {
    next_inst(f, st) matches Some(i) && !outside_store(st, i, k)
}

/// Some `store` executed while advancing `st` writes byte `k`.
pub open spec fn run_writes(f: &IrFunction, st: MachineState, k: int) -> bool
    decreases st.max_steps - st.steps,
{
    if !running(st) {
        false
    } else if step_writes(f, st, k) {
        true
    } else {
        let s2 = spec_step(f, st);
        if running(s2) && s2.steps > st.steps && s2.steps <= st.max_steps && s2.max_steps
            == st.max_steps {
            run_writes(f, s2, k)
        } else {
            false
        }
    }
}

proof fn lemma_store_frame(a: MachineState, inst: Inst, value: u32, addr: u32, offset: i32, k: int)
    requires
        0 <= k < a.memory.len(),
        inst.data == (InstData::Store { value, addr, offset }),
        outside_store(a, inst, k),
    ensures
        exec_store(a, inst, value, addr, offset).memory.len() == a.memory.len(),
        exec_store(a, inst, value, addr, offset).memory[k] == a.memory[k],
{
    match lookup(a.regs, value) {
        Some(v) => match lookup(a.regs, addr) {
            Some(p) => {
                let ad = effective_addr(p, offset);
                let size = v.spec_ty().spec_bytes() as nat;
                if ad + size <= a.memory.len() {
                    crate::sim::memory::lemma_le_bytes_len(crate::sim::memory::stored_bits(v), size);
                }
            },
            None => {},
        },
        None => {},
    }
}

proof fn lemma_non_store_keeps_memory(f: &IrFunction, a: MachineState, inst: Inst)
    requires
        !(inst.data is Store),
    ensures
        exec_inst(f, a, inst).memory == a.memory,
{
    reveal(exec_inst);
}

proof fn lemma_exec_inst_frame(f: &IrFunction, a: MachineState, inst: Inst, k: int)
    requires
        0 <= k < a.memory.len(),
        outside_store(a, inst, k),
    ensures
        exec_inst(f, a, inst).memory.len() == a.memory.len(),
        exec_inst(f, a, inst).memory[k] == a.memory[k],
{
    match inst.data {
        InstData::Store { value, addr, offset } => {
            assert(exec_inst(f, a, inst) == exec_store(a, inst, value, addr, offset)) by {
                reveal(exec_inst);
            }
            lemma_store_frame(a, inst, value, addr, offset, k);
        },
        _ => lemma_non_store_keeps_memory(f, a, inst),
    }
}

/// A step changes a byte of memory only by executing a `store` that writes
/// it: every other byte keeps its value, and the size stays.
pub proof fn law_step_writes_only_stored_bytes(f: &IrFunction, a: MachineState, k: int)
    requires
        0 <= k < a.memory.len(),
        !step_writes(f, a, k),
    ensures
        spec_step(f, a).memory.len() == a.memory.len(),
        spec_step(f, a).memory[k] == a.memory[k],
{
    reveal(spec_step);
    let insts = f.blocks@[a.block as int].insts@;
    if a.pos < insts.len() && a.steps < a.max_steps {
        lemma_exec_inst_frame(f, MachineState { steps: (a.steps + 1) as usize, ..a }, insts[a.pos as int], k);
    }
}

proof fn lemma_advance_frame(f: &IrFunction, a: MachineState, k: int)
    requires
        0 <= k < a.memory.len(),
        !run_writes(f, a, k),
    ensures
        spec_advance(f, a).memory.len() == a.memory.len(),
        spec_advance(f, a).memory[k] == a.memory[k],
    decreases a.max_steps - a.steps,
{
    if running(a) {
        law_step_writes_only_stored_bytes(f, a, k);
        let a2 = spec_step(f, a);
        if running(a2) && a2.steps > a.steps && a2.steps <= a.max_steps && a2.max_steps == a.max_steps {
            lemma_advance_frame(f, a2, k);
        }
    }
}

/// A run changes memory only through the `store`s it executes: a byte
/// that none of them writes ends as it began, and a run that executes no
/// `store` at all leaves memory as it was.
pub proof fn law_run_writes_only_stored_bytes(
    f: &IrFunction,
    args: Seq<SimValue>,
    memory: Seq<u8>,
    record_trace: bool,
    max_steps: usize,
)
    ensures
        forall|k: int|
            0 <= k < memory.len() && !run_writes(f, spec_start(f, args, memory, record_trace, max_steps), k)
                ==> #[trigger] spec_run(f, args, memory, record_trace, max_steps).memory[k] == memory[k],
        (forall|k: int| 0 <= k < memory.len() ==> !run_writes(f, spec_start(f, args, memory, record_trace, max_steps), k))
            ==> spec_run(f, args, memory, record_trace, max_steps).memory == memory,
{
    let s = spec_start(f, args, memory, record_trace, max_steps);
    law_run_keeps_memory_size_and_budget(f, args, memory, record_trace, max_steps);
    assert forall|k: int|
        0 <= k < memory.len() && !run_writes(f, s, k) implies #[trigger] spec_run(f, args, memory, record_trace, max_steps).memory[k] == memory[k] by {
        lemma_advance_frame(f, s, k);
    }
    if forall|k: int| 0 <= k < memory.len() ==> !run_writes(f, s, k) {
        assert(spec_run(f, args, memory, record_trace, max_steps).memory =~= memory);
    }
}

/// Resuming a suspended run likewise changes only bytes that an executed
/// `store` writes.
pub proof fn law_resume_writes_only_stored_bytes(f: &IrFunction, st: MachineState, bits: u64)
    ensures
        forall|k: int|
            0 <= k < st.memory.len() && !run_writes(f, spec_resume(f, st, bits), k)
                ==> #[trigger] spec_advance(f, spec_resume(f, st, bits)).memory[k] == st.memory[k],
{
    assert forall|k: int|
        0 <= k < st.memory.len() && !run_writes(f, spec_resume(f, st, bits), k) implies #[trigger] spec_advance(f, spec_resume(f, st, bits)).memory[k] == st.memory[k] by {
        lemma_advance_frame(f, spec_resume(f, st, bits), k);
    }
}


/// `brif` on an integer condition continues at the start of its `then`
/// target when the condition is non-zero and of its `else` target when it
/// is zero, with no error, provided the chosen target's arguments are
/// bound.
pub proof fn law_brif_branches_on_nonzero(
    f: &IrFunction,
    st: MachineState,
    inst: Inst,
    arg: u32,
    then_dest: BlockCall,
    else_dest: BlockCall,
)
    requires
        lookup(st.regs, arg) matches Some(x) && x.is_int(),
        read_all(st.regs, crate::sim::machine::block_arg_values(then_dest.args@)) is Ok,
        read_all(st.regs, crate::sim::machine::block_arg_values(else_dest.args@)) is Ok,
    ensures
        ({
            let r = exec_brif(f, st, inst, arg, then_dest, else_dest);
            let c = int_value(lookup(st.regs, arg)->0);
            &&& r.block == (if c != 0 { then_dest.block } else { else_dest.block })
            &&& r.pos == 0
            &&& r.error == st.error
            &&& r.finished == st.finished
        }),
{
}

/// The address a `load` or `store` uses is the base value's bits plus the
/// offset taken as a signed number, wherever that sum is an address.
pub proof fn law_effective_address(base: SimValue, offset: i32)
    requires
        0 <= base.spec_as_u64() + offset <= usize::MAX,
    ensures
        effective_addr(base, offset) as int == base.spec_as_u64() + offset,
{
    assert((offset as i64 as u64) as int == (if offset < 0 { offset + 0x1_0000_0000_0000_0000 } else { offset as int })) by (bit_vector);
}


/// `select` yields its second operand when the integer condition is
/// non-zero and its third when it is zero.
pub proof fn law_select_on_nonzero(st: MachineState, inst: Inst, a: u32, b: u32, c: u32)
    requires
        lookup(st.regs, a) matches Some(cv) && cv.is_int(),
        lookup(st.regs, b) is Some,
        lookup(st.regs, c) is Some,
    ensures
        exec_select(st, inst, a, b, c) == produce(
            st,
            inst,
            seq![
                if int_value(lookup(st.regs, a)->0) != 0 {
                    lookup(st.regs, b)->0
                } else {
                    lookup(st.regs, c)->0
                },
            ],
        ),
{
}

/// `icmp` and `fcmp` yield the `I8` value 1 when the condition holds and 0
/// when it does not.
pub proof fn law_compare_yields_one_or_zero(
    st: MachineState,
    inst: Inst,
    icc: IntCC,
    fcc: FloatCC,
    a: u32,
    b: u32,
)
    requires
        lookup(st.regs, a) is Some,
        lookup(st.regs, b) is Some,
    ensures
        ({
            let x = lookup(st.regs, a)->0;
            let y = lookup(st.regs, b)->0;
            &&& exec_int_test(st, inst, icc, a, b) == produce(
                st,
                inst,
                seq![SimValue::I8(if crate::sim::arith::spec_int_compare(icc, x, y) { 1 } else { 0 })],
            )
            &&& exec_float_test(st, inst, fcc, a, b) == produce(
                st,
                inst,
                seq![SimValue::I8(if crate::sim::float::spec_float_compare(fcc, x, y) { 1 } else { 0 })],
            )
        }),
{
}

/// `iconst` of an integer type yields the immediate wherever it fits that
/// type.
pub proof fn law_iconst(f: &IrFunction, st: MachineState, inst: Inst, imm: i64)
    requires
        crate::sim::machine::result_ty0(f, inst) matches Some(t) && (t == IrType::I8 || t == IrType::I16
            || t == IrType::I32 || t == IrType::I64) && int_min(t) <= imm <= int_max(t),
    ensures
        exists|v: SimValue|
            #![auto]
            is_int_of(v, crate::sim::machine::result_ty0(f, inst)->0) && int_value(v) == imm
                && exec_iconst(f, st, inst, imm) == produce(st, inst, seq![v]),
{
    let v = crate::sim::arith::int_of_type(crate::sim::machine::result_ty0(f, inst)->0, imm)->0;
    assert(is_int_of(v, crate::sim::machine::result_ty0(f, inst)->0) && int_value(v) == imm
        && exec_iconst(f, st, inst, imm) == produce(st, inst, seq![v]));
}


proof fn lemma_read_all_values(regs: Seq<Option<SimValue>>, vs: Seq<u32>)
    ensures
        read_all(regs, vs) matches Ok(vals) ==> vals.len() == vs.len() && forall|i: int|
            0 <= i < vs.len() ==> lookup(regs, #[trigger] vs[i]) == Some(vals[i]),
    decreases vs.len(),
{
    if vs.len() > 0 {
        lemma_read_all_values(regs, vs.drop_last());
        if read_all(regs, vs) is Ok {
            let vals = read_all(regs, vs)->Ok_0;
            let xs = read_all(regs, vs.drop_last())->Ok_0;
            assert forall|i: int| 0 <= i < vs.len() implies lookup(regs, #[trigger] vs[i]) == Some(vals[i]) by {
                if i < vs.len() - 1 {
                    assert(vs[i] == vs.drop_last()[i]);
                }
            }
        }
    }
}

/// Reading a list of values gives, in order, the value bound to each, or
/// fails on an unbound one.
pub proof fn law_read_all(regs: Seq<Option<SimValue>>, vs: Seq<u32>)
    ensures
        read_all(regs, vs) matches Ok(vals) ==> vals.len() == vs.len() && forall|i: int|
            0 <= i < vs.len() ==> lookup(regs, #[trigger] vs[i]) == Some(vals[i]),
        read_all(regs, vs) matches Err(v) ==> lookup(regs, v) is None,
        (forall|i: int| 0 <= i < vs.len() ==> lookup(regs, #[trigger] vs[i]) is Some) ==> read_all(regs, vs) is Ok,
    decreases vs.len(),
{
    lemma_read_all_values(regs, vs);
    if vs.len() > 0 {
        law_read_all(regs, vs.drop_last());
        if forall|i: int| 0 <= i < vs.len() ==> lookup(regs, #[trigger] vs[i]) is Some {
            assert forall|i: int| 0 <= i < vs.drop_last().len() implies lookup(regs, #[trigger] vs.drop_last()[i]) is Some by {
                assert(vs.drop_last()[i] == vs[i]);
            }
            assert(lookup(regs, vs[vs.len() - 1]) is Some);
        }
    }
}

proof fn lemma_bind_n_lookup(regs: Seq<Option<SimValue>>, slots: Seq<u32>, vals: Seq<SimValue>, k: nat, i: int)
    requires
        k <= slots.len(),
        k <= vals.len(),
        forall|j: int| 0 <= j < slots.len() ==> #[trigger] slots[j] < regs.len(),
        forall|p: int, q: int| 0 <= p < q < slots.len() ==> slots[p] != slots[q],
        0 <= i < k,
    ensures
        lookup(crate::sim::machine::bind_n(regs, slots, vals, k), slots[i]) == Some(vals[i]),
    decreases k,
{
    crate::sim::machine::lemma_bind_n_len(regs, slots, vals, k);
    crate::sim::machine::lemma_bind_n_len(regs, slots, vals, (k - 1) as nat);
    if i < k - 1 {
        lemma_bind_n_lookup(regs, slots, vals, (k - 1) as nat, i);
        assert(slots[i] != slots[k - 1]);
    }
}

/// A `jump` whose arguments are all bound continues at the start of its
/// target with each of the target's parameters bound, in order, to the
/// value of the matching argument (the target's parameters being distinct
/// registers).
pub proof fn law_jump_binds_parameters(f: &IrFunction, st: MachineState, inst: Inst, dest: BlockCall, i: int)
    requires
        read_all(st.regs, crate::sim::machine::block_arg_values(dest.args@)) is Ok,
        forall|j: int|
            0 <= j < f.blocks@[dest.block as int].params@.len() ==> #[trigger] f.blocks@[dest.block as int].params@[j]
                < st.regs.len(),
        forall|p: int, q: int|
            0 <= p < q < f.blocks@[dest.block as int].params@.len() ==> f.blocks@[dest.block as int].params@[p]
                != f.blocks@[dest.block as int].params@[q],
        0 <= i < f.blocks@[dest.block as int].params@.len(),
        i < crate::sim::machine::block_arg_values(dest.args@).len(),
    ensures
        exec_jump(f, st, inst, dest).block == dest.block,
        exec_jump(f, st, inst, dest).pos == 0,
        lookup(exec_jump(f, st, inst, dest).regs, f.blocks@[dest.block as int].params@[i]) == lookup(
            st.regs,
            crate::sim::machine::block_arg_values(dest.args@)[i],
        ),
{
    let vs = crate::sim::machine::block_arg_values(dest.args@);
    let params = f.blocks@[dest.block as int].params@;
    lemma_read_all_values(st.regs, vs);
    let vals = read_all(st.regs, vs)->Ok_0;
    let k = if params.len() < vals.len() { params.len() } else { vals.len() };
    lemma_bind_n_lookup(st.regs, params, vals, k, i);
}

} // verus!
