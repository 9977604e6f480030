//! Further simulator behaviour: errors, floats, tracing, memory and the dump.

use lower_ir_utils::sim::ir::{
    Block, BlockArg, BlockCall, FloatCC, Inst, InstData, IntCC, IrFunction, OpKind,
};
use lower_ir_utils::sim::{
    FloatBinOp, FloatWidth, IrType, SimError, SimResult, SimValue, Simulator,
};

fn inst(number: u32, opcode: OpKind, name: &str, data: InstData, results: Vec<u32>) -> Inst {
    Inst { number, opcode, opcode_name: name.to_string(), data, results }
}

fn ret(number: u32, args: Vec<u32>) -> Inst {
    inst(number, OpKind::Return, "return", InstData::MultiAry { args }, vec![])
}

fn one_block(value_types: Vec<IrType>, params: Vec<u32>, insts: Vec<Inst>) -> IrFunction {
    IrFunction {
        entry: Some(0),
        blocks: vec![Block { params, insts }],
        value_types,
        callee_names: vec!["u0:7".to_string()],
        other_type_names: vec!["i128".to_string()],
    }
}

fn finish(sim: &mut Simulator, f: &IrFunction, args: &[SimValue]) -> SimResult {
    assert!(f.is_wf());
    let m = sim.run(f, args);
    assert!(m.is_finished());
    m.into_result().expect("finished run")
}

fn binary(op: OpKind, name: &str, ty: IrType) -> IrFunction {
    one_block(
        vec![ty, ty, ty],
        vec![0, 1],
        vec![inst(0, op, name, InstData::Binary { a: 0, b: 1 }, vec![2]), ret(1, vec![2])],
    )
}

fn eval(op: OpKind, name: &str, a: SimValue, b: SimValue) -> SimResult {
    let ty = match a {
        SimValue::I8(_) => IrType::I8,
        SimValue::I16(_) => IrType::I16,
        SimValue::I32(_) => IrType::I32,
        SimValue::I64(_) => IrType::I64,
        SimValue::F32(_) => IrType::F32,
        SimValue::F64(_) => IrType::F64,
    };
    let f = binary(op, name, ty);
    finish(&mut Simulator::new(0), &f, &[a, b])
}

#[test]
fn integer_arithmetic_wraps_and_masks() {
    assert_eq!(eval(OpKind::Iadd, "iadd", SimValue::I8(127), SimValue::I8(1)).returns, vec![SimValue::I8(-128)]);
    assert_eq!(eval(OpKind::Isub, "isub", SimValue::I32(0), SimValue::I32(1)).returns, vec![SimValue::I32(-1)]);
    assert_eq!(eval(OpKind::Imul, "imul", SimValue::I16(300), SimValue::I16(300)).returns, vec![SimValue::I16(24464)]);
    assert_eq!(eval(OpKind::Sdiv, "sdiv", SimValue::I64(-7), SimValue::I64(2)).returns, vec![SimValue::I64(-3)]);
    assert_eq!(eval(OpKind::Srem, "srem", SimValue::I64(-7), SimValue::I64(2)).returns, vec![SimValue::I64(-1)]);
    assert_eq!(eval(OpKind::Urem, "urem", SimValue::I8(-1), SimValue::I8(10)).returns, vec![SimValue::I8(5)]);
    assert_eq!(eval(OpKind::Ushr, "ushr", SimValue::I8(-128), SimValue::I8(9)).returns, vec![SimValue::I8(64)]);
    assert_eq!(eval(OpKind::Sshr, "sshr", SimValue::I8(-128), SimValue::I8(1)).returns, vec![SimValue::I8(-64)]);
    assert_eq!(eval(OpKind::Ishl, "ishl", SimValue::I32(1), SimValue::I32(33)).returns, vec![SimValue::I32(2)]);
    assert_eq!(eval(OpKind::Band, "band", SimValue::I64(12), SimValue::I64(10)).returns, vec![SimValue::I64(8)]);
    assert_eq!(eval(OpKind::Bor, "bor", SimValue::I64(12), SimValue::I64(10)).returns, vec![SimValue::I64(14)]);
    assert_eq!(eval(OpKind::Bxor, "bxor", SimValue::I64(12), SimValue::I64(10)).returns, vec![SimValue::I64(6)]);
}

#[test]
fn division_by_zero_gives_zero() {
    assert_eq!(eval(OpKind::Sdiv, "sdiv", SimValue::I64(5), SimValue::I64(0)).returns, vec![SimValue::I64(0)]);
    assert_eq!(eval(OpKind::Udiv, "udiv", SimValue::I32(5), SimValue::I32(0)).returns, vec![SimValue::I32(0)]);
    assert_eq!(eval(OpKind::Srem, "srem", SimValue::I8(5), SimValue::I8(0)).returns, vec![SimValue::I8(0)]);
}

#[test]
fn mixed_operand_types_are_a_type_mismatch() {
    let f = one_block(
        vec![IrType::I8, IrType::I64, IrType::I64],
        vec![0, 1],
        vec![inst(0, OpKind::Iadd, "iadd", InstData::Binary { a: 0, b: 1 }, vec![2]), ret(1, vec![2])],
    );
    let r = finish(&mut Simulator::new(0), &f, &[SimValue::I8(1), SimValue::I64(1)]);
    assert!(matches!(r.error, Some(SimError::TypeMismatch(ref m)) if m == "iadd: operand types differ"));
    assert!(r.returns.is_empty());
}

#[test]
fn float_arithmetic_is_requested_and_resumed() {
    let f = binary(OpKind::Fadd, "fadd", IrType::F64);
    let mut sim = Simulator::new(0);
    let (a, b) = (1.5f64, 2.25f64);
    let mut m = sim.run(&f, &[SimValue::F64(a.to_bits()), SimValue::F64(b.to_bits())]);
    assert!(!m.is_finished());
    let req = m.float_request().expect("fadd asks for its result");
    assert_eq!(req.op, FloatBinOp::Fadd);
    assert_eq!(req.width, FloatWidth::F64);
    assert_eq!((req.a, req.b), (a.to_bits(), b.to_bits()));
    m.resume(&f, (a + b).to_bits());
    assert!(m.float_request().is_none());
    let r = m.into_result().unwrap();
    assert!(r.error.is_none());
    assert_eq!(r.returns, vec![SimValue::F64(3.75f64.to_bits())]);
}

#[test]
fn a_suspended_run_has_no_result_yet() {
    let f = binary(OpKind::Fmul, "fmul", IrType::F32);
    let mut sim = Simulator::new(0);
    let m = sim.run(&f, &[SimValue::F32(2.0f32.to_bits()), SimValue::F32(3.0f32.to_bits())]);
    let req = m.float_request().unwrap();
    assert_eq!(req.width, FloatWidth::F32);
    assert_eq!(req.a, 2.0f32.to_bits() as u64);
    assert!(m.into_result().is_none());
}

#[test]
fn fneg_flips_the_sign_bit_and_fcmp_orders() {
    let f = one_block(
        vec![IrType::F64, IrType::F64, IrType::I8],
        vec![0],
        vec![
            inst(0, OpKind::Fneg, "fneg", InstData::Unary { arg: 0 }, vec![1]),
            inst(1, OpKind::Other, "fcmp", InstData::FloatCompare { cond: FloatCC::LessThan, a: 1, b: 0 }, vec![2]),
            ret(2, vec![1, 2]),
        ],
    );
    let r = finish(&mut Simulator::new(0), &f, &[SimValue::F64(2.5f64.to_bits())]);
    assert_eq!(r.returns, vec![SimValue::F64((-2.5f64).to_bits()), SimValue::I8(1)]);

    let nan = f64::NAN.to_bits();
    let g = one_block(
        vec![IrType::F64, IrType::F64, IrType::I8, IrType::I8],
        vec![0, 1],
        vec![
            inst(0, OpKind::Other, "fcmp", InstData::FloatCompare { cond: FloatCC::Unordered, a: 0, b: 1 }, vec![2]),
            inst(1, OpKind::Other, "fcmp", InstData::FloatCompare { cond: FloatCC::Equal, a: 0, b: 0 }, vec![3]),
            ret(2, vec![2, 3]),
        ],
    );
    let r = finish(&mut Simulator::new(0), &g, &[SimValue::F64(nan), SimValue::F64(0)]);
    assert_eq!(r.returns, vec![SimValue::I8(1), SimValue::I8(0)]);
}

#[test]
fn select_picks_by_the_condition() {
    let f = one_block(
        vec![IrType::I8, IrType::I64, IrType::I64, IrType::I64],
        vec![0, 1, 2],
        vec![inst(0, OpKind::Select, "select", InstData::Ternary { a: 0, b: 1, c: 2 }, vec![3]), ret(1, vec![3])],
    );
    let args = |c: i8| [SimValue::I8(c), SimValue::I64(10), SimValue::I64(20)];
    assert_eq!(finish(&mut Simulator::new(0), &f, &args(1)).returns, vec![SimValue::I64(10)]);
    assert_eq!(finish(&mut Simulator::new(0), &f, &args(0)).returns, vec![SimValue::I64(20)]);
}

#[test]
fn casts_follow_the_result_type() {
    let f = one_block(
        vec![IrType::I64, IrType::I16, IrType::I32],
        vec![0],
        vec![
            inst(0, OpKind::Ireduce, "ireduce", InstData::Unary { arg: 0 }, vec![1]),
            inst(1, OpKind::Bnot, "bnot", InstData::Unary { arg: 1 }, vec![2]),
            ret(2, vec![1]),
        ],
    );
    let r = finish(&mut Simulator::new(0), &f, &[SimValue::I64(0x1_2345)]);
    assert!(r.error.is_none(), "{:?}", r.error);
    assert_eq!(r.registers.get(1), Some(SimValue::I16(0x2345)));
    assert_eq!(r.registers.get(2), Some(SimValue::I16(!0x2345)));
    assert_eq!(r.returns, vec![SimValue::I16(0x2345)]);
}

#[test]
fn undefined_operand_halts_with_its_value() {
    let f = one_block(
        vec![IrType::I64, IrType::I64, IrType::I64],
        vec![],
        vec![inst(3, OpKind::Iadd, "iadd", InstData::Binary { a: 0, b: 1 }, vec![2]), ret(4, vec![2])],
    );
    let mut sim = Simulator::new(0);
    sim.trace = true;
    let r = finish(&mut sim, &f, &[]);
    assert!(matches!(r.error, Some(SimError::UndefinedValue(0))));
    let last = r.trace.last().unwrap().plain_text().unwrap();
    assert_eq!(last, "  ! halt: undefined SSA value v0 at inst3");
}

#[test]
fn out_of_bounds_load_reports_the_access() {
    let f = one_block(
        vec![IrType::I64, IrType::I32],
        vec![0],
        vec![inst(0, OpKind::Other, "load", InstData::Load { arg: 0, offset: 2 }, vec![1]), ret(1, vec![1])],
    );
    let r = finish(&mut Simulator::new(4), &f, &[SimValue::I64(0)]);
    match &r.error {
        Some(e @ SimError::OutOfBounds { addr: 2, size: 4, memory_len: 4 }) => {
            assert_eq!(e.message(), "out-of-bounds access: addr=0x2 size=4 memory_len=4");
        }
        other => panic!("expected OutOfBounds, got {other:?}"),
    }
    assert_eq!(r.memory, vec![0; 4]);
}

#[test]
fn unsupported_opcode_halts_with_its_name() {
    let f = one_block(vec![], vec![], vec![inst(0, OpKind::Other, "trap", InstData::Other, vec![])]);
    let r = finish(&mut Simulator::new(0), &f, &[]);
    assert!(matches!(r.error, Some(SimError::UnsupportedOpcode(ref n)) if n == "trap"));
    assert_eq!(r.error.unwrap().message(), "unsupported opcode `trap`");
}

#[test]
fn missing_entry_and_missing_terminator() {
    let mut f = one_block(vec![], vec![], vec![]);
    let r = finish(&mut Simulator::new(0), &f, &[]);
    assert!(matches!(r.error, Some(SimError::UnsupportedOpcode(ref n)) if n == "(block has no terminator)"));
    f.entry = None;
    let r = finish(&mut Simulator::new(0), &f, &[]);
    assert!(matches!(r.error, Some(SimError::UnsupportedOpcode(ref n)) if n == "(no entry block)"));
}

#[test]
fn call_results_of_unknown_type_are_refused() {
    let f = one_block(
        vec![IrType::Other { name_index: 0, bytes: 16 }],
        vec![],
        vec![inst(0, OpKind::Other, "call", InstData::Call { func_ref: 0, args: vec![] }, vec![0]), ret(1, vec![0])],
    );
    let r = finish(&mut Simulator::new(0), &f, &[]);
    assert!(matches!(r.error, Some(SimError::TypeMismatch(ref m)) if m == "call result type i128 not supported"));
}

#[test]
fn call_previews_a_string_argument_in_memory() {
    let f = one_block(
        vec![IrType::I64, IrType::I64, IrType::I64],
        vec![0, 1],
        vec![inst(0, OpKind::Other, "call", InstData::Call { func_ref: 0, args: vec![0, 1] }, vec![2]), ret(1, vec![2])],
    );
    let mut sim = Simulator::with_memory(b"hi\"x".to_vec());
    sim.trace = true;
    let r = finish(&mut sim, &f, &[SimValue::I64(0), SimValue::I64(3)]);
    assert_eq!(r.returns, vec![SimValue::I64(0)]);
    let line = r.trace[0].plain_text().unwrap();
    assert_eq!(line, "  call u0:7(I64(0) -> \"hi\\\"\", I64(3)) -> v2:i64");
}

#[test]
fn tracing_records_lines_without_changing_the_run() {
    let mut f = one_block(
        vec![IrType::I64, IrType::I64],
        vec![0],
        vec![
            inst(0, OpKind::IaddImm, "iadd_imm", InstData::BinaryImm64 { arg: 0, imm: 5 }, vec![1]),
            inst(1, OpKind::Other, "store", InstData::Store { value: 1, addr: 0, offset: 0 }, vec![]),
            ret(2, vec![1]),
        ],
    );
    f.value_types = vec![IrType::I64, IrType::I64];
    let mut quiet = Simulator::new(16);
    let a = finish(&mut quiet, &f, &[SimValue::I64(4)]);
    let mut loud = Simulator::new(16);
    loud.trace = true;
    let b = finish(&mut loud, &f, &[SimValue::I64(4)]);
    assert!(a.trace.is_empty());
    assert_eq!(b.trace.len(), 3);
    assert_eq!(a.returns, b.returns);
    assert_eq!(a.memory, b.memory);
    assert_eq!(a.registers.slots, b.registers.slots);
    let lines: Vec<String> = b.trace.iter().map(|l| l.plain_text().unwrap()).collect();
    assert_eq!(lines, vec!["  v1 = iadd_imm [I64(9)]", "  store []", "  return [I64(9)]"]);
}

#[test]
fn memory_moves_into_the_result_and_keeps_its_size() {
    let f = one_block(
        vec![IrType::I64, IrType::I32, IrType::I32],
        vec![0],
        vec![
            inst(0, OpKind::Iconst, "iconst", InstData::UnaryImm { imm: -2 }, vec![1]),
            inst(1, OpKind::Other, "store", InstData::Store { value: 1, addr: 0, offset: 4 }, vec![]),
            inst(2, OpKind::Other, "load", InstData::Load { arg: 0, offset: 4 }, vec![2]),
            ret(3, vec![2]),
        ],
    );
    let mut sim = Simulator::new(12);
    assert_eq!(sim.memory(), &[0u8; 12][..]);
    let r = finish(&mut sim, &f, &[SimValue::I64(0)]);
    assert!(sim.memory().is_empty());
    assert_eq!(r.memory.len(), 12);
    assert_eq!(&r.memory[4..8], &[0xfe, 0xff, 0xff, 0xff]);
    assert_eq!(r.returns, vec![SimValue::I32(-2)]);
}

#[test]
fn step_limit_reports_the_budget() {
    let jump = |n| inst(n, OpKind::Other, "jump", InstData::Jump { destination: BlockCall { block: 0, args: vec![] } }, vec![]);
    let f = one_block(vec![], vec![], vec![jump(0)]);
    let mut sim = Simulator::new(0);
    sim.max_steps = 3;
    sim.trace = true;
    let r = finish(&mut sim, &f, &[]);
    let err = r.error.clone().unwrap();
    assert!(matches!(err, SimError::StepLimitExceeded { limit: 3 }));
    assert_eq!(err.message(), "step limit exceeded (3 instructions) \u{2014} possible infinite loop");
    assert_eq!(r.trace.len(), 4);
}

#[test]
fn block_arguments_skip_non_values() {
    let f = IrFunction {
        entry: Some(0),
        blocks: vec![
            Block {
                params: vec![0],
                insts: vec![inst(
                    0,
                    OpKind::Other,
                    "jump",
                    InstData::Jump {
                        destination: BlockCall { block: 1, args: vec![BlockArg::Other, BlockArg::Value(0)] },
                    },
                    vec![],
                )],
            },
            Block { params: vec![1], insts: vec![ret(1, vec![1])] },
        ],
        value_types: vec![IrType::I32, IrType::I32],
        callee_names: vec![],
        other_type_names: vec![],
    };
    let r = finish(&mut Simulator::new(0), &f, &[SimValue::I32(6)]);
    assert_eq!(r.returns, vec![SimValue::I32(6)]);
}

#[test]
fn brif_trace_names_the_branch_taken() {
    let f = IrFunction {
        entry: Some(0),
        blocks: vec![
            Block {
                params: vec![0],
                insts: vec![inst(
                    0,
                    OpKind::Other,
                    "brif",
                    InstData::Brif {
                        arg: 0,
                        then_dest: BlockCall { block: 1, args: vec![] },
                        else_dest: BlockCall { block: 2, args: vec![] },
                    },
                    vec![],
                )],
            },
            Block { params: vec![], insts: vec![ret(1, vec![])] },
            Block { params: vec![], insts: vec![ret(2, vec![])] },
        ],
        value_types: vec![IrType::I8],
        callee_names: vec![],
        other_type_names: vec![],
    };
    let mut sim = Simulator::new(0);
    sim.trace = true;
    let r = finish(&mut sim, &f, &[SimValue::I8(0)]);
    let lines: Vec<String> = r.trace.iter().map(|l| l.plain_text().unwrap()).collect();
    assert_eq!(lines, vec!["  brif false -> block2 (else)", "  return []"]);
}

#[test]
fn dump_of_a_small_run() {
    let f = one_block(
        vec![IrType::I64, IrType::I8],
        vec![0],
        vec![
            inst(0, OpKind::Other, "icmp_imm", InstData::IntCompareImm { cond: IntCC::Equal, arg: 0, imm: 3 }, vec![1]),
            ret(1, vec![1]),
        ],
    );
    let mut mem = vec![0u8; 20];
    mem[17] = b'z';
    let r = finish(&mut Simulator::with_memory(mem), &f, &[SimValue::I64(3)]);
    let text = r.dump_text().unwrap();
    let expected = "=== Returns ===\n\
                    ret[0] = I8(1)\n\
                    \n\
                    === Registers (SSA) ===\n\
                    v0 = I64(3)\n\
                    v1 = I8(1)\n\
                    \n\
                    === Memory (20 bytes, 1 non-zero) ===\n";
    assert!(text.starts_with(expected), "{text}");
    assert!(text.contains("00000010: 00 7a 00 00"), "{text}");
    assert!(!text.contains("=== Halted ==="), "{text}");
}

#[test]
fn dump_with_a_float_needs_the_caller_to_render_it() {
    let f = one_block(
        vec![IrType::F64],
        vec![],
        vec![inst(0, OpKind::F64const, "f64const", InstData::UnaryIeee64 { bits: 1.0f64.to_bits() }, vec![0]), ret(1, vec![0])],
    );
    let r = finish(&mut Simulator::new(0), &f, &[]);
    assert!(r.dump_text().is_none());
    let lines = r.dump_lines();
    assert!(lines.iter().any(|l| l.plain_text().is_none()));
    let mut out = Vec::new();
    r.dump_to(&mut out);
    assert_eq!(out.len(), lines.len());
}

#[test]
fn halted_dump_ends_with_the_error() {
    let f = one_block(vec![], vec![], vec![inst(0, OpKind::Other, "trap", InstData::Other, vec![])]);
    let r = finish(&mut Simulator::new(0), &f, &[]);
    let text = r.dump_text().unwrap();
    assert!(text.ends_with("\n=== Halted ===\nunsupported opcode `trap`\n"), "{text}");
    assert!(text.contains("=== Returns ===\n(none)\n"), "{text}");
    assert!(text.contains("=== Registers (SSA) ===\n(none)\n"), "{text}");
}

#[test]
fn registers_outside_the_table_are_unbound() {
    let f = one_block(vec![IrType::I64], vec![0], vec![ret(0, vec![0])]);
    let r = finish(&mut Simulator::new(0), &f, &[SimValue::I64(1)]);
    assert_eq!(r.registers.get(0), Some(SimValue::I64(1)));
    assert_eq!(r.registers.get(5), None);
}

#[test]
fn well_formedness_catches_dangling_numbers() {
    let good = one_block(vec![IrType::I64], vec![0], vec![ret(0, vec![0])]);
    assert!(good.is_wf());
    let mut bad_value = good.clone();
    bad_value.blocks[0].insts[0] = ret(0, vec![1]);
    assert!(!bad_value.is_wf());
    let mut bad_entry = good.clone();
    bad_entry.entry = Some(3);
    assert!(!bad_entry.is_wf());
    let mut bad_param = good.clone();
    bad_param.blocks[0].params = vec![7];
    assert!(!bad_param.is_wf());
    let mut bad_target = good.clone();
    bad_target.blocks[0].insts[0] =
        inst(0, OpKind::Other, "jump", InstData::Jump { destination: BlockCall { block: 2, args: vec![] } }, vec![]);
    assert!(!bad_target.is_wf());
    let mut bad_callee = good.clone();
    bad_callee.blocks[0].insts[0] =
        inst(0, OpKind::Other, "call", InstData::Call { func_ref: 1, args: vec![] }, vec![]);
    assert!(!bad_callee.is_wf());
    let mut bad_type_name = good.clone();
    bad_type_name.value_types[0] = IrType::Other { name_index: 4, bytes: 16 };
    assert!(!bad_type_name.is_wf());
}

#[test]
fn integer_opcode_on_floats_is_a_type_mismatch() {
    let r = eval(OpKind::Iadd, "iadd", SimValue::F32(0x3f80_0000), SimValue::F32(0x4000_0000));
    assert!(
        matches!(r.error, Some(SimError::TypeMismatch(ref m)) if m == "iadd: integer operation on float operands"),
        "{:?}",
        r.error
    );
    assert!(r.returns.is_empty());
    let r = eval(OpKind::Band, "band", SimValue::F64(1), SimValue::F64(2));
    assert!(matches!(r.error, Some(SimError::TypeMismatch(ref m)) if m == "band: integer operation on float operands"));
}

#[test]
fn float_opcode_on_integers_is_a_type_mismatch() {
    let r = eval(OpKind::Fadd, "fadd", SimValue::I64(1), SimValue::I64(2));
    assert!(
        matches!(r.error, Some(SimError::TypeMismatch(ref m)) if m == "fadd: float operation on integer operands"),
        "{:?}",
        r.error
    );
}

#[test]
fn setters_change_only_their_setting() {
    let mut sim = Simulator::new(4);
    assert!(!sim.trace_enabled());
    sim.set_trace(true);
    assert!(sim.trace_enabled());
    sim.set_max_steps(2);
    assert_eq!(sim.max_steps(), 2);
    assert!(sim.trace_enabled());
    let f = one_block(
        vec![IrType::I64, IrType::I64, IrType::I64],
        vec![0],
        vec![
            inst(0, OpKind::Iadd, "iadd", InstData::Binary { a: 0, b: 0 }, vec![1]),
            inst(1, OpKind::Iadd, "iadd", InstData::Binary { a: 1, b: 1 }, vec![2]),
            ret(2, vec![2]),
        ],
    );
    let r = finish(&mut sim, &f, &[SimValue::I64(1)]);
    assert!(matches!(r.error, Some(SimError::StepLimitExceeded { limit: 2 })), "{:?}", r.error);
    assert!(r.returns.is_empty());
}

#[test]
fn a_store_changes_only_its_own_bytes() {
    let f = one_block(
        vec![IrType::I64, IrType::I16],
        vec![0],
        vec![
            inst(0, OpKind::Iconst, "iconst", InstData::UnaryImm { imm: 0x0102 }, vec![1]),
            inst(1, OpKind::Other, "store", InstData::Store { value: 1, addr: 0, offset: 2 }, vec![]),
            ret(2, vec![]),
        ],
    );
    let mem: Vec<u8> = (0u8..8).map(|b| 0xa0 + b).collect();
    let r = finish(&mut Simulator::with_memory(mem.clone()), &f, &[SimValue::I64(1)]);
    assert!(r.error.is_none(), "{:?}", r.error);
    assert_eq!(r.memory, vec![0xa0, 0xa1, 0xa2, 0x02, 0x01, 0xa5, 0xa6, 0xa7]);
    let g = one_block(vec![IrType::I64], vec![0], vec![ret(0, vec![0])]);
    let r = finish(&mut Simulator::with_memory(mem.clone()), &g, &[SimValue::I64(1)]);
    assert_eq!(r.memory, mem);
}
