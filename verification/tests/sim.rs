//! End-to-end runs of small IR functions through the simulator: returns,
//! register state, memory, trace and dump.

use lower_ir_utils::sim::ir::{
    Block, BlockArg, BlockCall, Inst, InstData, IntCC, IrFunction, OpKind,
};
use lower_ir_utils::sim::{
    FloatBinOp, FloatRequest, FloatWidth, IrType, SimError, SimResult, SimValue, Simulator,
};

fn inst(number: u32, opcode: OpKind, name: &str, data: InstData, results: Vec<u32>) -> Inst {
    Inst { number, opcode, opcode_name: name.to_string(), data, results }
}

fn block(params: Vec<u32>, insts: Vec<Inst>) -> Block {
    Block { params, insts }
}

fn func(value_types: Vec<IrType>, blocks: Vec<Block>) -> IrFunction {
    IrFunction {
        entry: Some(0),
        blocks,
        value_types,
        callee_names: Vec::new(),
        other_type_names: Vec::new(),
    }
}

fn call_to(block: u32, args: &[u32]) -> BlockCall {
    BlockCall { block, args: args.iter().map(|v| BlockArg::Value(*v)).collect() }
}

fn ret(number: u32, args: Vec<u32>) -> Inst {
    inst(number, OpKind::Return, "return", InstData::MultiAry { args }, vec![])
}

fn compute(req: FloatRequest) -> u64 {
    match req.width {
        FloatWidth::F64 => {
            let (a, b) = (f64::from_bits(req.a), f64::from_bits(req.b));
            let r = match req.op {
                FloatBinOp::Fadd => a + b,
                FloatBinOp::Fsub => a - b,
                FloatBinOp::Fmul => a * b,
                FloatBinOp::Fdiv => a / b,
            };
            r.to_bits()
        }
        FloatWidth::F32 => {
            let (a, b) = (f32::from_bits(req.a as u32) as f64, f32::from_bits(req.b as u32) as f64);
            let r = match req.op {
                FloatBinOp::Fadd => a + b,
                FloatBinOp::Fsub => a - b,
                FloatBinOp::Fmul => a * b,
                FloatBinOp::Fdiv => a / b,
            };
            (r as f32).to_bits() as u64
        }
    }
}

/// Runs `f` to the end, computing any requested float operations.
fn run(sim: &mut Simulator, f: &IrFunction, args: &[SimValue]) -> SimResult {
    assert!(f.is_wf());
    let mut m = sim.run(f, args);
    while let Some(req) = m.float_request() {
        m.resume(f, compute(req));
    }
    m.into_result().expect("no float request left")
}

fn trace_blob(result: &SimResult) -> String {
    result
        .trace
        .iter()
        .map(|l| l.plain_text().expect("integer-only trace"))
        .collect::<Vec<_>>()
        .join("\n")
}

// iconst 42; return  ->  ret[0] == I64(42)
#[test]
fn const_return() {
    let f = func(
        vec![IrType::I64],
        vec![block(
            vec![],
            vec![
                inst(0, OpKind::Iconst, "iconst", InstData::UnaryImm { imm: 42 }, vec![0]),
                ret(1, vec![0]),
            ],
        )],
    );
    let mut sim = Simulator::new(0);
    let result = run(&mut sim, &f, &[]);
    assert!(result.error.is_none(), "{:?}", result.error);
    assert_eq!(result.returns, vec![SimValue::I64(42)]);
}

// (a + 1) * 2: register table + return
#[test]
fn arith_chain() {
    let (after_add, after_mul) = (1u32, 2u32);
    let f = func(
        vec![IrType::I64, IrType::I64, IrType::I64],
        vec![block(
            vec![0],
            vec![
                inst(0, OpKind::IaddImm, "iadd_imm", InstData::BinaryImm64 { arg: 0, imm: 1 }, vec![after_add]),
                inst(1, OpKind::ImulImm, "imul_imm", InstData::BinaryImm64 { arg: after_add, imm: 2 }, vec![after_mul]),
                ret(2, vec![after_mul]),
            ],
        )],
    );
    let mut sim = Simulator::new(0);
    let result = run(&mut sim, &f, &[SimValue::I64(20)]);
    assert!(result.error.is_none(), "{:?}", result.error);
    assert_eq!(result.returns, vec![SimValue::I64(42)]);
    assert_eq!(result.registers.get(after_add), Some(SimValue::I64(21)));
    assert_eq!(result.registers.get(after_mul), Some(SimValue::I64(42)));
}

// Pre-filled memory: load.i64 at +8, store the result at +16.
#[test]
fn load_store() {
    let f = func(
        vec![IrType::I64, IrType::I64],
        vec![block(
            vec![0],
            vec![
                inst(0, OpKind::Other, "load", InstData::Load { arg: 0, offset: 8 }, vec![1]),
                inst(1, OpKind::Other, "store", InstData::Store { value: 1, addr: 0, offset: 16 }, vec![]),
                ret(2, vec![1]),
            ],
        )],
    );
    let mut mem = vec![0u8; 64];
    mem[8..16].copy_from_slice(&0xDEAD_BEEF_CAFE_BABE_u64.to_le_bytes());
    let mut sim = Simulator::with_memory(mem);
    let result = run(&mut sim, &f, &[SimValue::I64(0)]);
    assert!(result.error.is_none(), "{:?}", result.error);
    assert_eq!(result.returns, vec![SimValue::I64(0xDEAD_BEEF_CAFE_BABE_u64 as i64)]);
    assert_eq!(&result.memory[16..24], &0xDEAD_BEEF_CAFE_BABE_u64.to_le_bytes());
}

fn branch_max_func() -> IrFunction {
    func(
        vec![IrType::I64, IrType::I64, IrType::I8, IrType::I64],
        vec![
            block(
                vec![0, 1],
                vec![
                    inst(0, OpKind::Other, "icmp", InstData::IntCompare { cond: IntCC::SignedGreaterThan, a: 0, b: 1 }, vec![2]),
                    inst(
                        1,
                        OpKind::Other,
                        "brif",
                        InstData::Brif { arg: 2, then_dest: call_to(1, &[0]), else_dest: call_to(1, &[1]) },
                        vec![],
                    ),
                ],
            ),
            block(vec![3], vec![ret(2, vec![3])]),
        ],
    )
}

// if a > b { a } else { b } via icmp + brif + block params.
#[test]
fn branch_max() {
    let f = branch_max_func();
    let mut sim = Simulator::new(0);
    let r1 = run(&mut sim, &f, &[SimValue::I64(10), SimValue::I64(3)]);
    assert!(r1.error.is_none(), "{:?}", r1.error);
    assert_eq!(r1.returns, vec![SimValue::I64(10)]);

    let mut sim = Simulator::new(0);
    let r2 = run(&mut sim, &f, &[SimValue::I64(3), SimValue::I64(10)]);
    assert!(r2.error.is_none(), "{:?}", r2.error);
    assert_eq!(r2.returns, vec![SimValue::I64(10)]);
}

fn loop_sum_func() -> IrFunction {
    // block0(n): zero = iconst 0; jump block1(zero, zero)
    // block1(i, acc): c = icmp slt i, n; na = iadd acc, i; ni = iadd_imm i, 1;
    //                 brif c, block1(ni, na), block2(acc)
    // block2(r): return r
    func(
        vec![IrType::I64; 8],
        vec![
            block(
                vec![0],
                vec![
                    inst(0, OpKind::Iconst, "iconst", InstData::UnaryImm { imm: 0 }, vec![1]),
                    inst(1, OpKind::Other, "jump", InstData::Jump { destination: call_to(1, &[1, 1]) }, vec![]),
                ],
            ),
            block(
                vec![2, 3],
                vec![
                    inst(2, OpKind::Other, "icmp", InstData::IntCompare { cond: IntCC::SignedLessThan, a: 2, b: 0 }, vec![4]),
                    inst(3, OpKind::Iadd, "iadd", InstData::Binary { a: 3, b: 2 }, vec![5]),
                    inst(4, OpKind::IaddImm, "iadd_imm", InstData::BinaryImm64 { arg: 2, imm: 1 }, vec![6]),
                    inst(
                        5,
                        OpKind::Other,
                        "brif",
                        InstData::Brif { arg: 4, then_dest: call_to(1, &[6, 5]), else_dest: call_to(2, &[3]) },
                        vec![],
                    ),
                ],
            ),
            block(vec![7], vec![ret(6, vec![7])]),
        ],
    )
}

// Sum 0..N via a back-edge brif (loop header with block params).
#[test]
fn loop_sum() {
    let mut f = loop_sum_func();
    f.value_types[4] = IrType::I8;
    let mut sim = Simulator::new(0);
    let result = run(&mut sim, &f, &[SimValue::I64(10)]);
    assert!(result.error.is_none(), "{:?}", result.error);
    // 0 + 1 + ... + 9 = 45
    assert_eq!(result.returns, vec![SimValue::I64(45)]);
}

fn call_func(args: Vec<Inst>, call_args: Vec<u32>, n_values: usize, params: Vec<u32>) -> IrFunction {
    let call_result = n_values as u32 - 1;
    let mut insts = args;
    let base = insts.len() as u32;
    insts.push(inst(
        base,
        OpKind::Other,
        "call",
        InstData::Call { func_ref: 0, args: call_args },
        vec![call_result],
    ));
    insts.push(ret(base + 1, vec![call_result]));
    let mut f = func(vec![IrType::I64; n_values], vec![block(params, insts)]);
    f.callee_names = vec!["u0:1".to_string()];
    f
}

// Stubbed call: two i64 args; the stub returns zero and the trace records
// the callee and its arguments.
#[test]
fn call_stub() {
    let f = call_func(vec![], vec![0, 1], 3, vec![0, 1]);
    let mut sim = Simulator::new(0);
    sim.trace = true;
    let result = run(&mut sim, &f, &[SimValue::I64(7), SimValue::I64(35)]);
    assert!(result.error.is_none(), "{:?}", result.error);
    assert_eq!(result.returns, vec![SimValue::I64(0)]);
    let trace_blob = trace_blob(&result);
    assert!(trace_blob.contains("call "), "expected call line in trace, got:\n{trace_blob}");
    assert!(
        trace_blob.contains("I64(7)") && trace_blob.contains("I64(35)"),
        "expected arg values in trace, got:\n{trace_blob}"
    );
}

// Stubbed call with a `&str` argument lowered to (ptr, len = 13).
#[test]
fn call_with_str() {
    let s: &'static str = "hello, world!";
    let f = call_func(
        vec![
            inst(0, OpKind::Iconst, "iconst", InstData::UnaryImm { imm: s.as_ptr() as i64 }, vec![0]),
            inst(1, OpKind::Iconst, "iconst", InstData::UnaryImm { imm: s.len() as i64 }, vec![1]),
        ],
        vec![0, 1],
        3,
        vec![],
    );
    let mut sim = Simulator::new(0);
    sim.trace = true;
    let result = run(&mut sim, &f, &[]);
    assert!(result.error.is_none(), "{:?}", result.error);
    assert_eq!(result.returns, vec![SimValue::I64(0)]);
    let trace_blob = trace_blob(&result);
    assert!(trace_blob.contains("call "), "expected call line in trace, got:\n{trace_blob}");
    assert!(trace_blob.contains("I64(13)"), "expected len=13 arg in trace, got:\n{trace_blob}");
}

// Dump format: section headers and a memory row.
#[test]
fn dump_sections() {
    let f = func(
        vec![IrType::I64],
        vec![block(
            vec![],
            vec![
                inst(0, OpKind::Iconst, "iconst", InstData::UnaryImm { imm: 0x4142_4344 }, vec![0]),
                ret(1, vec![0]),
            ],
        )],
    );
    let mut mem = vec![0u8; 32];
    mem[0..4].copy_from_slice(b"ABCD");
    let mut sim = Simulator::with_memory(mem);
    sim.trace = true;
    let result = run(&mut sim, &f, &[]);
    assert!(result.error.is_none(), "{:?}", result.error);

    let out = result.dump_text().expect("integer-only dump");
    assert!(out.contains("=== Trace ==="), "{out}");
    assert!(out.contains("=== Returns ==="), "{out}");
    assert!(out.contains("ret[0] = I64(1094861636)"), "{out}");
    assert!(out.contains("=== Registers (SSA) ==="), "{out}");
    assert!(out.contains("=== Memory (32 bytes"), "{out}");
    assert!(out.contains("|ABCD"), "{out}");
}

// `bitcast` comes as a `LoadNoOffset`-shaped instruction.
#[test]
fn bitcast_int_to_float() {
    let f = func(
        vec![IrType::I64, IrType::F64],
        vec![block(
            vec![0],
            vec![
                inst(0, OpKind::Bitcast, "bitcast", InstData::LoadNoOffset { arg: 0 }, vec![1]),
                ret(1, vec![1]),
            ],
        )],
    );
    let bits = std::f64::consts::PI.to_bits() as i64;
    let mut sim = Simulator::new(0);
    let result = run(&mut sim, &f, &[SimValue::I64(bits)]);
    assert!(result.error.is_none(), "{:?}", result.error);
    assert_eq!(result.returns, vec![SimValue::F64(std::f64::consts::PI.to_bits())]);
}

fn extend_func(op: OpKind, name: &str) -> IrFunction {
    func(
        vec![IrType::I8, IrType::I32],
        vec![block(
            vec![0],
            vec![inst(0, op, name, InstData::Unary { arg: 0 }, vec![1]), ret(1, vec![1])],
        )],
    )
}

// `uextend` zero-extends: I8(0xFF) -> I32(255); `sextend` gives -1.
#[test]
fn uextend_zero_extends_narrow() {
    let f = extend_func(OpKind::Uextend, "uextend");
    let mut sim = Simulator::new(0);
    let result = run(&mut sim, &f, &[SimValue::I8(-1)]);
    assert!(result.error.is_none(), "{:?}", result.error);
    assert_eq!(result.returns, vec![SimValue::I32(255)]);

    let f2 = extend_func(OpKind::Sextend, "sextend");
    let mut sim = Simulator::new(0);
    let result = run(&mut sim, &f2, &[SimValue::I8(-1)]);
    assert!(result.error.is_none(), "{:?}", result.error);
    assert_eq!(result.returns, vec![SimValue::I32(-1)]);
}

// Narrow unsigned arithmetic masks to the operand width: I8(200) udiv 2.
#[test]
fn udiv_narrow_unsigned() {
    let f = func(
        vec![IrType::I8, IrType::I8, IrType::I8],
        vec![block(
            vec![0, 1],
            vec![inst(0, OpKind::Udiv, "udiv", InstData::Binary { a: 0, b: 1 }, vec![2]), ret(1, vec![2])],
        )],
    );
    let mut sim = Simulator::new(0);
    let result = run(&mut sim, &f, &[SimValue::I8(-56), SimValue::I8(2)]);
    assert!(result.error.is_none(), "{:?}", result.error);
    assert_eq!(result.returns, vec![SimValue::I8(100)]);
}

// `icmp_imm` wraps the immediate to the operand's width: 200 is -56 as i8.
#[test]
fn icmp_imm_wraps_immediate_to_operand_width() {
    let f = func(
        vec![IrType::I8, IrType::I8],
        vec![block(
            vec![0],
            vec![
                inst(
                    0,
                    OpKind::Other,
                    "icmp_imm",
                    InstData::IntCompareImm { cond: IntCC::SignedLessThan, arg: 0, imm: 200 },
                    vec![1],
                ),
                ret(1, vec![1]),
            ],
        )],
    );
    let mut sim = Simulator::new(0);
    let result = run(&mut sim, &f, &[SimValue::I8(0)]);
    assert!(result.error.is_none(), "{:?}", result.error);
    assert_eq!(result.returns, vec![SimValue::I8(0)]);
}

// A block that jumps to itself is stopped by `max_steps`.
#[test]
fn infinite_loop_halts_on_step_limit() {
    let f = func(
        vec![],
        vec![
            block(vec![], vec![inst(0, OpKind::Other, "jump", InstData::Jump { destination: call_to(1, &[]) }, vec![])]),
            block(vec![], vec![inst(1, OpKind::Other, "jump", InstData::Jump { destination: call_to(1, &[]) }, vec![])]),
        ],
    );
    let mut sim = Simulator::new(0);
    sim.max_steps = 1_000;
    let result = run(&mut sim, &f, &[]);
    assert!(
        matches!(result.error, Some(SimError::StepLimitExceeded { limit: 1_000 })),
        "expected StepLimitExceeded, got {:?}",
        result.error
    );
}
