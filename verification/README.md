# lower_ir_utils

Helpers for calling Rust from Cranelift JIT code, with a verified core.

`src/` is checked by Verus:

- `sim/` — an interpreter for a plain model of finalized Cranelift IR
  (`ir::IrFunction`): integer arithmetic, casts, compares, `select`,
  little-endian loads and stores on a flat byte memory, branches, `return`
  and stubbed calls. Float arithmetic is handed to the caller as a
  `FloatRequest` and the run resumes with the result. `laws.rs` and
  `memory.rs` hold properties of whole runs and of the memory model;
  `dump.rs` renders the debug dump and the hexdump.
- `datetime.rs` — the `i32` lanes that chrono's naive date/time wrappers
  lower to.
- `disasm.rs` — the Capstone-backed listing of machine code.
- `export.rs` — what the `jit_export` attribute accepts and the helper
  module it plans.
- `text.rs` — decimal/hex rendering used by the above.

`app/` is the Cranelift-facing layer: the `JitParam`/`JitArg` traits,
function building, the signature and call macros, the tokio build helper,
conversion of Cranelift `Function`s into the simulator's model, float
evaluation and text output, disassembly capture, and the token expansion of
`jit_export`.
