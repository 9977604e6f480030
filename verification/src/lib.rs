//! Verified core of a Cranelift helper library: an interpreter for a plain
//! model of Cranelift IR, byte-level memory access, text rendering for its
//! debug dumps, the scalar encodings of the chrono wrappers, the decision
//! logic of the `jit_export` attribute, and the disassembly listing format.

pub mod sim;
pub mod text;
pub mod datetime;
pub mod disasm;
pub mod export;

pub use crate::datetime::{JitNaiveDate, JitNaiveDateTime, JitNaiveTime};
pub use crate::disasm::{format_disassembly, DisasmError, JitDisasm};
