//! Interpreter for a plain model of finalized Cranelift IR.
//!
//! A [`Simulator`] walks an [`ir::IrFunction`] block by block, evaluating
//! each instruction against a flat byte memory and an SSA register table.
//! Integer arithmetic, casts, compares, `select`, loads and stores,
//! branches, `return` and stubbed `call`s are evaluated here; float
//! arithmetic is handed to the caller as a [`FloatRequest`] and the run
//! resumes with its result.

pub mod value;
pub mod ir;
pub mod error;
pub mod arith;
pub mod memory;
pub mod trace;
pub mod float;
pub mod machine;
pub mod simulator;
pub mod laws;
pub mod semantics;
pub mod dump;

pub use self::arith::{FloatBinOp, FloatRequest, FloatWidth};
pub use self::error::SimError;
pub use self::machine::Machine;
pub use self::simulator::{Registers, SimResult, Simulator, DEFAULT_MAX_STEPS};
pub use self::trace::{Line, Piece};
pub use self::value::{IrType, SimValue};
