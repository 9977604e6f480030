//! The simulator's public face: configuration, the run entry point, and
//! the outcome of a run.

use vstd::prelude::*;

use crate::sim::error::{SimError, SimErrorV};
use crate::sim::ir::IrFunction;
use crate::sim::machine::{
    lookup, opt_err_view, running, spec_advance, spec_start, trace_view, Machine,
    MachineState,
};
use crate::sim::trace::{Line, PieceV};
use crate::sim::value::SimValue;

verus! {

/// Default instruction budget for a run, used by [`Simulator::new`] and
/// [`Simulator::with_memory`].
pub const DEFAULT_MAX_STEPS: usize = 1_000_000;

/// The SSA register file at the end of a run, indexed by value number.
#[derive(Clone, Debug)]
pub struct Registers {
    pub slots: Vec<Option<SimValue>>,
}

impl Registers {
    /// The value bound to SSA value `v`, if any.
    pub fn get(&self, v: u32) -> (r: Option<SimValue>)
        ensures
            r == lookup(self.slots@, v),
    {
        if (v as usize) < self.slots.len() {
            self.slots[v as usize]
        } else {
            None
        }
    }
}

/// Output of one simulation run. Populated even when the run halted with
/// an error: the fields hold whatever was written up to the fault.
#[derive(Clone, Debug)]
pub struct SimResult {
    /// Values returned by the `return` instruction (empty if the run did
    /// not reach one).
    pub returns: Vec<SimValue>,
    /// SSA register file at the end of the run.
    pub registers: Registers,
    /// Memory contents after the run.
    pub memory: Vec<u8>,
    /// One line per executed instruction, when tracing was on.
    pub trace: Vec<Line>,
    /// `Some(err)` if execution halted before a `return`.
    pub error: Option<SimError>,
}

/// The mathematical content of a [`SimResult`].
pub struct SimResultV {
    pub returns: Seq<SimValue>,
    pub registers: Seq<Option<SimValue>>,
    pub memory: Seq<u8>,
    pub trace: Seq<Seq<PieceV>>,
    pub error: Option<SimErrorV>,
}

impl View for SimResult {
    type V = SimResultV;

    open spec fn view(&self) -> SimResultV {
        SimResultV {
            returns: self.returns@,
            registers: self.registers.slots@,
            memory: self.memory@,
            trace: trace_view(self.trace@),
            error: opt_err_view(self.error),
        }
    }
}

/// What a run that has ended reports.
pub open spec fn result_view(st: MachineState) -> SimResultV {
    SimResultV {
        returns: st.returns,
        registers: st.regs,
        memory: st.memory,
        trace: st.trace,
        error: st.error,
    }
}

/// The state a run of `f` on `args` reaches before it finishes or first
/// needs a float result.
pub open spec fn spec_run(
    f: &IrFunction,
    args: Seq<SimValue>,
    memory: Seq<u8>,
    record_trace: bool,
    max_steps: usize,
) -> MachineState {
    spec_advance(f, spec_start(f, args, memory, record_trace, max_steps))
}

/// The interpreter. Build one with [`Simulator::new`] (zero-filled memory)
/// or [`Simulator::with_memory`] (caller-supplied bytes), then call
/// [`Simulator::run`] for each function to evaluate.
#[derive(Clone, Debug)]
pub struct Simulator {
    memory: Vec<u8>,
    /// If `true`, the result's trace gets one line per executed
    /// instruction. Defaults to `false`.
    pub trace: bool,
    /// Maximum number of instructions a run executes before halting with
    /// `StepLimitExceeded`. Defaults to [`DEFAULT_MAX_STEPS`].
    pub max_steps: usize,
}

/// The configuration and memory of a [`Simulator`].
pub struct SimulatorV {
    pub memory: Seq<u8>,
    pub trace: bool,
    pub max_steps: usize,
}

impl View for Simulator {
    type V = SimulatorV;

    closed spec fn view(&self) -> SimulatorV {
        SimulatorV { memory: self.memory@, trace: self.trace, max_steps: self.max_steps }
    }
}

impl Simulator {
    /// A simulator with `size` bytes of zero-initialized memory.
    pub fn new(size: usize) -> (s: Self)
        ensures
            s@.memory == Seq::new(size as nat, |i: int| 0u8),
            !s@.trace,
            s@.max_steps == DEFAULT_MAX_STEPS,
    {
        let mut memory: Vec<u8> = Vec::new();
        let mut i: usize = 0;
        while i < size
            invariant
                i <= size,
                memory@ =~= Seq::new(i as nat, |j: int| 0u8),
            decreases size - i,
        {
            memory.push(0);
            i = i + 1;
        }
        Simulator { memory, trace: false, max_steps: DEFAULT_MAX_STEPS }
    }

    /// A simulator that takes ownership of a pre-populated byte buffer.
    pub fn with_memory(bytes: Vec<u8>) -> (s: Self)
        ensures
            s@.memory == bytes@,
            !s@.trace,
            s@.max_steps == DEFAULT_MAX_STEPS,
    {
        Simulator { memory: bytes, trace: false, max_steps: DEFAULT_MAX_STEPS }
    }

    /// Turns the per-instruction trace of later runs on or off.
    pub fn set_trace(&mut self, on: bool)
        ensures
            final(self)@ == (SimulatorV { trace: on, ..old(self)@ }),
    {
        self.trace = on;
    }

    /// Sets the instruction budget of later runs.
    pub fn set_max_steps(&mut self, max_steps: usize)
        ensures
            final(self)@ == (SimulatorV { max_steps, ..old(self)@ }),
    {
        self.max_steps = max_steps;
    }

    /// Whether later runs record a trace.
    pub fn trace_enabled(&self) -> (r: bool)
        ensures
            r == self@.trace,
    {
        self.trace
    }

    /// The instruction budget of later runs.
    pub fn max_steps(&self) -> (r: usize)
        ensures
            r == self@.max_steps,
    {
        self.max_steps
    }

    /// Read-only view of the simulator's memory.
    pub fn memory(&self) -> (r: &[u8])
        ensures
            r@ == self@.memory,
    {
        self.memory.as_slice()
    }

    /// Evaluates `f` on `args`. The simulator's memory moves into the run
    /// (the simulator is left with none); the run goes until it finishes or
    /// needs a float operation computed (see [`Machine::resume`]).
    pub fn run(&mut self, f: &IrFunction, args: &[SimValue]) -> (r: Machine)
        requires
            f.wf(),
        ensures
            r@ == spec_run(f, args@, old(self)@.memory, old(self)@.trace, old(self)@.max_steps),
            r.wf(f),
            !running(r@),
            final(self)@.memory == Seq::<u8>::empty(),
            final(self)@.trace == old(self)@.trace,
            final(self)@.max_steps == old(self)@.max_steps,
    {
        let mut memory: Vec<u8> = Vec::new();
        std::mem::swap(&mut memory, &mut self.memory);
        assert(self.memory@ =~= Seq::<u8>::empty());
        Machine::start(f, args, memory, self.trace, self.max_steps)
    }
}

} // verus!
