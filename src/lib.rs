//! State, control surface and conformance harness of a cycle-stepped Z80 execution engine.
//!
//! The instruction engine itself is an opaque capability ([`Executor`]); this crate holds the
//! register file, the CPU state and its interrupt latches, the loop that drives an engine up
//! to a cycle deadline, the test-vector parser, the memory diff and the report text.
use vstd::prelude::*;

pub mod cpu;
pub mod diff;
pub mod driver;
pub mod ffi;
pub mod harness;
pub mod memory;
pub mod registers;
pub mod report;
pub mod text;
pub mod vector;

pub use cpu::{Bus, Context, UserData, HALTED};
pub use diff::{memory_diff, DiffRun};
pub use driver::{step_outcome, Executor, RunOutcome};
pub use harness::{load_case, run_case, CaseResult};
pub use memory::{MemoryImage, Patch, MEMORY_SIZE};
pub use registers::{ByteReg, Registers, WordReg, WordRegisters};
pub use report::{format_case, push_diff, push_registers};
pub use text::{parse_number, split_fields, trimmed};
pub use vector::{
    parse_extra, parse_general, parse_memory, ExtraRegs, FieldError, ParseError, ParseErrorKind, ParseState,
    TestCase, VectorParser,
};
