//! The names that libz80's C interface gives to the state it shares with an embedder.
use vstd::prelude::*;

use crate::cpu::Context;
use crate::registers::{Registers, WordRegisters};

pub use crate::cpu::UserData;

verus! {

/// libz80's `Z80Regs`: one register file.
pub type Z80Regs = Registers;

/// libz80's named-pair view of a register file.
pub type Wr = WordRegisters;

/// libz80's `Z80Context`: the whole CPU state.
pub type Z80Context = Context;

} // verus!
