use vstd::prelude::*;

use crate::registers::{Registers, WordReg};

verus! {

/// Value of the halt flag while the CPU sits in a HALT instruction.
pub const HALTED: u8 = 1;

/// Opaque context handed through to an embedder's bus.
pub struct UserData;

/// Memory and I/O address spaces, supplied by the embedder and driven by the executor.
///
/// Each access carries the integer tag that the CPU state holds for its space.
pub trait Bus {
    fn mem_read(&mut self, tag: i32, addr: u16) -> u8;

    fn mem_write(&mut self, tag: i32, addr: u16, value: u8);

    fn io_read(&mut self, tag: i32, addr: u16) -> u8;

    fn io_write(&mut self, tag: i32, addr: u16, value: u8);
}

/// Architectural state of one machine: two register files, the special registers, the
/// interrupt latches and the cycle counter.
#[derive(Clone, Copy, Debug)]
pub struct Context {
    /// Primary register file.
    pub main: Registers,
    /// Shadow register file.
    pub alt: Registers,
    pub pc: u16,
    /// Refresh counter.
    pub r: u8,
    /// Interrupt vector base.
    pub i: u8,
    pub iff1: u8,
    pub iff2: u8,
    /// Interrupt mode.
    pub im: u8,
    /// Tag passed with every memory access.
    pub mem_param: i32,
    /// Tag passed with every I/O access.
    pub io_param: i32,
    pub halted: u8,
    /// Cycles executed so far.
    pub tstates: u32,
    pub nmi_req: u8,
    pub int_req: u8,
    /// Holds a maskable interrupt back for one instruction after interrupts were enabled.
    pub defer_int: u8,
    /// Value put on the data bus by the pending maskable interrupt.
    pub int_vector: u8,
    pub exec_int_vector: u8,
}

/// Every pair of a register file is zero.
pub open spec fn regs_zero(r: Registers) -> bool {
    forall|p: WordReg| #[trigger] r.word(p) == 0
}

impl Context {
    /// The power-on configuration: every register, latch and counter zero, interrupts
    /// disabled. The bus tags are configuration of the embedder and are not part of it.
    pub open spec fn is_power_on(&self) -> bool {
        &&& regs_zero(self.main)
        &&& regs_zero(self.alt)
        &&& self.pc == 0
        &&& self.r == 0
        &&& self.i == 0
        &&& self.iff1 == 0
        &&& self.iff2 == 0
        &&& self.im == 0
        &&& self.halted == 0
        &&& self.tstates == 0
        &&& self.nmi_req == 0
        &&& self.int_req == 0
        &&& self.defer_int == 0
        &&& self.int_vector == 0
        &&& self.exec_int_vector == 0
    }

    /// Two states agree on every register, latch and counter.
    pub open spec fn same_cpu_state(&self, o: &Context) -> bool {
        &&& self.main.data@ == o.main.data@
        &&& self.alt.data@ == o.alt.data@
        &&& self.pc == o.pc
        &&& self.r == o.r
        &&& self.i == o.i
        &&& self.iff1 == o.iff1
        &&& self.iff2 == o.iff2
        &&& self.im == o.im
        &&& self.halted == o.halted
        &&& self.tstates == o.tstates
        &&& self.nmi_req == o.nmi_req
        &&& self.int_req == o.int_req
        &&& self.defer_int == o.defer_int
        &&& self.int_vector == o.int_vector
        &&& self.exec_int_vector == o.exec_int_vector
    }

    /// A CPU in its power-on configuration, with both bus tags zero.
    pub fn new() -> (c: Context)
        ensures
            c.is_power_on(),
            c.mem_param == 0,
            c.io_param == 0,
    {
        Context {
            main: Registers::zeroed(),
            alt: Registers::zeroed(),
            pc: 0,
            r: 0,
            i: 0,
            iff1: 0,
            iff2: 0,
            im: 0,
            mem_param: 0,
            io_param: 0,
            halted: 0,
            tstates: 0,
            nmi_req: 0,
            int_req: 0,
            defer_int: 0,
            int_vector: 0,
            exec_int_vector: 0,
        }
    }

    /// Returns to the power-on configuration, whatever the state was; the bus tags stay.
    pub fn reset(&mut self)
        ensures
            final(self).is_power_on(),
            final(self).mem_param == old(self).mem_param,
            final(self).io_param == old(self).io_param,
    {
        let mem_param = self.mem_param;
        let io_param = self.io_param;
        *self = Context::new();
        self.mem_param = mem_param;
        self.io_param = io_param;
    }

    /// Raises (`true`) or lowers (`false`) the maskable interrupt request line.
    pub fn set_irq_line(&mut self, high: bool)
        ensures
            final(self).int_req == (if high { 1u8 } else { 0u8 }),
            final(self).same_cpu_state(&Context { int_req: final(self).int_req, ..*old(self) }),
            final(self).mem_param == old(self).mem_param,
            final(self).io_param == old(self).io_param,
    {
        if high {
            self.int_req = 1;
        } else {
            self.int_req = 0;
        }
    }

    /// Whether the CPU sits in a HALT instruction.
    pub fn is_halted(&self) -> (b: bool)
        ensures
            b == (self.halted == HALTED),
    {
        self.halted == HALTED
    }

    /// Latches a non-maskable interrupt; it is taken at the next instruction boundary.
    pub fn non_maskable_interrupt(&mut self)
        ensures
            final(self).nmi_req == 1,
            final(self).same_cpu_state(&Context { nmi_req: 1, ..*old(self) }),
            final(self).mem_param == old(self).mem_param,
            final(self).io_param == old(self).io_param,
    {
        self.nmi_req = 1;
    }

    /// Latches a maskable interrupt that puts `bus_val` on the data bus when it is taken.
    pub fn interrupt(&mut self, bus_val: u8)
        ensures
            final(self).int_req == 1,
            final(self).int_vector == bus_val,
            final(self).same_cpu_state(&Context { int_req: 1, int_vector: bus_val, ..*old(self) }),
            final(self).mem_param == old(self).mem_param,
            final(self).io_param == old(self).io_param,
    {
        self.int_req = 1;
        self.int_vector = bus_val;
    }
}

/// Resetting gives one and the same state, whatever two machines held before.
pub proof fn lemma_reset_deterministic(a: Context, b: Context)
    requires
        a.is_power_on(),
        b.is_power_on(),
    ensures
        a.same_cpu_state(&b),
{
    assert(a.main.data@ =~= b.main.data@) by {
        assert forall|k: int| 0 <= k < 7 implies a.main.data@[k] == b.main.data@[k] by {
            lemma_every_slot_named(k);
            let p = choose|p: WordReg| crate::registers::word_index(p) == k;
            assert(a.main.word(p) == 0 && b.main.word(p) == 0);
        }
    }
    assert(a.alt.data@ =~= b.alt.data@) by {
        assert forall|k: int| 0 <= k < 7 implies a.alt.data@[k] == b.alt.data@[k] by {
            lemma_every_slot_named(k);
            let p = choose|p: WordReg| crate::registers::word_index(p) == k;
            assert(a.alt.word(p) == 0 && b.alt.word(p) == 0);
        }
    }
}

proof fn lemma_every_slot_named(k: int)
    requires
        0 <= k < 7,
    ensures
        exists|p: WordReg| crate::registers::word_index(p) == k,
{
    if k == 0 {
        assert(crate::registers::word_index(WordReg::AF) == k);
    } else if k == 1 {
        assert(crate::registers::word_index(WordReg::BC) == k);
    } else if k == 2 {
        assert(crate::registers::word_index(WordReg::DE) == k);
    } else if k == 3 {
        assert(crate::registers::word_index(WordReg::HL) == k);
    } else if k == 4 {
        assert(crate::registers::word_index(WordReg::IX) == k);
    } else if k == 5 {
        assert(crate::registers::word_index(WordReg::IY) == k);
    } else {
        assert(crate::registers::word_index(WordReg::SP) == k);
    }
}

} // verus!
