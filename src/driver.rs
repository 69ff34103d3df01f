use vstd::prelude::*;

use crate::cpu::{Bus, Context};

verus! {

/// The instruction engine: decodes and runs whole instructions against a CPU state and a bus.
///
/// A step runs one instruction, or takes a pending interrupt at the instruction boundary, and
/// adds the cycles it took to `cpu.tstates`. Nothing here relies on what an engine does: every
/// result below holds of any engine.
pub trait Executor {
    fn step<B: Bus>(&mut self, cpu: &mut Context, bus: &mut B);
}

/// How a run towards a cycle deadline ended.
#[derive(Clone, Copy, Debug, PartialEq, Eq, Structural)]
pub enum RunOutcome {
    /// The counter was at or past the deadline already; nothing ran.
    AlreadyReached,
    /// The deadline was reached; `last` is the cycle cost of the final instruction, which
    /// started below the deadline.
    Reached { last: u32 },
    /// The engine took a step that did not advance the cycle counter; the run stopped there,
    /// below the deadline.
    Stalled,
}

impl Context {
    /// Runs one instruction and returns the cycles it took (modulo 2^32, as the counter wraps).
    pub fn execute<E: Executor, B: Bus>(&mut self, exec: &mut E, bus: &mut B) -> (r: u32)
        ensures
            r as int == (final(self).tstates as int - old(self).tstates as int) % 0x1_0000_0000,
    {
        let tstates_pre = self.tstates;
        exec.step(self, bus);
        let tstates_post = self.tstates;
        tstates_post.wrapping_sub(tstates_pre)
    }

    /// Steps while the cycle counter is below `target`.
    ///
    /// After each step [`step_outcome`] decides from the counter before and after it whether
    /// the run goes on. The last instruction may take the counter past `target`: instructions
    /// are never cut short, so the overshoot is below the cost of that one instruction.
    pub fn run_until<E: Executor, B: Bus>(&mut self, exec: &mut E, bus: &mut B, target: u32) -> (r:
        RunOutcome)
        ensures
            (r == RunOutcome::AlreadyReached) <==> old(self).tstates >= target,
            r == RunOutcome::AlreadyReached ==> *final(self) == *old(self) && *final(bus) == *old(
                bus,
            ),
            r == RunOutcome::Stalled ==> final(self).tstates < target,
            match r {
                RunOutcome::Reached { last } => {
                    &&& final(self).tstates >= target
                    &&& 0 < last <= final(self).tstates
                    &&& old(self).tstates <= final(self).tstates - last < target
                },
                _ => true,
            },
    {
        if self.tstates >= target {
            return RunOutcome::AlreadyReached;
        }
        let ghost start = self.tstates;
        while self.tstates < target
            invariant
                start == old(self).tstates,
                start <= self.tstates < target,
            decreases target - self.tstates,
        {
            let before = self.tstates;
            exec.step(self, bus);
            match step_outcome(before, self.tstates, target) {
                Some(o) => {
                    return o;
                },
                None => {},
            }
        }
        RunOutcome::Stalled
    }

    /// Runs whole instructions until at least `cycles` cycles have passed. Returns the cycles
    /// that did pass, overshoot included, and how the run ended; fewer than `cycles` pass only
    /// where the engine stalled.
    pub fn execute_tstates<E: Executor, B: Bus>(&mut self, exec: &mut E, bus: &mut B, cycles: u32) -> (r:
        (u32, RunOutcome))
        requires
            old(self).tstates + cycles <= u32::MAX,
        ensures
            r.0 as int == (final(self).tstates as int - old(self).tstates as int) % 0x1_0000_0000,
            final(self).tstates >= old(self).tstates ==> r.0 as int == final(self).tstates
                - old(self).tstates,
            (r.1 == RunOutcome::AlreadyReached) <==> cycles == 0,
            r.1 == RunOutcome::AlreadyReached ==> r.0 == 0 && *final(self) == *old(self)
                && *final(bus) == *old(bus),
            r.1 != RunOutcome::Stalled ==> r.0 >= cycles && final(self).tstates >= old(
                self,
            ).tstates,
            r.1 == RunOutcome::Stalled ==> final(self).tstates < old(self).tstates + cycles,
            match r.1 {
                RunOutcome::Reached { last } => 0 < last <= r.0 && r.0 - last < cycles,
                _ => true,
            },
    {
        let start = self.tstates;
        let outcome = self.run_until(exec, bus, start + cycles);
        (self.tstates.wrapping_sub(start), outcome)
    }
}

/// The decision after one step, from the cycle counter before and after it: a step that did
/// not advance the counter stalls the run; one that reaches `target` ends it, with the cycles
/// it took; otherwise the run goes on (`None`).
pub fn step_outcome(before: u32, after: u32, target: u32) -> (r: Option<RunOutcome>)
    ensures
        after <= before ==> r == Some(RunOutcome::Stalled),
        before < after && after >= target ==> r == Some(RunOutcome::Reached { last: (after - before) as u32 }),
        before < after && after < target ==> r is None,
{
    if after <= before {
        Some(RunOutcome::Stalled)
    } else if after >= target {
        Some(RunOutcome::Reached { last: after - before })
    } else {
        None
    }
}

} // verus!
