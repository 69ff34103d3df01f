use vstd::prelude::*;

use crate::cpu::Context;
use crate::diff::{
    is_memory_diff, lemma_diff_of_equal_images, lemma_memory_diff_unique, memory_diff, DiffRun,
};
use crate::driver::{Executor, RunOutcome};
use crate::memory::{patched, MemoryImage, MEMORY_SIZE};
use crate::registers::WordReg;
use crate::report::{case_text, diff_text, format_case, registers_text, report_words, run_text};
use crate::vector::TestCase;

verus! {

/// The memory a case starts from: the background with its patches applied.
pub open spec fn initial_image(patches: Seq<crate::memory::Patch>) -> Seq<u8> {
    Seq::new(MEMORY_SIZE as nat, |a: int| patched(patches, a))
}

/// A CPU in the power-on configuration, then set to a case's initial registers.
pub fn load_case(case: &TestCase) -> (c: Context)
    requires
        case.words@.len() == 12,
    ensures
        report_words(c) == case.words@,
        c.i == case.extra.i,
        c.r == case.extra.r,
        c.iff1 == case.extra.iff1,
        c.iff2 == case.extra.iff2,
        c.im == case.extra.im,
        c.halted == case.extra.halted,
        c.tstates == 0,
        c.nmi_req == 0,
        c.int_req == 0,
        c.defer_int == 0,
        c.int_vector == 0,
        c.exec_int_vector == 0,
        c.mem_param == 0,
        c.io_param == 0,
{
    let mut c = Context::new();
    c.main.write_wide(WordReg::AF, case.words[0]);
    c.main.write_wide(WordReg::BC, case.words[1]);
    c.main.write_wide(WordReg::DE, case.words[2]);
    c.main.write_wide(WordReg::HL, case.words[3]);
    c.alt.write_wide(WordReg::AF, case.words[4]);
    c.alt.write_wide(WordReg::BC, case.words[5]);
    c.alt.write_wide(WordReg::DE, case.words[6]);
    c.alt.write_wide(WordReg::HL, case.words[7]);
    c.main.write_wide(WordReg::IX, case.words[8]);
    c.main.write_wide(WordReg::IY, case.words[9]);
    c.main.write_wide(WordReg::SP, case.words[10]);
    c.pc = case.words[11];
    c.i = case.extra.i;
    c.r = case.extra.r;
    c.iff1 = case.extra.iff1;
    c.iff2 = case.extra.iff2;
    c.im = case.extra.im;
    c.halted = case.extra.halted;
    assert(report_words(c) =~= case.words@);
    c
}

/// What running one case left: the CPU, the memory, the runs of changed memory, how the
/// run ended, and the report text.
pub struct CaseResult {
    pub cpu: Context,
    pub memory: MemoryImage,
    pub runs: Vec<DiffRun>,
    pub outcome: RunOutcome,
    pub text: Vec<u8>,
}

/// Runs a case: builds its memory and CPU, steps the engine until the cycle counter reaches
/// the case's target, and reports the final registers and the memory that changed during
/// the run.
pub fn run_case<E: Executor>(case: &TestCase, exec: &mut E) -> (r: CaseResult)
    requires
        case.words@.len() == 12,
    ensures
        r.text@ == case_text(case.description@, r.cpu, r.runs@),
        is_memory_diff(r.runs@, r.memory@, initial_image(case.patches@)),
        r.outcome == RunOutcome::AlreadyReached <==> case.extra.end_tstates == 0,
        r.outcome != RunOutcome::Stalled ==> r.cpu.tstates >= case.extra.end_tstates,
        match r.outcome {
            RunOutcome::Reached { last } => r.cpu.tstates - last < case.extra.end_tstates,
            _ => true,
        },
        r.outcome == RunOutcome::AlreadyReached ==> {
            &&& report_words(r.cpu) == case.words@
            &&& r.cpu.i == case.extra.i
            &&& r.cpu.r == case.extra.r
            &&& r.cpu.iff1 == case.extra.iff1
            &&& r.cpu.iff2 == case.extra.iff2
            &&& r.cpu.im == case.extra.im
            &&& r.cpu.halted == case.extra.halted
            &&& r.cpu.tstates == 0
            &&& r.memory@ == initial_image(case.patches@)
            &&& r.runs@.len() == 0
        },
{
    let mut memory = MemoryImage::with_patches(&case.patches);
    let before = memory.snapshot();
    assert(before@ =~= initial_image(case.patches@));
    let mut cpu = load_case(case);
    let outcome = cpu.run_until(exec, &mut memory, case.extra.end_tstates);
    let runs = memory_diff(memory.as_slice(), before.as_slice());
    proof {
        if outcome == RunOutcome::AlreadyReached {
            assert(memory@ =~= before@);
            lemma_diff_of_equal_images(runs@, before@);
        }
    }
    let text = format_case(case.description.as_slice(), &cpu, &runs);
    CaseResult { cpu, memory, runs, outcome, text }
}

proof fn lemma_diff_text_agrees(r1: Seq<DiffRun>, r2: Seq<DiffRun>)
    requires
        r1.len() == r2.len(),
        forall|k: int|
            0 <= k < r1.len() ==> (#[trigger] r1[k]).start == r2[k].start && r1[k].bytes@
                == r2[k].bytes@,
    ensures
        diff_text(r1) == diff_text(r2),
    decreases r1.len(),
{
    if r1.len() > 0 {
        let (a, b) = (r1.drop_last(), r2.drop_last());
        assert forall|k: int| 0 <= k < a.len() implies (#[trigger] a[k]).start == b[k].start
            && a[k].bytes@ == b[k].bytes@ by {
            assert(a[k] == r1[k] && b[k] == r2[k]);
        }
        lemma_diff_text_agrees(a, b);
        assert(r1.last().start == r2.last().start);
        assert(run_text(r1.last()) == run_text(r2.last()));
    }
}

/// A case run twice to the same final CPU state and the same memory gives byte-identical
/// reports.
pub proof fn lemma_report_deterministic(
    description: Seq<u8>,
    c1: Context,
    c2: Context,
    r1: Seq<DiffRun>,
    r2: Seq<DiffRun>,
    after: Seq<u8>,
    before: Seq<u8>,
)
    requires
        c1.same_cpu_state(&c2),
        is_memory_diff(r1, after, before),
        is_memory_diff(r2, after, before),
    ensures
        case_text(description, c1, r1) == case_text(description, c2, r2),
{
    lemma_memory_diff_unique(r1, r2, after, before);
    lemma_diff_text_agrees(r1, r2);
    assert(report_words(c1) =~= report_words(c2));
    assert(registers_text(c1) == registers_text(c2));
}

} // verus!
