use z80::{
    memory_diff, run_case, step_outcome, Bus, Context, Executor, MemoryImage, RunOutcome, TestCase,
    VectorParser, WordReg,
};

/// A small engine for the tests: NOP, LD BC,nn, LD (nn),A, OUT (n),A and HALT, interrupt
/// mode 1 and NMI.
struct Tiny;

impl Executor for Tiny {
    fn step<B: Bus>(&mut self, cpu: &mut Context, bus: &mut B) {
        if cpu.nmi_req == 1 {
            cpu.nmi_req = 0;
            cpu.iff2 = cpu.iff1;
            cpu.iff1 = 0;
            cpu.halted = 0;
            cpu.pc = 0x66;
            cpu.tstates += 11;
            return;
        }
        if cpu.int_req == 1 && cpu.iff1 == 1 && cpu.defer_int == 0 {
            cpu.int_req = 0;
            cpu.iff1 = 0;
            cpu.iff2 = 0;
            cpu.halted = 0;
            let sp = cpu.main.read_wide(WordReg::SP).wrapping_sub(2);
            cpu.main.write_wide(WordReg::SP, sp);
            bus.mem_write(cpu.mem_param, sp, (cpu.pc & 0xff) as u8);
            bus.mem_write(cpu.mem_param, sp.wrapping_add(1), (cpu.pc >> 8) as u8);
            cpu.pc = 0x38;
            cpu.tstates += 13;
            return;
        }
        let op = bus.mem_read(cpu.mem_param, cpu.pc);
        let arg = |bus: &mut B, k: u16| bus.mem_read(0, cpu.pc.wrapping_add(k));
        match op {
            0x01 => {
                let lo = arg(bus, 1);
                let hi = arg(bus, 2);
                cpu.main.write_wide(WordReg::BC, ((hi as u16) << 8) | lo as u16);
                cpu.pc = cpu.pc.wrapping_add(3);
                cpu.tstates += 10;
            }
            0x32 => {
                let lo = arg(bus, 1);
                let hi = arg(bus, 2);
                let a = cpu.main.read_wide(WordReg::AF) >> 8;
                bus.mem_write(cpu.mem_param, ((hi as u16) << 8) | lo as u16, a as u8);
                cpu.pc = cpu.pc.wrapping_add(3);
                cpu.tstates += 13;
            }
            0xd3 => {
                let port = arg(bus, 1);
                let a = (cpu.main.read_wide(WordReg::AF) >> 8) as u8;
                bus.io_write(cpu.io_param, ((a as u16) << 8) | port as u16, a);
                cpu.pc = cpu.pc.wrapping_add(2);
                cpu.tstates += 11;
            }
            0x76 => {
                cpu.halted = 1;
                cpu.tstates += 4;
            }
            _ => {
                cpu.pc = cpu.pc.wrapping_add(1);
                cpu.tstates += 4;
            }
        }
    }
}

/// Takes a fixed number of cycles per step.
struct Fixed(u32);

impl Executor for Fixed {
    fn step<B: Bus>(&mut self, cpu: &mut Context, _bus: &mut B) {
        cpu.tstates += self.0;
    }
}

/// Never advances the cycle counter.
struct Frozen;

impl Executor for Frozen {
    fn step<B: Bus>(&mut self, _cpu: &mut Context, _bus: &mut B) {}
}

/// A memory image that records every I/O access.
struct Logged {
    mem: MemoryImage,
    io: Vec<(char, u16, u8)>,
}

impl Bus for Logged {
    fn mem_read(&mut self, tag: i32, addr: u16) -> u8 {
        self.mem.mem_read(tag, addr)
    }
    fn mem_write(&mut self, tag: i32, addr: u16, value: u8) {
        self.mem.mem_write(tag, addr, value)
    }
    fn io_read(&mut self, tag: i32, addr: u16) -> u8 {
        let v = self.mem.io_read(tag, addr);
        self.io.push(('R', addr, v));
        v
    }
    fn io_write(&mut self, tag: i32, addr: u16, value: u8) {
        self.io.push(('W', addr, value));
        self.mem.io_write(tag, addr, value)
    }
}

fn parse_one(lines: &[&str]) -> TestCase {
    let mut p = VectorParser::new();
    let mut out = None;
    for l in lines {
        if let Some(c) = p.feed(l.as_bytes()).unwrap() {
            out = Some(c);
        }
    }
    out.unwrap()
}

fn text(bytes: &[u8]) -> String {
    String::from_utf8(bytes.to_vec()).unwrap()
}

#[test]
fn run_until_overshoots_by_at_most_one_instruction() {
    let mut cpu = Context::new();
    let mut mem = MemoryImage::new();
    let r = cpu.run_until(&mut Fixed(7), &mut mem, 10);
    assert_eq!(r, RunOutcome::Reached { last: 7 });
    assert_eq!(cpu.tstates, 14);
    assert!(cpu.tstates - 7 < 10);
}

#[test]
fn run_until_stops_exactly_on_target() {
    let mut cpu = Context::new();
    let mut mem = MemoryImage::new();
    let r = cpu.run_until(&mut Fixed(5), &mut mem, 10);
    assert_eq!(r, RunOutcome::Reached { last: 5 });
    assert_eq!(cpu.tstates, 10);
}

#[test]
fn run_until_past_target_runs_nothing() {
    let mut cpu = Context::new();
    cpu.tstates = 20;
    let mut mem = MemoryImage::new();
    let r = cpu.run_until(&mut Fixed(5), &mut mem, 10);
    assert_eq!(r, RunOutcome::AlreadyReached);
    assert_eq!(cpu.tstates, 20);
    let r = cpu.run_until(&mut Fixed(5), &mut mem, 20);
    assert_eq!(r, RunOutcome::AlreadyReached);
}

#[test]
fn run_until_reports_a_stalled_engine() {
    let mut cpu = Context::new();
    let mut mem = MemoryImage::new();
    let r = cpu.run_until(&mut Frozen, &mut mem, 10);
    assert_eq!(r, RunOutcome::Stalled);
    assert_eq!(cpu.tstates, 0);
}

#[test]
fn execute_returns_cycles_of_one_instruction() {
    let mut cpu = Context::new();
    let mut mem = MemoryImage::new();
    mem.write(0, 0x01);
    mem.write(1, 0x34);
    mem.write(2, 0x12);
    assert_eq!(cpu.execute(&mut Tiny, &mut mem), 10);
    assert_eq!(cpu.main.read_wide(WordReg::BC), 0x1234);
    assert_eq!(cpu.pc, 3);
    assert_eq!(cpu.execute(&mut Fixed(3), &mut mem), 3);
    assert_eq!(cpu.tstates, 13);
}

#[test]
fn execute_tstates_runs_a_budget() {
    let mut cpu = Context::new();
    cpu.tstates = 100;
    let mut mem = MemoryImage::new();
    assert_eq!(
        cpu.execute_tstates(&mut Fixed(4), &mut mem, 10),
        (12, RunOutcome::Reached { last: 4 })
    );
    assert_eq!(cpu.tstates, 112);
    assert_eq!(
        cpu.execute_tstates(&mut Fixed(4), &mut mem, 0),
        (0, RunOutcome::AlreadyReached)
    );
    assert_eq!(cpu.tstates, 112);
    assert_eq!(cpu.execute_tstates(&mut Frozen, &mut mem, 5), (0, RunOutcome::Stalled));
}

#[test]
fn ld_bc_case_reports_registers_and_no_memory_change() {
    let case = parse_one(&[
        "LD BC,1234H",
        "0000 0000 0000 0000 0000 0000 0000 0000 0000 0000 0000 0000",
        "00 00 0 0 0 0 10",
        "0000 01 34 12 -1",
        "-1",
    ]);
    let r = run_case(&case, &mut Tiny);
    assert_eq!(r.cpu.main.read_wide(WordReg::BC), 0x1234);
    assert_eq!(r.cpu.pc, 3);
    assert!(r.cpu.tstates >= 10);
    assert!(r.runs.is_empty());
    assert_eq!(
        text(&r.text),
        "LD BC,1234H\n\
         0000 1234 0000 0000 0000 0000 0000 0000 0000 0000 0000 0003\n\
         00 00 0 0 0 0 10\n\n"
    );
}

#[test]
fn store_case_reports_the_changed_byte() {
    let case = parse_one(&[
        "LD (4001H),A",
        "7f00 0000 0000 0000 0000 0000 0000 0000 0000 0000 0000 0000",
        "00 00 0 0 0 0 13",
        "0000 32 01 40 -1",
        "-1",
    ]);
    let r = run_case(&case, &mut Tiny);
    assert_eq!(r.outcome, RunOutcome::Reached { last: 13 });
    assert_eq!(r.memory.read(0x4001), 0x7f);
    assert_eq!(
        text(&r.text),
        "LD (4001H),A\n\
         7f00 0000 0000 0000 0000 0000 0000 0000 0000 0000 0000 0003\n\
         00 00 0 0 0 0 13\n\
         4001 7f -1\n\n"
    );
}

#[test]
fn repeated_runs_give_identical_reports() {
    let lines = [
        "two stores",
        "aa00 0000 0000 0000 0000 0000 0000 0000 0000 0000 0000 0000",
        "00 00 0 0 0 0 26",
        "0000 32 00 80 32 02 80 -1",
        "-1",
    ];
    let a = run_case(&parse_one(&lines), &mut Tiny);
    let b = run_case(&parse_one(&lines), &mut Tiny);
    assert_eq!(a.text, b.text);
    assert_eq!(a.cpu.tstates, b.cpu.tstates);
    assert_eq!(
        text(&a.text),
        "two stores\n\
         aa00 0000 0000 0000 0000 0000 0000 0000 0000 0000 0000 0006\n\
         00 00 0 0 0 0 26\n\
         8000 aa -1\n\
         8002 aa -1\n\n"
    );
}

#[test]
fn interrupt_waits_for_the_instruction_boundary() {
    let mut cpu = Context::new();
    cpu.iff1 = 1;
    cpu.iff2 = 1;
    cpu.im = 1;
    cpu.main.write_wide(WordReg::SP, 0x8000);
    let mut bus = Logged { mem: MemoryImage::new(), io: Vec::new() };
    bus.mem.write(0, 0x00);
    bus.mem.write(1, 0x00);
    assert_eq!(cpu.execute(&mut Tiny, &mut bus), 4);
    cpu.interrupt(0x38);
    assert_eq!(cpu.pc, 1);
    assert_eq!((cpu.int_req, cpu.int_vector), (1, 0x38));
    assert!(bus.io.is_empty());
    assert_eq!(cpu.execute(&mut Tiny, &mut bus), 13);
    assert_eq!(cpu.pc, 0x38);
    assert_eq!(cpu.int_req, 0);
    assert!(bus.io.is_empty());
    assert_eq!(bus.mem.read(0x7ffe), 0x01);
    assert_eq!(bus.mem.read(0x7fff), 0x00);
}

#[test]
fn interrupt_is_not_taken_while_disabled() {
    let mut cpu = Context::new();
    let mut mem = MemoryImage::new();
    mem.write(0, 0x00);
    cpu.interrupt(0xff);
    assert_eq!(cpu.execute(&mut Tiny, &mut mem), 4);
    assert_eq!(cpu.pc, 1);
    assert_eq!(cpu.int_req, 1);
}

#[test]
fn nmi_is_taken_at_the_next_boundary() {
    let mut cpu = Context::new();
    cpu.iff1 = 1;
    let mut mem = MemoryImage::new();
    cpu.non_maskable_interrupt();
    assert_eq!(cpu.execute(&mut Tiny, &mut mem), 11);
    assert_eq!(cpu.pc, 0x66);
    assert_eq!((cpu.iff1, cpu.iff2, cpu.nmi_req), (0, 1, 0));
}

#[test]
fn io_writes_reach_the_bus() {
    let mut cpu = Context::new();
    cpu.main.write_wide(WordReg::AF, 0x1200);
    let mut bus = Logged { mem: MemoryImage::new(), io: Vec::new() };
    bus.mem.write(0, 0xd3);
    bus.mem.write(1, 0xfe);
    cpu.execute(&mut Tiny, &mut bus);
    assert_eq!(bus.io, vec![('W', 0x12fe, 0x12)]);
    let mut m = MemoryImage::new();
    assert_eq!(m.io_read(0, 0xabcd), 0xab);
}

#[test]
fn memory_background_repeats_deadbeef() {
    let m = MemoryImage::new();
    assert_eq!(m.len(), 65536);
    assert_eq!(
        [m.read(0), m.read(1), m.read(2), m.read(3), m.read(4), m.read(0xffff)],
        [0xde, 0xad, 0xbe, 0xef, 0xde, 0xef]
    );
    assert_eq!(m.snapshot().len(), 65536);
}

#[test]
fn diff_lists_each_changed_address_once() {
    let before = [1u8, 9, 9, 4, 9, 6];
    let after = [1u8, 2, 3, 4, 5, 6];
    let runs = memory_diff(&after, &before);
    assert_eq!(runs.len(), 2);
    assert_eq!((runs[0].start, runs[0].bytes.clone()), (1, vec![2, 3]));
    assert_eq!((runs[1].start, runs[1].bytes.clone()), (4, vec![5]));
}

#[test]
fn diff_of_equal_images_is_empty() {
    let a = [0xdeu8, 0xad, 0xbe, 0xef];
    assert!(memory_diff(&a, &a).is_empty());
    assert!(memory_diff(&[], &[]).is_empty());
}

#[test]
fn diff_run_reaching_the_end() {
    let before = [0u8, 0, 0];
    let after = [1u8, 0, 2];
    let runs = memory_diff(&after, &before);
    assert_eq!(runs.len(), 2);
    assert_eq!((runs[0].start, runs[0].bytes.clone()), (0, vec![1]));
    assert_eq!((runs[1].start, runs[1].bytes.clone()), (2, vec![2]));
    let all = memory_diff(&[5u8, 6, 7], &before);
    assert_eq!(all.len(), 1);
    assert_eq!((all[0].start, all[0].bytes.clone()), (0, vec![5, 6, 7]));
}

#[test]
fn step_outcome_decides_the_run() {
    assert_eq!(step_outcome(10, 10, 20), Some(RunOutcome::Stalled));
    assert_eq!(step_outcome(10, 5, 20), Some(RunOutcome::Stalled));
    assert_eq!(step_outcome(10, 14, 20), None);
    assert_eq!(step_outcome(10, 20, 20), Some(RunOutcome::Reached { last: 10 }));
    assert_eq!(step_outcome(17, 24, 20), Some(RunOutcome::Reached { last: 7 }));
}

#[test]
fn case_with_zero_target_runs_nothing() {
    let case = parse_one(&[
        "nothing runs",
        "1234 0000 0000 0000 0000 0000 0000 0000 0000 0000 0000 0100",
        "00 00 0 0 0 0 0",
        "0100 32 00 80 -1",
        "-1",
    ]);
    let r = run_case(&case, &mut Tiny);
    assert_eq!(r.outcome, RunOutcome::AlreadyReached);
    assert_eq!(r.cpu.pc, 0x100);
    assert_eq!(r.cpu.tstates, 0);
    assert!(r.runs.is_empty());
    assert_eq!(r.memory.read(0x100), 0x32);
}
