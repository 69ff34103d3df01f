use z80::{ByteReg, Context, Registers, WordReg};

#[test]
fn wide_write_reads_back_with_both_halves() {
    let pairs = [
        (WordReg::AF, ByteReg::A, ByteReg::F),
        (WordReg::BC, ByteReg::B, ByteReg::C),
        (WordReg::DE, ByteReg::D, ByteReg::E),
        (WordReg::HL, ByteReg::H, ByteReg::L),
        (WordReg::IX, ByteReg::IXH, ByteReg::IXL),
        (WordReg::IY, ByteReg::IYH, ByteReg::IYL),
        (WordReg::SP, ByteReg::SPH, ByteReg::SPL),
    ];
    for (pair, hi, lo) in pairs.iter() {
        for v in [0x0000u16, 0x1234, 0xff00, 0x00ff, 0xffff, 0xa55a].iter() {
            let mut r = Registers::zeroed();
            r.write_wide(*pair, *v);
            assert_eq!(r.read_wide(*pair), *v);
            let h = r.read_byte(*hi);
            let l = r.read_byte(*lo);
            assert_eq!(((h as u16) << 8) | l as u16, *v);
        }
    }
}

#[test]
fn byte_write_keeps_other_half_and_pairs() {
    let mut r = Registers::zeroed();
    r.write_wide(WordReg::BC, 0x1234);
    r.write_wide(WordReg::DE, 0xbeef);
    r.write_byte(ByteReg::B, 0xab);
    assert_eq!(r.read_wide(WordReg::BC), 0xab34);
    r.write_byte(ByteReg::C, 0xcd);
    assert_eq!(r.read_wide(WordReg::BC), 0xabcd);
    assert_eq!(r.read_wide(WordReg::DE), 0xbeef);
    assert_eq!(r.read_byte(ByteReg::A), 0);
}

#[test]
fn word_registers_name_each_pair() {
    let mut r = Registers::zeroed();
    r.write_wide(WordReg::AF, 1);
    r.write_wide(WordReg::BC, 2);
    r.write_wide(WordReg::DE, 3);
    r.write_wide(WordReg::HL, 4);
    r.write_wide(WordReg::IX, 5);
    r.write_wide(WordReg::IY, 6);
    r.write_wide(WordReg::SP, 7);
    let w = r.word_registers();
    assert_eq!((w.af, w.bc, w.de, w.hl, w.ix, w.iy, w.sp), (1, 2, 3, 4, 5, 6, 7));
    assert_eq!(r.data, [1, 2, 3, 4, 5, 6, 7]);
}

fn dirty_context() -> Context {
    let mut c = Context::new();
    c.main.write_wide(WordReg::HL, 0x4000);
    c.alt.write_wide(WordReg::AF, 0x1111);
    c.pc = 0x1234;
    c.iff1 = 1;
    c.iff2 = 1;
    c.im = 2;
    c.halted = 1;
    c.tstates = 99;
    c.interrupt(0x38);
    c.non_maskable_interrupt();
    c
}

fn same_state(a: &Context, b: &Context) -> bool {
    a.main.data == b.main.data
        && a.alt.data == b.alt.data
        && (a.pc, a.r, a.i, a.iff1, a.iff2, a.im, a.halted, a.tstates)
            == (b.pc, b.r, b.i, b.iff1, b.iff2, b.im, b.halted, b.tstates)
        && (a.nmi_req, a.int_req, a.defer_int, a.int_vector, a.exec_int_vector)
            == (b.nmi_req, b.int_req, b.defer_int, b.int_vector, b.exec_int_vector)
}

#[test]
fn reset_gives_the_same_state_from_any_state() {
    let mut a = dirty_context();
    let mut b = Context::new();
    b.tstates = 5;
    a.reset();
    b.reset();
    assert!(same_state(&a, &b));
    assert!(same_state(&a, &Context::new()));
    a.reset();
    assert!(same_state(&a, &b));
    assert_eq!(a.tstates, 0);
    assert_eq!(a.iff1, 0);
    assert_eq!(a.iff2, 0);
}

#[test]
fn reset_keeps_bus_tags() {
    let mut c = dirty_context();
    c.mem_param = 7;
    c.io_param = -3;
    c.reset();
    assert_eq!((c.mem_param, c.io_param), (7, -3));
}

#[test]
fn interrupt_requests_latch() {
    let mut c = Context::new();
    c.interrupt(0x38);
    assert_eq!((c.int_req, c.int_vector), (1, 0x38));
    c.set_irq_line(false);
    assert_eq!(c.int_req, 0);
    c.set_irq_line(true);
    assert_eq!(c.int_req, 1);
    c.non_maskable_interrupt();
    assert_eq!(c.nmi_req, 1);
}

#[test]
fn halted_is_the_sentinel_only() {
    let mut c = Context::new();
    assert!(!c.is_halted());
    c.halted = 1;
    assert!(c.is_halted());
    c.halted = 2;
    assert!(!c.is_halted());
}
