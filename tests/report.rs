use z80::{format_case, memory_diff, Context, WordReg};

#[test]
fn report_formats_every_field() {
    let mut c = Context::new();
    c.main.write_wide(WordReg::AF, 0xabcd);
    c.main.write_wide(WordReg::BC, 0x0001);
    c.main.write_wide(WordReg::DE, 0x0020);
    c.main.write_wide(WordReg::HL, 0x0300);
    c.alt.write_wide(WordReg::AF, 0x4000);
    c.alt.write_wide(WordReg::BC, 0xffff);
    c.alt.write_wide(WordReg::DE, 0x1234);
    c.alt.write_wide(WordReg::HL, 0x5678);
    c.main.write_wide(WordReg::IX, 0x9abc);
    c.main.write_wide(WordReg::IY, 0xdef0);
    c.main.write_wide(WordReg::SP, 0x0fed);
    c.pc = 0xcba9;
    c.i = 0xab;
    c.r = 0x0c;
    c.iff1 = 1;
    c.iff2 = 1;
    c.im = 2;
    c.halted = 1;
    c.tstates = 4294967295;
    let before = [0u8, 0, 0, 0, 0];
    let after = [0u8, 0x0a, 0xff, 0, 0x10];
    let runs = memory_diff(&after, &before);
    let out = format_case(b"ex af,af'", &c, &runs);
    assert_eq!(
        String::from_utf8(out).unwrap(),
        "ex af,af'\n\
         abcd 0001 0020 0300 4000 ffff 1234 5678 9abc def0 0fed cba9\n\
         ab 0c 1 1 2 1 4294967295\n\
         0001 0a ff -1\n\
         0004 10 -1\n\n"
    );
}

#[test]
fn report_of_power_on_state() {
    let c = Context::new();
    let out = format_case(b"", &c, &Vec::new());
    assert_eq!(
        String::from_utf8(out).unwrap(),
        "\n0000 0000 0000 0000 0000 0000 0000 0000 0000 0000 0000 0000\n00 00 0 0 0 0 0\n\n"
    );
}
