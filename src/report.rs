use vstd::prelude::*;

use crate::cpu::Context;
use crate::diff::DiffRun;
use crate::registers::WordReg;

verus! {

/// Lower-case hexadecimal digit of a value below 16.
pub open spec fn hex_digit(d: int) -> u8 {
    if d < 10 {
        (0x30 + d) as u8
    } else {
        (0x61 + d - 10) as u8
    }
}

/// The last `w` hexadecimal digits of `v`, zero-padded.
pub open spec fn hex_text(v: nat, w: nat) -> Seq<u8>
    decreases w,
{
    if w == 0 {
        Seq::empty()
    } else {
        hex_text(v / 16, (w - 1) as nat).push(hex_digit((v % 16) as int))
    }
}

/// `n` in decimal, without leading zeros.
pub open spec fn dec_text(n: nat) -> Seq<u8>
    decreases n,
{
    if n < 10 {
        seq![(0x30 + n) as u8]
    } else {
        dec_text(n / 10).push((0x30 + n % 10) as u8)
    }
}

fn push_hex(out: &mut Vec<u8>, v: u64, w: usize)
    ensures
        final(out)@ == old(out)@ + hex_text(v as nat, w as nat),
    decreases w,
{
    if w == 0 {
        assert(old(out)@ + Seq::<u8>::empty() =~= old(out)@);
        return;
    }
    push_hex(out, v / 16, w - 1);
    let d = v % 16;
    let c: u8 = if d < 10 {
        (0x30 + d) as u8
    } else {
        (0x61 + d - 10) as u8
    };
    out.push(c);
    assert(final(out)@ =~= old(out)@ + hex_text(v as nat, w as nat));
}

fn push_dec(out: &mut Vec<u8>, n: u64)
    ensures
        final(out)@ == old(out)@ + dec_text(n as nat),
    decreases n,
{
    if n < 10 {
        out.push((0x30 + n) as u8);
        assert(final(out)@ =~= old(out)@ + dec_text(n as nat));
        return;
    }
    push_dec(out, n / 10);
    out.push((0x30 + n % 10) as u8);
    assert(final(out)@ =~= old(out)@ + dec_text(n as nat));
}

/// The twelve register words in report order: AF BC DE HL, their shadows, IX IY SP PC.
pub open spec fn report_words(c: Context) -> Seq<u16> {
    seq![
        c.main.word(WordReg::AF),
        c.main.word(WordReg::BC),
        c.main.word(WordReg::DE),
        c.main.word(WordReg::HL),
        c.alt.word(WordReg::AF),
        c.alt.word(WordReg::BC),
        c.alt.word(WordReg::DE),
        c.alt.word(WordReg::HL),
        c.main.word(WordReg::IX),
        c.main.word(WordReg::IY),
        c.main.word(WordReg::SP),
        c.pc,
    ]
}

/// Words as four hexadecimal digits each, separated by single spaces.
pub open spec fn words_text(ws: Seq<u16>) -> Seq<u8>
    decreases ws.len(),
{
    if ws.len() == 0 {
        Seq::empty()
    } else if ws.len() == 1 {
        hex_text(ws[0] as nat, 4)
    } else {
        words_text(ws.drop_last()) + seq![0x20u8] + hex_text(ws.last() as nat, 4)
    }
}

/// The two register lines of a report.
pub open spec fn registers_text(c: Context) -> Seq<u8> {
    words_text(report_words(c)) + seq![0x0au8] + hex_text(c.i as nat, 2) + seq![0x20u8]
        + hex_text(c.r as nat, 2) + seq![0x20u8] + dec_text(c.iff1 as nat) + seq![0x20u8]
        + dec_text(c.iff2 as nat) + seq![0x20u8] + dec_text(c.im as nat) + seq![0x20u8]
        + dec_text(c.halted as nat) + seq![0x20u8] + dec_text(c.tstates as nat) + seq![0x0au8]
}

/// Bytes as two hexadecimal digits each, each followed by a space.
pub open spec fn bytes_text(bs: Seq<u8>) -> Seq<u8>
    decreases bs.len(),
{
    if bs.len() == 0 {
        Seq::empty()
    } else {
        bytes_text(bs.drop_last()) + hex_text(bs.last() as nat, 2) + seq![0x20u8]
    }
}

/// One line of a memory diff: the start address, the new bytes, and the end marker.
pub open spec fn run_text(r: DiffRun) -> Seq<u8> {
    hex_text(r.start as nat, 4) + seq![0x20u8] + bytes_text(r.bytes@) + seq![0x2du8, 0x31u8, 0x0au8]
}

/// The lines of a memory diff, one per run.
pub open spec fn diff_text(runs: Seq<DiffRun>) -> Seq<u8>
    decreases runs.len(),
{
    if runs.len() == 0 {
        Seq::empty()
    } else {
        diff_text(runs.drop_last()) + run_text(runs.last())
    }
}

/// The report of one case: its label, the registers, the memory diff and a blank line.
pub open spec fn case_text(description: Seq<u8>, c: Context, runs: Seq<DiffRun>) -> Seq<u8> {
    description + seq![0x0au8] + registers_text(c) + diff_text(runs) + seq![0x0au8]
}

fn report_word(c: &Context, k: usize) -> (w: u16)
    requires
        k < 12,
    ensures
        w == report_words(*c)[k as int],
{
    if k == 0 {
        c.main.read_wide(WordReg::AF)
    } else if k == 1 {
        c.main.read_wide(WordReg::BC)
    } else if k == 2 {
        c.main.read_wide(WordReg::DE)
    } else if k == 3 {
        c.main.read_wide(WordReg::HL)
    } else if k == 4 {
        c.alt.read_wide(WordReg::AF)
    } else if k == 5 {
        c.alt.read_wide(WordReg::BC)
    } else if k == 6 {
        c.alt.read_wide(WordReg::DE)
    } else if k == 7 {
        c.alt.read_wide(WordReg::HL)
    } else if k == 8 {
        c.main.read_wide(WordReg::IX)
    } else if k == 9 {
        c.main.read_wide(WordReg::IY)
    } else if k == 10 {
        c.main.read_wide(WordReg::SP)
    } else {
        c.pc
    }
}

fn push_space(out: &mut Vec<u8>)
    ensures
        final(out)@ == old(out)@ + seq![0x20u8],
{
    out.push(0x20);
    assert(final(out)@ =~= old(out)@ + seq![0x20u8]);
}

fn push_newline(out: &mut Vec<u8>)
    ensures
        final(out)@ == old(out)@ + seq![0x0au8],
{
    out.push(0x0a);
    assert(final(out)@ =~= old(out)@ + seq![0x0au8]);
}

/// Appends the two register lines of a report.
pub fn push_registers(out: &mut Vec<u8>, c: &Context)
    ensures
        final(out)@ == old(out)@ + registers_text(*c),
{
    let ghost ws = report_words(*c);
    let ghost start = out@;
    let mut k: usize = 0;
    while k < 12
        invariant
            k <= 12,
            ws == report_words(*c),
            ws.len() == 12,
            out@ == start + words_text(ws.take(k as int)),
        decreases 12 - k,
    {
        let ghost before = out@;
        let ghost t = ws.take(k as int + 1);
        assert(t.drop_last() =~= ws.take(k as int));
        if k > 0 {
            push_space(out);
        }
        push_hex(out, report_word(c, k) as u64, 4);
        proof {
            if k == 0 {
                assert(words_text(t) == hex_text(ws[0] as nat, 4));
                assert(words_text(ws.take(0)) =~= Seq::<u8>::empty());
            }
        }
        assert(out@ =~= start + words_text(t));
        k = k + 1;
    }
    assert(ws.take(12) =~= ws);
    push_newline(out);
    push_hex(out, c.i as u64, 2);
    push_space(out);
    push_hex(out, c.r as u64, 2);
    push_space(out);
    push_dec(out, c.iff1 as u64);
    push_space(out);
    push_dec(out, c.iff2 as u64);
    push_space(out);
    push_dec(out, c.im as u64);
    push_space(out);
    push_dec(out, c.halted as u64);
    push_space(out);
    push_dec(out, c.tstates as u64);
    push_newline(out);
    assert(out@ =~= start + registers_text(*c));
}

/// Appends the lines of a memory diff.
pub fn push_diff(out: &mut Vec<u8>, runs: &Vec<DiffRun>)
    ensures
        final(out)@ == old(out)@ + diff_text(runs@),
{
    let ghost start = out@;
    let mut k: usize = 0;
    while k < runs.len()
        invariant
            k <= runs@.len(),
            out@ == start + diff_text(runs@.take(k as int)),
        decreases runs@.len() - k,
    {
        let ghost t = runs@.take(k as int + 1);
        assert(t.drop_last() =~= runs@.take(k as int));
        let r = &runs[k];
        let ghost line_start = out@;
        push_hex(out, r.start as u64, 4);
        push_space(out);
        let ghost bytes_start = out@;
        let mut j: usize = 0;
        while j < r.bytes.len()
            invariant
                j <= r.bytes@.len(),
                out@ == bytes_start + bytes_text(r.bytes@.take(j as int)),
            decreases r.bytes@.len() - j,
        {
            let ghost bt = r.bytes@.take(j as int + 1);
            assert(bt.drop_last() =~= r.bytes@.take(j as int));
            push_hex(out, r.bytes[j] as u64, 2);
            push_space(out);
            assert(out@ =~= bytes_start + bytes_text(bt));
            j = j + 1;
        }
        assert(r.bytes@.take(r.bytes@.len() as int) =~= r.bytes@);
        out.push(0x2d);
        out.push(0x31);
        out.push(0x0a);
        assert(out@ =~= line_start + run_text(*r));
        assert(out@ =~= start + diff_text(t));
        k = k + 1;
    }
    assert(runs@.take(runs@.len() as int) =~= runs@);
}

/// The full report of one case.
pub fn format_case(description: &[u8], c: &Context, runs: &Vec<DiffRun>) -> (out: Vec<u8>)
    ensures
        out@ == case_text(description@, *c, runs@),
{
    let mut out = vstd::slice::slice_to_vec(description);
    push_newline(&mut out);
    push_registers(&mut out, c);
    push_diff(&mut out, runs);
    push_newline(&mut out);
    assert(out@ =~= case_text(description@, *c, runs@));
    out
}

} // verus!
