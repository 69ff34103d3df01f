use vstd::prelude::*;

use crate::memory::Patch;
use crate::text::{fields, number_field, parse_number, split_fields, trim, trimmed, views};

verus! {

/// The field `-1`, which closes a memory line and, alone on a line, a test case.
pub open spec fn end_marker(t: Seq<u8>) -> bool {
    t == seq![0x2du8, 0x31u8]
}

/// A line that holds the end marker alone.
pub open spec fn is_end_line(toks: Seq<Seq<u8>>) -> bool {
    toks.len() == 1 && end_marker(toks[0])
}

/// A register word: hexadecimal, at most 0xFFFF.
pub open spec fn word_field(t: Seq<u8>) -> Option<int> {
    number_field(t, 16, 0xffff)
}

/// A line of the twelve register words, each valid.
pub open spec fn general_ok(toks: Seq<Seq<u8>>) -> bool {
    toks.len() == 12 && forall|k: int| 0 <= k < 12 ==> (#[trigger] word_field(toks[k])) is Some
}

/// The twelve register words of a valid line.
pub open spec fn general_words(toks: Seq<Seq<u8>>) -> Seq<u16> {
    Seq::new(12, |k: int| word_field(toks[k])->0 as u16)
}

/// Radix of each field of the extra-state line: I and R in hexadecimal, the rest decimal.
pub open spec fn extra_radix(k: int) -> int {
    if k < 2 {
        16
    } else {
        10
    }
}

/// Largest value of each field of the extra-state line: bytes, then the cycle target.
pub open spec fn extra_max(k: int) -> int {
    if k < 6 {
        0xff
    } else {
        0xffff_ffff
    }
}

pub open spec fn extra_field(toks: Seq<Seq<u8>>, k: int) -> Option<int> {
    number_field(toks[k], extra_radix(k), extra_max(k))
}

/// A valid extra-state line: seven fields, each valid.
pub open spec fn extra_ok(toks: Seq<Seq<u8>>) -> bool {
    toks.len() == 7 && forall|k: int| 0 <= k < 7 ==> (#[trigger] extra_field(toks, k)) is Some
}

/// The values of a valid extra-state line.
pub open spec fn extra_values(toks: Seq<Seq<u8>>) -> ExtraRegs {
    ExtraRegs {
        i: extra_field(toks, 0)->0 as u8,
        r: extra_field(toks, 1)->0 as u8,
        iff1: extra_field(toks, 2)->0 as u8,
        iff2: extra_field(toks, 3)->0 as u8,
        im: extra_field(toks, 4)->0 as u8,
        halted: extra_field(toks, 5)->0 as u8,
        end_tstates: extra_field(toks, 6)->0 as u32,
    }
}

/// The patches that the byte fields of a memory line give from address `addr` on; end
/// markers among them are passed over.
pub open spec fn memory_run(toks: Seq<Seq<u8>>, addr: int) -> Option<Seq<Patch>>
    decreases toks.len(),
{
    if toks.len() == 0 {
        Some(Seq::empty())
    } else if end_marker(toks[0]) {
        memory_run(toks.drop_first(), addr)
    } else {
        match number_field(toks[0], 16, 0xff) {
            Some(v) => if addr <= 0xffff {
                match memory_run(toks.drop_first(), addr + 1) {
                    Some(rest) => Some(seq![Patch { addr: addr as u16, value: v as u8 }] + rest),
                    None => None,
                }
            } else {
                None
            },
            None => None,
        }
    }
}

/// The patches of a memory line: a start address, then the bytes stored from it upwards.
pub open spec fn memory_line(toks: Seq<Seq<u8>>) -> Option<Seq<Patch>> {
    if toks.len() >= 1 && word_field(toks[0]) is Some {
        memory_run(toks.drop_first(), word_field(toks[0])->0)
    } else {
        None
    }
}

/// Interrupt, refresh and halt state of a test case, and the cycle count it runs to.
#[derive(Clone, Copy, Debug, PartialEq, Eq, Structural)]
pub struct ExtraRegs {
    pub i: u8,
    pub r: u8,
    pub iff1: u8,
    pub iff2: u8,
    pub im: u8,
    pub halted: u8,
    pub end_tstates: u32,
}

/// One test vector: a label, the initial registers, memory patches and the cycle target.
///
/// `words` holds AF BC DE HL AF' BC' DE' HL' IX IY SP PC, in that order.
#[derive(Debug)]
pub struct TestCase {
    pub description: Vec<u8>,
    pub words: Vec<u16>,
    pub extra: ExtraRegs,
    pub patches: Vec<Patch>,
}

/// What a test case holds, as mathematical values.
pub struct CaseView {
    pub description: Seq<u8>,
    pub words: Seq<u16>,
    pub extra: ExtraRegs,
    pub patches: Seq<Patch>,
}

impl View for TestCase {
    type V = CaseView;

    open spec fn view(&self) -> CaseView {
        CaseView {
            description: self.description@,
            words: self.words@,
            extra: self.extra,
            patches: self.patches@,
        }
    }
}

pub open spec fn empty_extra() -> ExtraRegs {
    ExtraRegs { i: 0, r: 0, iff1: 0, iff2: 0, im: 0, halted: 0, end_tstates: 0 }
}

/// A case before any line was read: no label, every word zero, no patches.
pub open spec fn empty_case() -> CaseView {
    CaseView {
        description: Seq::empty(),
        words: Seq::new(12, |k: int| 0u16),
        extra: empty_extra(),
        patches: Seq::empty(),
    }
}

impl TestCase {
    pub fn empty() -> (c: TestCase)
        ensures
            c@ == empty_case(),
    {
        let mut words: Vec<u16> = Vec::new();
        let mut k: usize = 0;
        while k < 12
            invariant
                k <= 12,
                words@.len() == k,
                forall|j: int| 0 <= j < k ==> words@[j] == 0u16,
            decreases 12 - k,
        {
            words.push(0);
            k = k + 1;
        }
        let c = TestCase {
            description: Vec::new(),
            words,
            extra: ExtraRegs { i: 0, r: 0, iff1: 0, iff2: 0, im: 0, halted: 0, end_tstates: 0 },
            patches: Vec::new(),
        };
        assert(c@.words =~= empty_case().words);
        assert(c@.description =~= empty_case().description);
        assert(c@.patches =~= empty_case().patches);
        c
    }
}

/// Which line of a test case comes next.
#[derive(Clone, Copy, Debug, PartialEq, Eq, Structural)]
pub enum ParseState {
    Description,
    GeneralRegs,
    ExtraRegs,
    Memory,
}

/// Why a line was refused.
#[derive(Clone, Copy, Debug, PartialEq, Eq, Structural)]
pub enum ParseErrorKind {
    /// The line has the wrong number of fields.
    FieldCount,
    /// A field is no number of its radix, is too large, or a patch runs past the last address.
    BadField,
}

/// Where and why the fields of a line were refused. `field` counts from 0; for a wrong
/// number of fields it is the number found.
#[derive(Clone, Copy, Debug, PartialEq, Eq, Structural)]
pub struct FieldError {
    pub kind: ParseErrorKind,
    pub field: usize,
}

/// A refused line, counted from 1 over every line fed, blank ones included, and the field
/// that was refused in it.
#[derive(Clone, Copy, Debug, PartialEq, Eq, Structural)]
pub struct ParseError {
    pub line: u64,
    pub field: usize,
    pub kind: ParseErrorKind,
}

/// The error a register-word line gives: its field count, or its first invalid word.
pub open spec fn general_error(toks: Seq<Seq<u8>>, e: FieldError) -> bool {
    if toks.len() != 12 {
        e.kind == ParseErrorKind::FieldCount && e.field == toks.len()
    } else {
        &&& e.kind == ParseErrorKind::BadField
        &&& e.field < 12
        &&& word_field(toks[e.field as int]) is None
        &&& forall|j: int| 0 <= j < e.field ==> (#[trigger] word_field(toks[j])) is Some
    }
}

/// The error an extra-state line gives: its field count, or its first invalid field.
pub open spec fn extra_error(toks: Seq<Seq<u8>>, e: FieldError) -> bool {
    if toks.len() != 7 {
        e.kind == ParseErrorKind::FieldCount && e.field == toks.len()
    } else {
        &&& e.kind == ParseErrorKind::BadField
        &&& e.field < 7
        &&& extra_field(toks, e.field as int) is None
        &&& forall|j: int| 0 <= j < e.field ==> (#[trigger] extra_field(toks, j)) is Some
    }
}

/// The error a memory line gives: an invalid address (field 0), or the first byte field
/// that is invalid or would be stored past the last address.
pub open spec fn memory_error(toks: Seq<Seq<u8>>, e: FieldError) -> bool {
    if toks.len() == 0 {
        e.kind == ParseErrorKind::FieldCount && e.field == 0
    } else {
        &&& e.kind == ParseErrorKind::BadField
        &&& e.field < toks.len()
        &&& (e.field == 0 <==> word_field(toks[0]) is None)
        &&& e.field > 0 ==> !end_marker(toks[e.field as int])
        &&& forall|j: int|
            1 <= j < e.field ==> end_marker(toks[j]) || (#[trigger] number_field(toks[j], 16, 0xff))
                is Some
    }
}

fn is_end_fields(toks: &Vec<Vec<u8>>) -> (b: bool)
    ensures
        b == is_end_line(views(toks@)),
{
    if toks.len() != 1 {
        return false;
    }
    let t = &toks[0];
    assert(views(toks@)[0] == t@);
    let b = t.len() == 2 && t[0] == 0x2d && t[1] == 0x31;
    proof {
        if b {
            assert(t@ =~= seq![0x2du8, 0x31u8]);
        }
    }
    b
}

/// Reads the twelve register words.
pub fn parse_general(toks: &Vec<Vec<u8>>) -> (r: Result<Vec<u16>, FieldError>)
    ensures
        r matches Ok(w) ==> general_ok(views(toks@)) && w@ == general_words(views(toks@)),
        r matches Err(e) ==> !general_ok(views(toks@)) && general_error(views(toks@), e),
{
    if toks.len() != 12 {
        return Err(FieldError { kind: ParseErrorKind::FieldCount, field: toks.len() });
    }
    let ghost tv = views(toks@);
    let mut words: Vec<u16> = Vec::new();
    let mut k: usize = 0;
    while k < 12
        invariant
            toks@.len() == 12,
            tv == views(toks@),
            k <= 12,
            words@.len() == k,
            forall|j: int| 0 <= j < k ==> (#[trigger] word_field(tv[j])) is Some,
            forall|j: int| 0 <= j < k ==> words@[j] == word_field(tv[j])->0 as u16,
        decreases 12 - k,
    {
        assert(tv[k as int] == toks@[k as int]@);
        match parse_number(toks[k].as_slice(), 16, 0xffff) {
            Some(v) => {
                words.push(v as u16);
            },
            None => {
                assert(word_field(tv[k as int]) is None);
                return Err(FieldError { kind: ParseErrorKind::BadField, field: k });
            },
        }
        k = k + 1;
    }
    assert(words@ =~= general_words(tv));
    Ok(words)
}

/// Reads the extra-state line.
pub fn parse_extra(toks: &Vec<Vec<u8>>) -> (r: Result<ExtraRegs, FieldError>)
    ensures
        r matches Ok(x) ==> extra_ok(views(toks@)) && x == extra_values(views(toks@)),
        r matches Err(e) ==> !extra_ok(views(toks@)) && extra_error(views(toks@), e),
{
    if toks.len() != 7 {
        return Err(FieldError { kind: ParseErrorKind::FieldCount, field: toks.len() });
    }
    let ghost tv = views(toks@);
    let mut vals: Vec<u64> = Vec::new();
    let mut k: usize = 0;
    while k < 7
        invariant
            toks@.len() == 7,
            tv == views(toks@),
            k <= 7,
            vals@.len() == k,
            forall|j: int| 0 <= j < k ==> (#[trigger] extra_field(tv, j)) is Some,
            forall|j: int| 0 <= j < k ==> vals@[j] as int == extra_field(tv, j)->0,
            forall|j: int| 0 <= j < k ==> vals@[j] <= extra_max(j),
        decreases 7 - k,
    {
        assert(tv[k as int] == toks@[k as int]@);
        let radix: u64 = if k < 2 {
            16
        } else {
            10
        };
        let max: u64 = if k < 6 {
            0xff
        } else {
            0xffff_ffff
        };
        match parse_number(toks[k].as_slice(), radix, max) {
            Some(v) => {
                vals.push(v);
            },
            None => {
                assert(extra_field(tv, k as int) is None);
                return Err(FieldError { kind: ParseErrorKind::BadField, field: k });
            },
        }
        k = k + 1;
    }
    let x = ExtraRegs {
        i: vals[0] as u8,
        r: vals[1] as u8,
        iff1: vals[2] as u8,
        iff2: vals[3] as u8,
        im: vals[4] as u8,
        halted: vals[5] as u8,
        end_tstates: vals[6] as u32,
    };
    Ok(x)
}

/// Reads a memory line into the patches it gives.
pub fn parse_memory(toks: &Vec<Vec<u8>>) -> (r: Result<Vec<Patch>, FieldError>)
    ensures
        r matches Ok(p) ==> memory_line(views(toks@)) == Some(p@),
        r matches Err(e) ==> memory_line(views(toks@)) is None && memory_error(views(toks@), e),
{
    let ghost tv = views(toks@);
    if toks.len() == 0 {
        return Err(FieldError { kind: ParseErrorKind::FieldCount, field: 0 });
    }
    assert(tv[0] == toks@[0]@);
    let start = match parse_number(toks[0].as_slice(), 16, 0xffff) {
        Some(a) => a,
        None => {
            return Err(FieldError { kind: ParseErrorKind::BadField, field: 0 });
        },
    };
    let ghost whole = tv.drop_first();
    assert(memory_line(tv) == memory_run(whole, start as int));
    let mut addr: u64 = start;
    let mut out: Vec<Patch> = Vec::new();
    let mut k: usize = 1;
    while k < toks.len()
        invariant
            tv == views(toks@),
            tv.len() >= 1,
            1 <= k <= tv.len(),
            whole == tv.drop_first(),
            memory_line(tv) == memory_run(whole, start as int),
            word_field(tv[0]) == Some(start as int),
            forall|j: int|
                1 <= j < k ==> end_marker(tv[j]) || (#[trigger] number_field(tv[j], 16, 0xff))
                    is Some,
            addr <= 0x10000,
            memory_run(whole, start as int) == match memory_run(tv.subrange(k as int, tv.len() as int), addr as int) {
                Some(rest) => Some(out@ + rest),
                None => None,
            },
        decreases tv.len() - k,
    {
        let ghost here = tv.subrange(k as int, tv.len() as int);
        assert(here.drop_first() =~= tv.subrange(k as int + 1, tv.len() as int));
        assert(here[0] == toks@[k as int]@);
        let t = &toks[k];
        let end = t.len() == 2 && t[0] == 0x2d && t[1] == 0x31;
        proof {
            if end {
                assert(t@ =~= seq![0x2du8, 0x31u8]);
            }
        }
        if !end {
            match parse_number(t.as_slice(), 16, 0xff) {
                Some(v) => {
                    if addr > 0xffff {
                        assert(memory_run(here, addr as int) is None);
                        assert(memory_run(whole, start as int) is None);
                        return Err(FieldError { kind: ParseErrorKind::BadField, field: k });
                    }
                    let ghost before = out@;
                    out.push(Patch { addr: addr as u16, value: v as u8 });
                    proof {
                        let p = Patch { addr: addr as u16, value: v as u8 };
                        match memory_run(here.drop_first(), addr as int + 1) {
                            Some(rest) => {
                                assert(before + (seq![p] + rest) =~= out@ + rest);
                            },
                            None => {},
                        }
                    }
                    addr = addr + 1;
                },
                None => {
                    assert(memory_run(here, addr as int) is None);
                    assert(memory_run(whole, start as int) is None);
                    return Err(FieldError { kind: ParseErrorKind::BadField, field: k });
                },
            }
        }
        k = k + 1;
    }
    proof {
        assert(tv.subrange(k as int, tv.len() as int) =~= Seq::<Seq<u8>>::empty());
        assert(out@ + Seq::<Patch>::empty() =~= out@);
    }
    Ok(out)
}

/// A line is accepted in a state: a blank line or the end marker always, a label always,
/// and the other lines when they read as their section requires.
pub open spec fn line_ok(state: ParseState, toks: Seq<Seq<u8>>) -> bool {
    if toks.len() == 0 || is_end_line(toks) {
        true
    } else {
        match state {
            ParseState::Description => true,
            ParseState::GeneralRegs => general_ok(toks),
            ParseState::ExtraRegs => extra_ok(toks),
            ParseState::Memory => memory_line(toks) is Some,
        }
    }
}

/// The state after an accepted line.
pub open spec fn next_state(state: ParseState, toks: Seq<Seq<u8>>) -> ParseState {
    if toks.len() == 0 {
        state
    } else if is_end_line(toks) {
        ParseState::Description
    } else {
        match state {
            ParseState::Description => ParseState::GeneralRegs,
            ParseState::GeneralRegs => ParseState::ExtraRegs,
            ParseState::ExtraRegs => ParseState::Memory,
            ParseState::Memory => ParseState::Memory,
        }
    }
}

/// The case being built after an accepted line; after the end marker a new one starts.
pub open spec fn next_case(
    state: ParseState,
    case: CaseView,
    line: Seq<u8>,
    toks: Seq<Seq<u8>>,
) -> CaseView {
    if toks.len() == 0 {
        case
    } else if is_end_line(toks) {
        empty_case()
    } else {
        match state {
            ParseState::Description => CaseView { description: trim(line), ..case },
            ParseState::GeneralRegs => CaseView { words: general_words(toks), ..case },
            ParseState::ExtraRegs => CaseView { extra: extra_values(toks), ..case },
            ParseState::Memory => CaseView {
                patches: case.patches + memory_line(toks)->0,
                ..case
            },
        }
    }
}

/// Reads test vectors line by line; each end-marker line hands out the case it closes.
#[derive(Debug)]
pub struct VectorParser {
    pub state: ParseState,
    /// Lines fed so far.
    pub lines: u64,
    pub case: TestCase,
}

impl VectorParser {
    pub fn new() -> (p: VectorParser)
        ensures
            p.state == ParseState::Description,
            p.lines == 0,
            p.case@ == empty_case(),
    {
        VectorParser { state: ParseState::Description, lines: 0, case: TestCase::empty() }
    }

    /// Feeds one line; a label is kept without its leading and trailing white space. A refused line leaves the parser as
    /// it was, but for the line count.
    pub fn feed(&mut self, line: &[u8]) -> (r: Result<Option<TestCase>, ParseError>)
        requires
            old(self).lines < u64::MAX,
        ensures
            final(self).lines == old(self).lines + 1,
            r is Err <==> !line_ok(old(self).state, fields(line@)),
            r matches Err(e) ==> {
                &&& e.line == final(self).lines
                &&& final(self).state == old(self).state
                &&& final(self).case@ == old(self).case@
                &&& match old(self).state {
                    ParseState::GeneralRegs => general_error(
                        fields(line@),
                        FieldError { kind: e.kind, field: e.field },
                    ),
                    ParseState::ExtraRegs => extra_error(
                        fields(line@),
                        FieldError { kind: e.kind, field: e.field },
                    ),
                    ParseState::Memory => memory_error(
                        fields(line@),
                        FieldError { kind: e.kind, field: e.field },
                    ),
                    ParseState::Description => false,
                }
            },
            r is Ok ==> final(self).state == next_state(old(self).state, fields(line@))
                && final(self).case@ == next_case(
                old(self).state,
                old(self).case@,
                line@,
                fields(line@),
            ),
            r matches Ok(Some(c)) ==> c@ == old(self).case@,
            r matches Ok(o) ==> (o is Some <==> is_end_line(fields(line@))),
    {
        self.lines = self.lines + 1;
        let toks = split_fields(line);
        let ghost tv = fields(line@);
        if toks.len() == 0 {
            return Ok(None);
        }
        if is_end_fields(&toks) {
            let mut done = TestCase::empty();
            std::mem::swap(&mut done, &mut self.case);
            self.state = ParseState::Description;
            return Ok(Some(done));
        }
        match self.state {
            ParseState::Description => {
                self.case.description = trimmed(line);
                self.state = ParseState::GeneralRegs;
                Ok(None)
            },
            ParseState::GeneralRegs => {
                match parse_general(&toks) {
                    Ok(w) => {
                        self.case.words = w;
                        self.state = ParseState::ExtraRegs;
                        Ok(None)
                    },
                    Err(e) => Err(ParseError { line: self.lines, field: e.field, kind: e.kind }),
                }
            },
            ParseState::ExtraRegs => {
                match parse_extra(&toks) {
                    Ok(x) => {
                        self.case.extra = x;
                        self.state = ParseState::Memory;
                        Ok(None)
                    },
                    Err(e) => Err(ParseError { line: self.lines, field: e.field, kind: e.kind }),
                }
            },
            ParseState::Memory => {
                match parse_memory(&toks) {
                    Ok(mut p) => {
                        self.case.patches.append(&mut p);
                        Ok(None)
                    },
                    Err(e) => Err(ParseError { line: self.lines, field: e.field, kind: e.kind }),
                }
            },
        }
    }
}

} // verus!
