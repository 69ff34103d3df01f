use vstd::prelude::*;

verus! {

/// The seven register pairs of a register file, in storage order.
#[derive(Clone, Copy, Debug, PartialEq, Eq, Structural)]
pub enum WordReg {
    AF,
    BC,
    DE,
    HL,
    IX,
    IY,
    SP,
}

/// The fourteen 8-bit halves of a register file.
#[derive(Clone, Copy, Debug, PartialEq, Eq, Structural)]
pub enum ByteReg {
    A,
    F,
    B,
    C,
    D,
    E,
    H,
    L,
    IXH,
    IXL,
    IYH,
    IYL,
    SPH,
    SPL,
}

/// Storage slot of a register pair.
pub open spec fn word_index(r: WordReg) -> int {
    match r {
        WordReg::AF => 0,
        WordReg::BC => 1,
        WordReg::DE => 2,
        WordReg::HL => 3,
        WordReg::IX => 4,
        WordReg::IY => 5,
        WordReg::SP => 6,
    }
}

/// The pair that holds an 8-bit half.
pub open spec fn pair_of(r: ByteReg) -> WordReg {
    match r {
        ByteReg::A | ByteReg::F => WordReg::AF,
        ByteReg::B | ByteReg::C => WordReg::BC,
        ByteReg::D | ByteReg::E => WordReg::DE,
        ByteReg::H | ByteReg::L => WordReg::HL,
        ByteReg::IXH | ByteReg::IXL => WordReg::IX,
        ByteReg::IYH | ByteReg::IYL => WordReg::IY,
        ByteReg::SPH | ByteReg::SPL => WordReg::SP,
    }
}

/// Whether an 8-bit half is the high (most significant) byte of its pair.
pub open spec fn is_high(r: ByteReg) -> bool {
    match r {
        ByteReg::A | ByteReg::B | ByteReg::D | ByteReg::H | ByteReg::IXH | ByteReg::IYH
        | ByteReg::SPH => true,
        _ => false,
    }
}

/// The high half of a pair.
pub open spec fn high_half(p: WordReg) -> ByteReg {
    match p {
        WordReg::AF => ByteReg::A,
        WordReg::BC => ByteReg::B,
        WordReg::DE => ByteReg::D,
        WordReg::HL => ByteReg::H,
        WordReg::IX => ByteReg::IXH,
        WordReg::IY => ByteReg::IYH,
        WordReg::SP => ByteReg::SPH,
    }
}

/// The low half of a pair.
pub open spec fn low_half(p: WordReg) -> ByteReg {
    match p {
        WordReg::AF => ByteReg::F,
        WordReg::BC => ByteReg::C,
        WordReg::DE => ByteReg::E,
        WordReg::HL => ByteReg::L,
        WordReg::IX => ByteReg::IXL,
        WordReg::IY => ByteReg::IYL,
        WordReg::SP => ByteReg::SPL,
    }
}

/// Most significant byte of a word.
pub open spec fn high_byte(v: u16) -> u8 {
    (v / 256) as u8
}

/// Least significant byte of a word.
pub open spec fn low_byte(v: u16) -> u8 {
    (v % 256) as u8
}

/// The word made of a high and a low byte.
pub open spec fn join_bytes(hi: u8, lo: u8) -> u16 {
    (hi * 256 + lo) as u16
}

/// The two halves of a word put back together give the word.
pub proof fn lemma_halves_rebuild_word(v: u16)
    ensures
        join_bytes(high_byte(v), low_byte(v)) == v,
        high_byte(join_bytes(high_byte(v), low_byte(v))) == high_byte(v),
        low_byte(join_bytes(high_byte(v), low_byte(v))) == low_byte(v),
{
}

/// Replacing one byte of a word keeps the other one.
pub proof fn lemma_join_splits(hi: u8, lo: u8)
    ensures
        high_byte(join_bytes(hi, lo)) == hi,
        low_byte(join_bytes(hi, lo)) == lo,
{
}

fn word_slot(r: WordReg) -> (i: usize)
    ensures
        i == word_index(r),
        i < 7,
{
    match r {
        WordReg::AF => 0,
        WordReg::BC => 1,
        WordReg::DE => 2,
        WordReg::HL => 3,
        WordReg::IX => 4,
        WordReg::IY => 5,
        WordReg::SP => 6,
    }
}

fn pair_slot(r: ByteReg) -> (p: WordReg)
    ensures
        p == pair_of(r),
{
    match r {
        ByteReg::A | ByteReg::F => WordReg::AF,
        ByteReg::B | ByteReg::C => WordReg::BC,
        ByteReg::D | ByteReg::E => WordReg::DE,
        ByteReg::H | ByteReg::L => WordReg::HL,
        ByteReg::IXH | ByteReg::IXL => WordReg::IX,
        ByteReg::IYH | ByteReg::IYL => WordReg::IY,
        ByteReg::SPH | ByteReg::SPL => WordReg::SP,
    }
}

fn half_is_high(r: ByteReg) -> (b: bool)
    ensures
        b == is_high(r),
{
    match r {
        ByteReg::A | ByteReg::B | ByteReg::D | ByteReg::H | ByteReg::IXH | ByteReg::IYH
        | ByteReg::SPH => true,
        _ => false,
    }
}

/// The register pairs of one register file, one named field each.
#[derive(Clone, Copy, Debug, PartialEq, Eq, Structural)]
pub struct WordRegisters {
    pub af: u16,
    pub bc: u16,
    pub de: u16,
    pub hl: u16,
    pub ix: u16,
    pub iy: u16,
    pub sp: u16,
}

/// A register file: seven 16-bit words, each also readable and writable as two bytes.
///
/// The bytes are not stored apart: a half is always derived from its word, high byte first.
#[derive(Clone, Copy, Debug)]
pub struct Registers {
    pub data: [u16; 7],
}

impl Registers {
    /// The value of a pair.
    pub open spec fn word(&self, r: WordReg) -> u16 {
        self.data@[word_index(r)]
    }

    /// The value of an 8-bit half.
    pub open spec fn byte(&self, r: ByteReg) -> u8 {
        if is_high(r) {
            high_byte(self.word(pair_of(r)))
        } else {
            low_byte(self.word(pair_of(r)))
        }
    }

    /// A register file with every pair zero.
    pub fn zeroed() -> (r: Registers)
        ensures
            forall|p: WordReg| r.word(p) == 0,
    {
        Registers { data: [0u16; 7] }
    }

    /// Reads a pair.
    pub fn read_wide(&self, pair: WordReg) -> (r: u16)
        ensures
            r == self.word(pair),
    {
        self.data[word_slot(pair)]
    }

    /// Writes a pair; its two halves then read as the high and low byte of `v`.
    pub fn write_wide(&mut self, pair: WordReg, v: u16)
        ensures
            final(self).word(pair) == v,
            final(self).byte(high_half(pair)) == high_byte(v),
            final(self).byte(low_half(pair)) == low_byte(v),
            forall|o: WordReg| o != pair ==> final(self).word(o) == old(self).word(o),
    {
        let i = word_slot(pair);
        self.data[i] = v;
        assert(forall|o: WordReg| o != pair ==> #[trigger] word_index(o) != word_index(pair));
    }

    /// Reads an 8-bit half.
    pub fn read_byte(&self, half: ByteReg) -> (r: u8)
        ensures
            r == self.byte(half),
    {
        let w = self.data[word_slot(pair_slot(half))];
        if half_is_high(half) {
            (w / 256) as u8
        } else {
            (w % 256) as u8
        }
    }

    /// Writes an 8-bit half; the other half of its pair and every other pair keep their values.
    pub fn write_byte(&mut self, half: ByteReg, v: u8)
        ensures
            final(self).byte(half) == v,
            is_high(half) ==> final(self).word(pair_of(half)) == join_bytes(
                v,
                low_byte(old(self).word(pair_of(half))),
            ),
            !is_high(half) ==> final(self).word(pair_of(half)) == join_bytes(
                high_byte(old(self).word(pair_of(half))),
                v,
            ),
            forall|o: WordReg| o != pair_of(half) ==> final(self).word(o) == old(self).word(o),
    {
        let i = word_slot(pair_slot(half));
        let w = self.data[i];
        let hi: u8 = (w / 256) as u8;
        let lo: u8 = (w % 256) as u8;
        let nw: u16 = if half_is_high(half) {
            proof {
                lemma_join_splits(v, lo);
            }
            (v as u16) * 256 + (lo as u16)
        } else {
            proof {
                lemma_join_splits(hi, v);
            }
            (hi as u16) * 256 + (v as u16)
        };
        self.data[i] = nw;
        assert(forall|o: WordReg| o != pair_of(half) ==> #[trigger] word_index(o) != word_index(pair_of(half)));
    }

    /// The pairs of this register file as named fields.
    pub fn word_registers(&self) -> (w: WordRegisters)
        ensures
            w.af == self.word(WordReg::AF),
            w.bc == self.word(WordReg::BC),
            w.de == self.word(WordReg::DE),
            w.hl == self.word(WordReg::HL),
            w.ix == self.word(WordReg::IX),
            w.iy == self.word(WordReg::IY),
            w.sp == self.word(WordReg::SP),
    {
        WordRegisters {
            af: self.data[0],
            bc: self.data[1],
            de: self.data[2],
            hl: self.data[3],
            ix: self.data[4],
            iy: self.data[5],
            sp: self.data[6],
        }
    }
}

/// In every register file the two halves of a pair, high byte first, make up the pair.
pub proof fn lemma_halves_rebuild_pair(r: Registers, pair: WordReg)
    ensures
        join_bytes(r.byte(high_half(pair)), r.byte(low_half(pair))) == r.word(pair),
        pair_of(high_half(pair)) == pair && is_high(high_half(pair)),
        pair_of(low_half(pair)) == pair && !is_high(low_half(pair)),
{
    lemma_halves_rebuild_word(r.word(pair));
}

} // verus!
