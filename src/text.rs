use vstd::prelude::*;

verus! {

/// Bytes that separate fields on a line.
pub open spec fn is_space(c: u8) -> bool {
    c == 0x20 || c == 0x09 || c == 0x0a || c == 0x0d || c == 0x0b || c == 0x0c
}

fn space_at(c: u8) -> (b: bool)
    ensures
        b == is_space(c),
{
    c == 0x20 || c == 0x09 || c == 0x0a || c == 0x0d || c == 0x0b || c == 0x0c
}

/// Splitting the first `n` bytes of a line: the fields already closed, and the field being read.
pub open spec fn scan_fields(s: Seq<u8>, n: int) -> (Seq<Seq<u8>>, Seq<u8>)
    decreases n,
{
    if n <= 0 {
        (Seq::empty(), Seq::empty())
    } else {
        let (done, cur) = scan_fields(s, n - 1);
        if is_space(s[n - 1]) {
            if cur.len() > 0 {
                (done.push(cur), Seq::empty())
            } else {
                (done, cur)
            }
        } else {
            (done, cur.push(s[n - 1]))
        }
    }
}

/// The fields of a line: its maximal runs of non-space bytes, in order.
pub open spec fn fields(s: Seq<u8>) -> Seq<Seq<u8>> {
    let (done, cur) = scan_fields(s, s.len() as int);
    if cur.len() > 0 {
        done.push(cur)
    } else {
        done
    }
}

/// The views of a vector of byte strings.
pub open spec fn views(v: Seq<Vec<u8>>) -> Seq<Seq<u8>> {
    v.map_values(|t: Vec<u8>| t@)
}

/// Splits a line at runs of spaces and tabs (and other ASCII white space).
pub fn split_fields(line: &[u8]) -> (r: Vec<Vec<u8>>)
    ensures
        views(r@) == fields(line@),
{
    let mut done: Vec<Vec<u8>> = Vec::new();
    let mut cur: Vec<u8> = Vec::new();
    let mut i: usize = 0;
    while i < line.len()
        invariant
            i <= line@.len(),
            (views(done@), cur@) == scan_fields(line@, i as int),
        decreases line@.len() - i,
    {
        let c = line[i];
        if space_at(c) {
            if cur.len() > 0 {
                let ghost before = views(done@);
                let t = cur;
                done.push(t);
                assert(views(done@) =~= before.push(t@));
                cur = Vec::new();
            }
        } else {
            cur.push(c);
        }
        i = i + 1;
    }
    if cur.len() > 0 {
        let ghost before = views(done@);
        let t = cur;
        done.push(t);
        assert(views(done@) =~= before.push(t@));
    }
    done
}

/// Value of an ASCII digit in a radix of at most 16 (either letter case), if it is one.
pub open spec fn digit_value(c: u8, radix: int) -> Option<int> {
    let v = if 0x30 <= c <= 0x39 {
        c - 0x30
    } else if 0x61 <= c <= 0x66 {
        c - 0x61 + 10
    } else if 0x41 <= c <= 0x46 {
        c - 0x41 + 10
    } else {
        16
    };
    if v < radix {
        Some(v as int)
    } else {
        None
    }
}

fn digit_of(c: u8, radix: u64) -> (r: Option<u64>)
    requires
        2 <= radix <= 16,
    ensures
        r matches Some(v) ==> digit_value(c, radix as int) == Some(v as int),
        r is None ==> digit_value(c, radix as int) is None,
{
    let v: u64 = if 0x30 <= c && c <= 0x39 {
        (c - 0x30) as u64
    } else if 0x61 <= c && c <= 0x66 {
        (c - 0x61 + 10) as u64
    } else if 0x41 <= c && c <= 0x46 {
        (c - 0x41 + 10) as u64
    } else {
        16
    };
    if v < radix {
        Some(v)
    } else {
        None
    }
}

/// Every byte of `s` is a digit of `radix`.
pub open spec fn all_digits(s: Seq<u8>, radix: int) -> bool {
    forall|j: int| 0 <= j < s.len() ==> (#[trigger] digit_value(s[j], radix)) is Some
}

/// The number that a string of digits writes, most significant digit first.
pub open spec fn digits_value(s: Seq<u8>, radix: int) -> int
    decreases s.len(),
{
    if s.len() == 0 {
        0
    } else {
        digits_value(s.drop_last(), radix) * radix + digit_value(s.last(), radix)->0
    }
}

/// What a numeric field reads as: a non-empty string of digits of `radix` whose value is at
/// most `max`.
pub open spec fn number_field(s: Seq<u8>, radix: int, max: int) -> Option<int> {
    if s.len() > 0 && all_digits(s, radix) && digits_value(s, radix) <= max {
        Some(digits_value(s, radix))
    } else {
        None
    }
}

/// A value past `max` stays past it as digits are appended.
proof fn lemma_digits_grow(s: Seq<u8>, radix: int, n: int, max: int)
    requires
        radix >= 2,
        0 <= n <= s.len(),
        all_digits(s, radix),
        digits_value(s.take(n), radix) > max,
        max >= 0,
    ensures
        digits_value(s, radix) > max,
    decreases s.len() - n,
{
    if n < s.len() {
        let t = s.take(n + 1);
        assert(t.drop_last() =~= s.take(n));
        assert(digit_value(t.last(), radix) is Some) by {
            assert(t.last() == s[n]);
        }
        let d = digit_value(t.last(), radix)->0;
        assert(d >= 0);
        assert(digits_value(s.take(n), radix) * radix + d > max) by (nonlinear_arith)
            requires
                digits_value(s.take(n), radix) > max,
                max >= 0,
                radix >= 2,
                d >= 0,
        ;
        lemma_digits_grow(s, radix, n + 1, max);
    } else {
        assert(s.take(n) =~= s);
    }
}

/// Reads a numeric field of `radix` whose value must not exceed `max`.
pub fn parse_number(s: &[u8], radix: u64, max: u64) -> (r: Option<u64>)
    requires
        2 <= radix <= 16,
        max <= u32::MAX,
    ensures
        r matches Some(v) ==> number_field(s@, radix as int, max as int) == Some(v as int),
        r is None ==> number_field(s@, radix as int, max as int) is None,
{
    if s.len() == 0 {
        return None;
    }
    let mut acc: u64 = 0;
    let mut i: usize = 0;
    while i < s.len()
        invariant
            2 <= radix <= 16,
            max <= u32::MAX,
            i <= s@.len(),
            acc as int == digits_value(s@.take(i as int), radix as int),
            acc <= max,
            all_digits(s@.take(i as int), radix as int),
        decreases s@.len() - i,
    {
        let ghost t = s@.take(i as int + 1);
        proof {
            assert(t.drop_last() =~= s@.take(i as int));
            assert(t.last() == s@[i as int]);
        }
        match digit_of(s[i], radix) {
            None => {
                proof {
                    assert(!all_digits(s@, radix as int)) by {
                        assert(digit_value(s@[i as int], radix as int) is None);
                    }
                }
                return None;
            },
            Some(d) => {
                assert(acc * radix + d <= u32::MAX as int * 16 + 16) by (nonlinear_arith)
                    requires
                        acc <= u32::MAX,
                        radix <= 16,
                        d < 16,
                ;
                let next = acc * radix + d;
                assert(all_digits(t, radix as int)) by {
                    assert forall|j: int| 0 <= j < t.len() implies (#[trigger] digit_value(
                        t[j],
                        radix as int,
                    )) is Some by {
                        if j < i {
                            assert(t[j] == s@.take(i as int)[j]);
                        }
                    }
                }
                if next > max {
                    proof {
                        if all_digits(s@, radix as int) {
                            lemma_digits_grow(s@, radix as int, i as int + 1, max as int);
                        }
                    }
                    return None;
                }
                acc = next;
            },
        }
        i = i + 1;
    }
    proof {
        assert(s@.take(s@.len() as int) =~= s@);
    }
    Some(acc)
}

/// A line without its leading white space.
pub open spec fn trim_start(s: Seq<u8>) -> Seq<u8>
    decreases s.len(),
{
    if s.len() > 0 && is_space(s[0]) {
        trim_start(s.drop_first())
    } else {
        s
    }
}

/// A line without its trailing white space.
pub open spec fn trim_end(s: Seq<u8>) -> Seq<u8>
    decreases s.len(),
{
    if s.len() > 0 && is_space(s.last()) {
        trim_end(s.drop_last())
    } else {
        s
    }
}

/// A line without its leading and trailing white space.
pub open spec fn trim(s: Seq<u8>) -> Seq<u8> {
    trim_end(trim_start(s))
}

/// Copies a line without its leading and trailing white space.
pub fn trimmed(line: &[u8]) -> (r: Vec<u8>)
    ensures
        r@ == trim(line@),
{
    let n = line.len();
    let mut lo: usize = 0;
    assert(line@.subrange(0, n as int) =~= line@);
    while lo < n && space_at(line[lo])
        invariant
            n == line@.len(),
            lo <= n,
            trim_start(line@) == trim_start(line@.subrange(lo as int, n as int)),
        decreases n - lo,
    {
        assert(line@.subrange(lo as int, n as int).drop_first() =~= line@.subrange(
            lo as int + 1,
            n as int,
        ));
        lo = lo + 1;
    }
    let mut hi: usize = n;
    while hi > lo && space_at(line[hi - 1])
        invariant
            n == line@.len(),
            lo <= hi <= n,
            trim_start(line@) == line@.subrange(lo as int, n as int),
            trim(line@) == trim_end(line@.subrange(lo as int, hi as int)),
        decreases hi,
    {
        assert(line@.subrange(lo as int, hi as int).drop_last() =~= line@.subrange(
            lo as int,
            hi as int - 1,
        ));
        hi = hi - 1;
    }
    let mut out: Vec<u8> = Vec::new();
    let mut k: usize = lo;
    while k < hi
        invariant
            lo <= k <= hi,
            hi <= line@.len(),
            out@ == line@.subrange(lo as int, k as int),
        decreases hi - k,
    {
        out.push(line[k]);
        assert(out@ =~= line@.subrange(lo as int, k as int + 1));
        k = k + 1;
    }
    out
}

} // verus!
