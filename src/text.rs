use vstd::prelude::*;
use vstd::string::StrSliceExecFns;

verus! {

/// The character of decimal digit `d`.
pub open spec fn digit_char(d: nat) -> char {
    ((d + 48) as u8) as char
}

/// Decimal digits of `n`, most significant first, without leading zeros.
pub open spec fn decimal(n: nat) -> Seq<char>
    decreases n,
{
    if n < 10 {
        seq![digit_char(n)]
    } else {
        decimal(n / 10).push(digit_char(n % 10))
    }
}

/// The pieces of `s` between occurrences of `sep`, as `str::split` gives
/// them: one more piece than there are separators, empty pieces included.
pub open spec fn fields(s: Seq<char>, sep: char) -> Seq<Seq<char>>
    decreases s.len(),
{
    if s.len() == 0 {
        seq![Seq::empty()]
    } else {
        let f = fields(s.drop_last(), sep);
        if s.last() == sep {
            f.push(Seq::empty())
        } else {
            f.update(f.len() - 1, f.last().push(s.last()))
        }
    }
}

/// An ASCII decimal digit.
pub open spec fn is_digit(c: char) -> bool {
    '0' <= c <= '9'
}

/// Value of a string of decimal digits.
pub open spec fn digits_value(t: Seq<char>) -> nat
    decreases t.len(),
{
    if t.len() == 0 {
        0
    } else {
        digits_value(t.drop_last()) * 10 + (t.last() as nat - 48) as nat
    }
}

/// `t` without one leading `+`.
pub open spec fn unsigned_part(t: Seq<char>) -> Seq<char> {
    if t.len() > 0 && t[0] == '+' {
        t.subrange(1, t.len() as int)
    } else {
        t
    }
}

/// A `u32` written in decimal, as `str::parse::<u32>` reads it: an optional
/// `+`, then one or more digits whose value fits in 32 bits.
pub open spec fn parse_u32(t: Seq<char>) -> Option<u32> {
    let d = unsigned_part(t);
    if d.len() > 0 && (forall|i: int| 0 <= i < d.len() ==> is_digit(#[trigger] d[i])) && digits_value(d)
        <= u32::MAX {
        Some(digits_value(d) as u32)
    } else {
        None
    }
}

/// Relies on `String::push`: the character is appended at the end.
#[verifier::external_body]
pub(crate) fn push_char(s: &mut String, c: char)
    ensures
        final(s)@ == old(s)@.push(c),
{
    s.push(c);
}

/// Appends the decimal digits of `n` to `s`.
pub fn push_decimal(s: &mut String, n: u32)
    ensures
        final(s)@ == old(s)@ + decimal(n as nat),
    decreases n,
{
    if n >= 10 {
        push_decimal(s, n / 10);
    }
    let d = (n % 10) as u8;
    push_char(s, (d + 48) as char);
    assert(final(s)@ =~= old(s)@ + decimal(n as nat));
}

/// The characters of `s`.
pub fn chars_of(s: &str) -> (v: Vec<char>)
    ensures
        v@ == s@,
{
    let n = s.unicode_len();
    let mut v: Vec<char> = Vec::new();
    let mut i: usize = 0;
    while i < n
        invariant
            n == s@.len(),
            i <= n,
            v@ == s@.take(i as int),
        decreases n - i,
    {
        v.push(s.get_char(i));
        i += 1;
        assert(v@ =~= s@.take(i as int));
    }
    assert(s@.take(n as int) =~= s@);
    v
}

/// The pieces of `s` between occurrences of `sep`.
pub fn split_fields(s: &Vec<char>, sep: char) -> (out: Vec<Vec<char>>)
    ensures
        out@.map_values(|f: Vec<char>| f@) == fields(s@, sep),
{
    let mut out: Vec<Vec<char>> = Vec::new();
    let mut cur: Vec<char> = Vec::new();
    let mut i: usize = 0;
    while i < s.len()
        invariant
            i <= s.len(),
            fields(s@.take(i as int), sep) == out@.map_values(|f: Vec<char>| f@).push(cur@),
        decreases s.len() - i,
    {
        let c = s[i];
        proof {
            assert(s@.take(i + 1).drop_last() =~= s@.take(i as int));
        }
        if c == sep {
            let ghost before = out@.map_values(|f: Vec<char>| f@);
            let piece = cur;
            out.push(piece);
            cur = Vec::new();
            assert(out@.map_values(|f: Vec<char>| f@) =~= before.push(piece@));
            assert(fields(s@.take(i + 1), sep) =~= out@.map_values(|f: Vec<char>| f@).push(cur@));
        } else {
            cur.push(c);
            assert(fields(s@.take(i + 1), sep) =~= out@.map_values(|f: Vec<char>| f@).push(cur@));
        }
        i += 1;
    }
    assert(s@.take(s.len() as int) =~= s@);
    out.push(cur);
    assert(out@.map_values(|f: Vec<char>| f@) =~= fields(s@, sep));
    out
}

/// Reads a `u32` written in decimal with an optional leading `+`.
pub fn parse_decimal(t: &Vec<char>) -> (r: Option<u32>)
    ensures
        r == parse_u32(t@),
{
    let ghost d = unsigned_part(t@);
    let mut start: usize = 0;
    if t.len() > 0 && t[0] == '+' {
        start = 1;
    }
    assert(d =~= t@.subrange(start as int, t@.len() as int));
    if start >= t.len() {
        return None;
    }
    let big: u64 = 0x1_0000_0000;
    let mut val: u64 = 0;
    let mut j: usize = start;
    while j < t.len()
        invariant
            start <= j <= t.len(),
            d == t@.subrange(start as int, t@.len() as int),
            d == unsigned_part(t@),
            big == u32::MAX + 1,
            val == if digits_value(d.take(j - start)) < big {
                digits_value(d.take(j - start))
            } else {
                big as nat
            },
            forall|k: int| 0 <= k < j - start ==> is_digit(#[trigger] d[k]),
        decreases t.len() - j,
    {
        let c = t[j];
        if !('0' <= c && c <= '9') {
            assert(!is_digit(d[j - start]));
            return None;
        }
        let digit = (c as u32 - 48) as u64;
        let ghost x = digits_value(d.take(j - start));
        proof {
            assert(d.take(j - start + 1).drop_last() =~= d.take(j - start));
            assert(digits_value(d.take(j - start + 1)) == x * 10 + digit);
        }
        let next = val * 10 + digit;
        if next < big {
            val = next;
        } else {
            val = big;
        }
        proof {
            if x >= big {
                assert(x * 10 + digit >= big) by (nonlinear_arith)
                    requires
                        x >= big,
                ;
            }
        }
        j += 1;
    }
    assert(d.take(t.len() - start) =~= d);
    if val >= big {
        None
    } else {
        Some(val as u32)
    }
}

} // verus!
