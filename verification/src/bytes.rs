//! Byte-level utilities shared by the wire encoding and the client logic:
//! ASCII literals as byte vectors, byte-sequence equality, saturating
//! subtraction, and decimal rendering/parsing of unsigned integers.

use vstd::prelude::*;
use vstd::string::StrSliceExecFns;

verus! {

/// Subtraction clamped to zero.
pub open spec fn spec_sat_sub(a: u64, b: u64) -> u64 {
    if a >= b {
        (a - b) as u64
    } else {
        0
    }
}

/// Addition clamped to `u64::MAX`.
pub open spec fn spec_sat_add(a: u64, b: u64) -> u64 {
    if a + b <= u64::MAX {
        (a + b) as u64
    } else {
        u64::MAX
    }
}

/// Subtraction clamped to zero: the basis for every latency computation,
/// so that a wall clock behind the message timestamp yields zero rather
/// than a wraparound.
pub fn saturating_sub_u64(a: u64, b: u64) -> (r: u64)
    ensures
        r == spec_sat_sub(a, b),
{
    if a >= b {
        a - b
    } else {
        0
    }
}

/// Addition clamped to `u64::MAX`, for counters that must never wrap.
pub fn saturating_add_u64(a: u64, b: u64) -> (r: u64)
    ensures
        r == spec_sat_add(a, b),
{
    if a <= u64::MAX - b {
        a + b
    } else {
        u64::MAX
    }
}

/// The byte sequence denoted by an ASCII string slice.
pub open spec fn ascii_view(s: &str) -> Seq<u8> {
    Seq::new(s@.len(), |i: int| s@[i] as u8)
}

/// The bytes of an ASCII string slice.
pub fn ascii_bytes(s: &str) -> (r: Vec<u8>)
    requires
        vstd::string::is_ascii(s),
    ensures
        r@ == ascii_view(s),
{
    proof {
        broadcast use vstd::string::is_ascii_spec_bytes;

    }
    s.as_bytes_vec()
}

/// Append the bytes of an ASCII literal.
pub fn push_lit(out: &mut Vec<u8>, s: &str)
    requires
        vstd::string::is_ascii(s),
    ensures
        final(out)@ == old(out)@ + ascii_view(s),
{
    let mut piece = ascii_bytes(s);
    out.append(&mut piece);
}

/// Append a copy of a byte vector.
pub fn push_bytes(out: &mut Vec<u8>, s: &Vec<u8>)
    ensures
        final(out)@ == old(out)@ + s@,
{
    let mut piece = s.clone();
    proof {
        assert(piece@ =~= s@);
    }
    out.append(&mut piece);
}

/// The lower-case hex digit for a value below 16.
pub open spec fn spec_hex_digit(d: u32) -> u8 {
    if d < 10 {
        (0x30 + d) as u8
    } else {
        (0x57 + d) as u8
    }
}

/// Byte-vector equality, reflected into the sequence view.
pub fn bytes_eq(a: &Vec<u8>, b: &Vec<u8>) -> (r: bool)
    ensures
        r == (a@ == b@),
{
    let r = a == b;
    proof {
        let sa = a@;
        let sb = b@;
        if sa.len() == sb.len() && (forall|i: int| 0 <= i < sa.len() ==> sa[i] == sb[i]) {
            assert(sa =~= sb);
        }
    }
    r
}

pub open spec fn is_dec_digit(b: u8) -> bool {
    0x30 <= b <= 0x39
}

/// The number denoted by a sequence of decimal digit bytes, most
/// significant first.
pub open spec fn spec_dec_value(s: Seq<u8>) -> int
    decreases s.len(),
{
    if s.len() == 0 {
        0
    } else {
        spec_dec_value(s.drop_last()) * 10 + (s.last() - 0x30)
    }
}

/// What parsing a decimal string as a `u64` yields: the denoted value when
/// the string is non-empty, all digits, and the value fits; nothing
/// otherwise.
pub open spec fn spec_parse_u64(s: Seq<u8>) -> Option<u64> {
    if s.len() > 0 && (forall|i: int| 0 <= i < s.len() ==> is_dec_digit(s[i])) && spec_dec_value(s)
        <= u64::MAX {
        Some(spec_dec_value(s) as u64)
    } else {
        None
    }
}

proof fn lemma_dec_value_nonneg(s: Seq<u8>)
    requires
        forall|i: int| 0 <= i < s.len() ==> is_dec_digit(s[i]),
    ensures
        spec_dec_value(s) >= 0,
    decreases s.len(),
{
    if s.len() > 0 {
        lemma_dec_value_nonneg(s.drop_last());
    }
}

proof fn lemma_dec_value_extend(s: Seq<u8>, i: int)
    requires
        0 <= i < s.len(),
    ensures
        spec_dec_value(s.take(i + 1)) == spec_dec_value(s.take(i)) * 10 + (s[i] - 0x30),
{
    assert(s.take(i + 1).drop_last() =~= s.take(i));
    assert(s.take(i + 1).last() == s[i]);
}

/// Parse a decimal `u64`, exactly as `spec_parse_u64` says.
pub fn parse_u64_dec(s: &Vec<u8>) -> (r: Option<u64>)
    ensures
        r == spec_parse_u64(s@),
{
    if s.len() == 0 {
        return None;
    }
    let mut acc: u64 = 0;
    let mut i: usize = 0;
    while i < s.len()
        invariant
            0 <= i <= s.len(),
            s.len() > 0,
            forall|j: int| 0 <= j < i ==> is_dec_digit(s@[j]),
            acc == spec_dec_value(s@.take(i as int)),
        decreases s.len() - i,
    {
        let b = s[i];
        if b < 0x30 || b > 0x39 {
            assert(!is_dec_digit(s@[i as int]));
            return None;
        }
        let d: u64 = (b - 0x30) as u64;
        proof {
            lemma_dec_value_extend(s@, i as int);
            assert(forall|j: int|
                0 <= j < i ==> is_dec_digit(#[trigger] s@.take(i as int)[j]));
            lemma_dec_value_nonneg(s@.take(i as int));
        }
        if acc > (u64::MAX - d) / 10 {
            proof {
                if forall|j: int| 0 <= j < s@.len() ==> is_dec_digit(s@[j]) {
                    lemma_dec_value_overflow(s@, i as int);
                }
            }
            return None;
        }
        acc = acc * 10 + d;
        i = i + 1;
    }
    proof {
        assert(s@.take(s@.len() as int) =~= s@);
    }
    Some(acc)
}

/// Once a digit prefix exceeds `u64::MAX`, every extension of it does too.
proof fn lemma_dec_value_overflow(s: Seq<u8>, i: int)
    requires
        0 <= i < s.len(),
        forall|j: int| 0 <= j < s.len() ==> is_dec_digit(s[j]),
        spec_dec_value(s.take(i)) * 10 + (s[i] - 0x30) > u64::MAX,
    ensures
        spec_dec_value(s) > u64::MAX,
    decreases s.len() - i,
{
    lemma_dec_value_extend(s, i);
    if i + 1 == s.len() {
        assert(s.take(i + 1) =~= s);
    } else {
        lemma_dec_value_extend(s, i + 1);
        lemma_dec_value_nonneg(s.take(i + 1));
        lemma_dec_value_overflow(s, i + 1);
    }
}

pub open spec fn spec_dec_digit(d: int) -> u8 {
    (0x30 + d) as u8
}

/// The decimal rendering of a non-negative number, most significant digit
/// first, with no leading zeros (zero itself is "0").
pub open spec fn spec_dec_render(n: int) -> Seq<u8>
    decreases n,
{
    if n < 10 {
        seq![spec_dec_digit(if n >= 0 { n % 10 } else { 0 })]
    } else {
        spec_dec_render(n / 10).push(spec_dec_digit(n % 10))
    }
}

/// Render a `u16` in decimal, exactly as `spec_dec_render` says.
pub fn render_u16_dec(n: u16) -> (r: Vec<u8>)
    ensures
        r@ == spec_dec_render(n as int),
{
    let mut rev: Vec<u8> = Vec::new();
    let mut m: u16 = n;
    while m >= 10
        invariant
            spec_dec_render(n as int) =~= spec_dec_render(m as int) + rev@.reverse(),
        decreases m,
    {
        proof {
            assert((spec_dec_render(m as int / 10).push(spec_dec_digit(m as int % 10))
                + rev@.reverse()) =~= spec_dec_render(m as int / 10) + rev@.push(
                spec_dec_digit(m as int % 10),
            ).reverse());
        }
        rev.push(0x30 + (m % 10) as u8);
        m = m / 10;
    }
    let mut r: Vec<u8> = Vec::new();
    r.push(0x30 + (m % 10) as u8);
    proof {
        assert(r@ =~= spec_dec_render(m as int));
    }
    let mut k: usize = rev.len();
    while k > 0
        invariant
            k <= rev.len(),
            r@ =~= spec_dec_render(m as int) + rev@.reverse().take(rev@.len() - k),
        decreases k,
    {
        k = k - 1;
        r.push(rev[k]);
        proof {
            assert(rev@.reverse()[rev@.len() - k - 1] == rev@[k as int]);
            assert(r@ =~= spec_dec_render(m as int) + rev@.reverse().take(rev@.len() - k));
        }
    }
    proof {
        assert(rev@.reverse().take(rev@.len() as int) =~= rev@.reverse());
    }
    r
}

} // verus!
