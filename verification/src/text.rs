//! Character-level helpers: conversions between `str`/`String` and character
//! vectors, and decimal and hexadecimal rendering of integers.
use vstd::prelude::*;

verus! {

/// The characters of `s`, in order.
pub(crate) fn chars_of(s: &str) -> (v: Vec<char>)
    ensures
        v@ == s@,
{
    let n = s.unicode_len();
    let mut v: Vec<char> = Vec::with_capacity(n);
    let mut i: usize = 0;
    while i < n
        invariant
            n == s@.len(),
            i <= n,
            v@ == s@.subrange(0, i as int),
        decreases n - i,
    {
        v.push(s.get_char(i));
        i += 1;
    }
    v
}

/// The string made of the characters `cs`.
///
/// Trusted: wraps `String`'s `FromIterator<char>`; claims only that the string
/// holds exactly the characters `cs` in order.
#[verifier::external_body]
pub(crate) fn string_of(cs: &[char]) -> (s: String)
    ensures
        s@ == cs@,
{
    cs.iter().collect()
}

/// `bytes` read as UTF-8 text, if they are valid UTF-8.
///
/// Trusted: wraps `std::str::from_utf8`; claims that it succeeds exactly on
/// valid UTF-8 and that the text is the decoding of the bytes.
#[verifier::external_body]
pub(crate) fn string_from_utf8(bytes: &[u8]) -> (r: Option<String>)
    ensures
        r is Some <==> vstd::utf8::valid_utf8(bytes@),
        r matches Some(s) ==> s@ == vstd::utf8::decode_utf8(bytes@),
{
    match std::str::from_utf8(bytes) {
        Ok(s) => Some(s.to_string()),
        Err(_) => None,
    }
}

// ---------- decimal ----------

pub open spec fn digit_char(d: int) -> char {
    (48 + d) as char
}

/// Decimal digits of `n`, most significant first, without leading zeros.
pub open spec fn dec_nat(n: nat) -> Seq<char>
    decreases n,
{
    if n < 10 {
        seq![digit_char(n as int)]
    } else {
        dec_nat(n / 10).push(digit_char((n % 10) as int))
    }
}

/// Decimal rendering of `v`, with a leading `-` when negative.
pub open spec fn dec_int(v: int) -> Seq<char> {
    if v < 0 {
        seq!['-'] + dec_nat((-v) as nat)
    } else {
        dec_nat(v as nat)
    }
}

/// Every character of a decimal rendering is ASCII.
pub proof fn lemma_dec_nat_ascii(n: nat)
    ensures
        forall|i: int| 0 <= i < dec_nat(n).len() ==> (#[trigger] dec_nat(n)[i]) as int <= 127,
        dec_nat(n).len() >= 1,
    decreases n,
{
    if n >= 10 {
        lemma_dec_nat_ascii(n / 10);
    }
}

pub proof fn lemma_dec_int_ascii(v: int)
    ensures
        forall|i: int| 0 <= i < dec_int(v).len() ==> (#[trigger] dec_int(v)[i]) as int <= 127,
{
    if v < 0 {
        lemma_dec_nat_ascii((-v) as nat);
        assert forall|i: int| 0 <= i < dec_int(v).len() implies (#[trigger] dec_int(v)[i]) as int
            <= 127 by {
            if i > 0 {
                assert(dec_int(v)[i] == dec_nat((-v) as nat)[i - 1]);
            }
        }
    } else {
        lemma_dec_nat_ascii(v as nat);
    }
}

/// Appends the decimal digits of `n` to `out`.
pub fn push_dec_nat(out: &mut Vec<char>, n: u128)
    ensures
        final(out)@ == old(out)@ + dec_nat(n as nat),
    decreases n,
{
    if n >= 10 {
        push_dec_nat(out, n / 10);
    }
    let d = (n % 10) as u8;
    out.push((48u8 + d) as char);
    proof {
        assert(old(out)@ + dec_nat(n as nat) =~= final(out)@) by {
            if n >= 10 {
                assert(dec_nat(n as nat) == dec_nat((n / 10) as nat).push(digit_char((n % 10) as int)));
            }
        }
    }
}

/// Appends the decimal rendering of `v` to `out`.
pub fn push_decimal(out: &mut Vec<char>, v: i64)
    ensures
        final(out)@ == old(out)@ + dec_int(v as int),
{
    if v < 0 {
        out.push('-');
        let mag: u64 = (-(v as i128)) as u64;
        push_dec_nat(out, mag as u128);
        assert(final(out)@ =~= old(out)@ + dec_int(v as int));
    } else {
        push_dec_nat(out, v as u128);
    }
}

// ---------- hexadecimal ----------

pub open spec fn hex_char(d: int) -> char {
    if d < 10 {
        (48 + d) as char
    } else {
        (55 + d) as char
    }
}

/// The low `k` hexadecimal digits of `v`, most significant first, upper case.
pub open spec fn hex_digits(v: nat, k: nat) -> Seq<char>
    decreases k,
{
    if k == 0 {
        seq![]
    } else {
        hex_digits(v / 16, (k - 1) as nat).push(hex_char((v % 16) as int))
    }
}

/// A word as eight upper-case hexadecimal digits (`{:08X}`).
pub open spec fn hex8(v: u32) -> Seq<char> {
    hex_digits(v as nat, 8)
}

fn push_hex_digits(out: &mut Vec<char>, v: u32, k: u32)
    requires
        k <= 8,
    ensures
        final(out)@ == old(out)@ + hex_digits(v as nat, k as nat),
    decreases k,
{
    if k > 0 {
        push_hex_digits(out, v / 16, k - 1);
        let d = (v % 16) as u8;
        let c = if d < 10 {
            (48u8 + d) as char
        } else {
            (55u8 + d) as char
        };
        out.push(c);
        assert(final(out)@ =~= old(out)@ + hex_digits(v as nat, k as nat));
    } else {
        assert(final(out)@ =~= old(out)@ + hex_digits(v as nat, k as nat));
    }
}

/// Appends `v` as eight upper-case hexadecimal digits to `out`.
pub fn push_hex8(out: &mut Vec<char>, v: u32)
    ensures
        final(out)@ == old(out)@ + hex8(v),
{
    push_hex_digits(out, v, 8);
}

} // verus!
