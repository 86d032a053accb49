//! Integer literals as `str::parse` and `from_str_radix` read them: an
//! optional sign, then one or more digits of the radix.
use vstd::prelude::*;

verus! {

/// Value of the digit `c` (letters count from 10 in either case), or a
/// value no radix accepts.
pub open spec fn digit_value(c: char) -> int {
    if '0' <= c && c <= '9' {
        c as int - 48
    } else if 'a' <= c && c <= 'z' {
        c as int - 97 + 10
    } else if 'A' <= c && c <= 'Z' {
        c as int - 65 + 10
    } else {
        99
    }
}

/// Whether every character of `s` is a digit of `radix`.
pub open spec fn all_digits(s: Seq<char>, radix: int) -> bool {
    forall|i: int| 0 <= i < s.len() ==> digit_value(#[trigger] s[i]) < radix
}

/// Value of the digit string `s` in `radix`.
pub open spec fn digits_value(s: Seq<char>, radix: int) -> int
    decreases s.len(),
{
    if s.len() == 0 {
        0
    } else {
        digits_value(s.drop_last(), radix) * radix + digit_value(s.last())
    }
}

/// The integer written by `s` in `radix`, with an optional `+` (or, when
/// `signed`, `-`) in front; `None` when `s` is not such a literal.
pub open spec fn literal_value(s: Seq<char>, radix: int, signed: bool) -> Option<int> {
    let neg = signed && s.len() > 0 && s[0] == '-';
    let body = if s.len() > 0 && (s[0] == '+' || neg) {
        s.drop_first()
    } else {
        s
    };
    if body.len() == 0 || !all_digits(body, radix) {
        None
    } else if neg {
        Some(-digits_value(body, radix))
    } else {
        Some(digits_value(body, radix))
    }
}

/// The literal's value when it lies in `lo..=hi`.
pub open spec fn parse_in(s: Seq<char>, radix: int, signed: bool, lo: int, hi: int) -> Option<int> {
    match literal_value(s, radix, signed) {
        Some(v) => if lo <= v <= hi {
            Some(v)
        } else {
            None
        },
        None => None,
    }
}

proof fn lemma_digits_nonneg(s: Seq<char>, radix: int)
    requires
        radix >= 1,
        all_digits(s, radix),
    ensures
        digits_value(s, radix) >= 0,
    decreases s.len(),
{
    if s.len() > 0 {
        assert(all_digits(s.drop_last(), radix)) by {
            assert forall|i: int| 0 <= i < s.drop_last().len() implies digit_value(
                #[trigger] s.drop_last()[i],
            ) < radix by {
                assert(s.drop_last()[i] == s[i]);
            }
        }
        lemma_digits_nonneg(s.drop_last(), radix);
        assert(digit_value(s[s.len() - 1]) >= 0);
        let v = digits_value(s.drop_last(), radix);
        assert(v * radix >= 0) by (nonlinear_arith)
            requires
                v >= 0,
                radix >= 1,
        ;
    }
}

fn digit_of(c: char) -> (r: u32)
    ensures
        r == digit_value(c),
{
    if '0' <= c && c <= '9' {
        (c as u32) - 48
    } else if 'a' <= c && c <= 'z' {
        (c as u32) - 97 + 10
    } else if 'A' <= c && c <= 'Z' {
        (c as u32) - 65 + 10
    } else {
        99
    }
}

/// Reads `s` as an integer literal of `radix` (see [`literal_value`]) and
/// returns its value when it lies in `lo..=hi`.
pub fn parse_literal(s: &[char], radix: u32, signed: bool, lo: i128, hi: i128) -> (r: Option<i128>)
    requires
        2 <= radix <= 16,
        -0x1_0000_0000_0000_0000 <= lo,
        hi <= 0x1_0000_0000_0000_0000,
    ensures
        r matches Some(v) ==> parse_in(s@, radix as int, signed, lo as int, hi as int) == Some(
            v as int,
        ),
        r is None ==> parse_in(s@, radix as int, signed, lo as int, hi as int) is None,
{
    let n = s.len();
    let neg = signed && n > 0 && s[0] == '-';
    let start: usize = if n > 0 && (s[0] == '+' || neg) {
        1
    } else {
        0
    };
    let ghost body = if n > 0 && (s@[0] == '+' || neg) {
        s@.drop_first()
    } else {
        s@
    };
    assert(body =~= s@.subrange(start as int, n as int));
    if start == n {
        assert(literal_value(s@, radix as int, signed) is None);
        return None;
    }
    let cap: i128 = 0x2_0000_0000_0000_0000;
    let mut mag: i128 = 0;
    let mut i: usize = start;
    while i < n
        invariant
            start <= i <= n,
            n == s@.len(),
            body == s@.subrange(start as int, n as int),
            neg == (signed && s@.len() > 0 && s@[0] == '-'),
            body == (if s@.len() > 0 && (s@[0] == '+' || neg) {
                s@.drop_first()
            } else {
                s@
            }),
            lo <= hi || lo > hi,
            2 <= radix <= 16,
            cap == 0x2_0000_0000_0000_0000,
            all_digits(body.subrange(0, i - start), radix as int),
            0 <= mag <= cap,
            mag == if digits_value(body.subrange(0, i - start), radix as int) >= cap {
                cap as int
            } else {
                digits_value(body.subrange(0, i - start), radix as int)
            },
        decreases n - i,
    {
        let d = digit_of(s[i]);
        let ghost pre = body.subrange(0, i - start);
        let ghost now = body.subrange(0, i + 1 - start);
        assert(now.drop_last() =~= pre);
        assert(now.last() == s@[i as int]);
        if d >= radix {
            assert(body[i - start] == s@[i as int]);
            assert(digit_value(body[i - start]) >= radix);
            assert(!all_digits(body, radix as int));
            assert(literal_value(s@, radix as int, signed) is None);
            return None;
        }
        proof {
            lemma_digits_nonneg(pre, radix as int);
            assert(all_digits(now, radix as int)) by {
                assert forall|k: int| 0 <= k < now.len() implies digit_value(#[trigger] now[k])
                    < radix by {
                    if k < pre.len() {
                        assert(now[k] == pre[k]);
                    }
                }
            }
            let dv = digits_value(pre, radix as int);
            assert(digits_value(now, radix as int) == dv * radix + d);
            assert(dv >= cap ==> dv * radix + d >= cap) by (nonlinear_arith)
                requires
                    radix >= 2,
                    d >= 0,
                    cap >= 0,
            ;
            assert(mag * radix <= cap * 16) by (nonlinear_arith)
                requires
                    0 <= mag <= cap,
                    radix <= 16,
            ;
        }
        let next = mag * (radix as i128) + (d as i128);
        mag = if next >= cap {
            cap
        } else {
            next
        };
        i += 1;
    }
    assert(body.subrange(0, i - start) =~= body);
    proof {
        lemma_digits_nonneg(body, radix as int);
    }
    let v: i128 = if neg {
        -mag
    } else {
        mag
    };
    if lo <= v && v <= hi {
        Some(v)
    } else {
        None
    }
}

} // verus!
