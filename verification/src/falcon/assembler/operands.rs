//! Operands of assembly lines: registers, immediates, string literals,
//! range checks, branch offsets and `imm(rs1)` memory operands.
use vstd::prelude::*;
use vstd::arithmetic::power2::{
    lemma2_to64, lemma_pow2_pos, lemma_pow2_strictly_increases, lemma_pow2_unfold, pow2,
};
use crate::falcon::assembler::chars::{
    self, find_char, has_prefix, is_text, push_chars, push_text, slice_chars, split_chars,
    to_lowercase, trim_chars,
};
use crate::falcon::assembler::labels::{self, Labels};
use crate::falcon::assembler::numbers::{self, parse_literal};
use crate::text::{self, push_decimal};

verus! {

/// The texts of a vector of character vectors.
pub open spec fn views(v: Seq<Vec<char>>) -> Seq<Seq<char>> {
    v.map_values(|x: Vec<char>| x@)
}

/// Whether an executable result with a character-vector error is the
/// specified result.
pub open spec fn agrees<T>(r: Result<T, Vec<char>>, s: Result<T, Seq<char>>) -> bool {
    match r {
        Ok(v) => s == Ok::<T, Seq<char>>(v),
        Err(e) => s == Err::<T, Seq<char>>(e@),
    }
}

// ---------- operand lists ----------

/// The non-blank pieces of `ps`, trimmed.
pub open spec fn nonblank(ps: Seq<Seq<char>>) -> Seq<Seq<char>>
    decreases ps.len(),
{
    if ps.len() == 0 {
        seq![]
    } else {
        let r = nonblank(ps.drop_last());
        let t = chars::trim(ps.last());
        if t.len() == 0 {
            r
        } else {
            r.push(t)
        }
    }
}

/// The comma-separated operands of `rest`, trimmed, blanks dropped.
pub open spec fn operands(rest: Seq<char>) -> Seq<Seq<char>> {
    nonblank(chars::split_on(rest, ','))
}

pub fn split_operands(rest: &[char]) -> (r: Vec<Vec<char>>)
    ensures
        views(r@) == operands(rest@),
{
    let pieces = split_chars(rest, ',');
    let ghost ps = views(pieces@);
    let mut r: Vec<Vec<char>> = Vec::new();
    let mut i: usize = 0;
    while i < pieces.len()
        invariant
            i <= pieces@.len(),
            ps == views(pieces@),
            views(r@) == nonblank(ps.subrange(0, i as int)),
        decreases pieces@.len() - i,
    {
        let t = trim_chars(pieces[i].as_slice());
        assert(ps.subrange(0, i + 1).drop_last() =~= ps.subrange(0, i as int));
        assert(ps.subrange(0, i + 1).last() == pieces@[i as int]@);
        if t.len() > 0 {
            r.push(t);
        }
        i += 1;
        assert(views(r@) =~= nonblank(ps.subrange(0, i as int)));
    }
    assert(ps.subrange(0, i as int) =~= ps);
    r
}

// ---------- registers ----------

/// ABI name of a register.
pub open spec fn reg_alias(t: Seq<char>) -> Option<u8> {
    if t == "zero"@ {
        Some(0)
    } else if t == "ra"@ {
        Some(1)
    } else if t == "sp"@ {
        Some(2)
    } else if t == "gp"@ {
        Some(3)
    } else if t == "tp"@ {
        Some(4)
    } else if t == "t0"@ {
        Some(5)
    } else if t == "t1"@ {
        Some(6)
    } else if t == "t2"@ {
        Some(7)
    } else if t == "s0"@ || t == "fp"@ {
        Some(8)
    } else if t == "s1"@ {
        Some(9)
    } else if t == "a0"@ {
        Some(10)
    } else if t == "a1"@ {
        Some(11)
    } else if t == "a2"@ {
        Some(12)
    } else if t == "a3"@ {
        Some(13)
    } else if t == "a4"@ {
        Some(14)
    } else if t == "a5"@ {
        Some(15)
    } else if t == "a6"@ {
        Some(16)
    } else if t == "a7"@ {
        Some(17)
    } else if t == "s2"@ {
        Some(18)
    } else if t == "s3"@ {
        Some(19)
    } else if t == "s4"@ {
        Some(20)
    } else if t == "s5"@ {
        Some(21)
    } else if t == "s6"@ {
        Some(22)
    } else if t == "s7"@ {
        Some(23)
    } else if t == "s8"@ {
        Some(24)
    } else if t == "s9"@ {
        Some(25)
    } else if t == "s10"@ {
        Some(26)
    } else if t == "s11"@ {
        Some(27)
    } else if t == "t3"@ {
        Some(28)
    } else if t == "t4"@ {
        Some(29)
    } else if t == "t5"@ {
        Some(30)
    } else if t == "t6"@ {
        Some(31)
    } else {
        None
    }
}

/// The register `s` names: `x0`..`x31` (the number read as a `u8`
/// literal) or an ABI name, case-insensitively, around white space.
pub open spec fn reg_number(s: Seq<char>) -> Option<u8> {
    lower_reg_number(chars::lowercase(chars::trim(s)))
}

/// The register the lower-case name `t` names: `x0`..`x31` or an ABI name.
pub open spec fn lower_reg_number(t: Seq<char>) -> Option<u8> {
    let numbered = if t.len() > 0 && t[0] == 'x' {
        numbers::parse_in(t.drop_first(), 10, false, 0, 255)
    } else {
        None
    };
    match numbered {
        Some(n) => if n < 32 {
            Some(n as u8)
        } else {
            reg_alias(t)
        },
        None => reg_alias(t),
    }
}

fn alias_of(t: &[char]) -> (r: Option<u8>)
    ensures
        r == reg_alias(t@),
{
    if is_text(t, "zero") {
        Some(0)
    } else if is_text(t, "ra") {
        Some(1)
    } else if is_text(t, "sp") {
        Some(2)
    } else if is_text(t, "gp") {
        Some(3)
    } else if is_text(t, "tp") {
        Some(4)
    } else if is_text(t, "t0") {
        Some(5)
    } else if is_text(t, "t1") {
        Some(6)
    } else if is_text(t, "t2") {
        Some(7)
    } else if is_text(t, "s0") || is_text(t, "fp") {
        Some(8)
    } else if is_text(t, "s1") {
        Some(9)
    } else if is_text(t, "a0") {
        Some(10)
    } else if is_text(t, "a1") {
        Some(11)
    } else if is_text(t, "a2") {
        Some(12)
    } else if is_text(t, "a3") {
        Some(13)
    } else if is_text(t, "a4") {
        Some(14)
    } else if is_text(t, "a5") {
        Some(15)
    } else if is_text(t, "a6") {
        Some(16)
    } else if is_text(t, "a7") {
        Some(17)
    } else if is_text(t, "s2") {
        Some(18)
    } else if is_text(t, "s3") {
        Some(19)
    } else if is_text(t, "s4") {
        Some(20)
    } else if is_text(t, "s5") {
        Some(21)
    } else if is_text(t, "s6") {
        Some(22)
    } else if is_text(t, "s7") {
        Some(23)
    } else if is_text(t, "s8") {
        Some(24)
    } else if is_text(t, "s9") {
        Some(25)
    } else if is_text(t, "s10") {
        Some(26)
    } else if is_text(t, "s11") {
        Some(27)
    } else if is_text(t, "t3") {
        Some(28)
    } else if is_text(t, "t4") {
        Some(29)
    } else if is_text(t, "t5") {
        Some(30)
    } else if is_text(t, "t6") {
        Some(31)
    } else {
        None
    }
}

/// The register the lower-case name `t` names.
pub fn lower_register(t: &[char]) -> (r: Option<u8>)
    ensures
        r == lower_reg_number(t@),
        r matches Some(n) ==> n < 32,
{
    if t.len() > 0 && t[0] == 'x' {
        let digits = slice_chars(t, 1, t.len());
        assert(digits@ =~= t@.drop_first());
        match parse_literal(digits.as_slice(), 10, false, 0, 255) {
            Some(n) => {
                if n < 32 {
                    return Some(n as u8);
                }
            },
            None => {},
        }
    }
    let r = alias_of(t);
    proof {
        if r is Some {
            assert(r->Some_0 < 32);
        }
    }
    r
}

/// Reads a register operand. On ASCII text the case folding is plain: `A`
/// to `Z` are lowered and every other character is kept.
pub fn parse_reg(s: &[char]) -> (r: Option<u8>)
    ensures
        r == reg_number(s@),
        r matches Some(n) ==> n < 32,
        chars::all_ascii(chars::trim(s@)) ==> chars::lowercase(chars::trim(s@)) == chars::trim(
            s@,
        ).map_values(|c: char| chars::ascii_lower(c)),
        chars::all_ascii(chars::trim(s@)) ==> r == lower_reg_number(
            chars::trim(s@).map_values(|c: char| chars::ascii_lower(c)),
        ),
{
    let trimmed = trim_chars(s);
    let t = to_lowercase(trimmed.as_slice());
    lower_register(t.as_slice())
}

// ---------- immediates ----------

/// A 32-bit immediate: decimal, or hexadecimal after `0x`, with an optional
/// sign, around white space.
pub open spec fn imm_value(s: Seq<char>) -> Option<i32> {
    let t = chars::trim(s);
    let v = if chars::starts_with(t, "0x"@) {
        numbers::parse_in(t.subrange(2, t.len() as int), 16, true, i32::MIN as int, i32::MAX as int)
    } else {
        numbers::parse_in(t, 10, true, i32::MIN as int, i32::MAX as int)
    };
    match v {
        Some(x) => Some(x as i32),
        None => None,
    }
}

/// A 64-bit immediate, written as for [`imm_value`].
pub open spec fn imm64_value(s: Seq<char>) -> Option<i64> {
    let t = chars::trim(s);
    let v = if chars::starts_with(t, "0x"@) {
        numbers::parse_in(t.subrange(2, t.len() as int), 16, true, i64::MIN as int, i64::MAX as int)
    } else {
        numbers::parse_in(t, 10, true, i64::MIN as int, i64::MAX as int)
    };
    match v {
        Some(x) => Some(x as i64),
        None => None,
    }
}

fn parse_number(s: &[char], lo: i128, hi: i128) -> (r: Option<i128>)
    requires
        -0x1_0000_0000_0000_0000 <= lo,
        hi <= 0x1_0000_0000_0000_0000,
    ensures
        ({
            let t = chars::trim(s@);
            let v = if chars::starts_with(t, "0x"@) {
                numbers::parse_in(t.subrange(2, t.len() as int), 16, true, lo as int, hi as int)
            } else {
                numbers::parse_in(t, 10, true, lo as int, hi as int)
            };
            &&& r matches Some(x) ==> v == Some(x as int)
            &&& r is None ==> v is None
        }),
{
    let t = trim_chars(s);
    proof {
        reveal_strlit("0x");
    }
    if has_prefix(t.as_slice(), "0x") {
        let hex = slice_chars(t.as_slice(), 2, t.len());
        parse_literal(hex.as_slice(), 16, true, lo, hi)
    } else {
        parse_literal(t.as_slice(), 10, true, lo, hi)
    }
}

/// Reads a 32-bit immediate.
pub fn parse_imm(s: &[char]) -> (r: Option<i32>)
    ensures
        r == imm_value(s@),
{
    match parse_number(s, i32::MIN as i128, i32::MAX as i128) {
        Some(v) => Some(v as i32),
        None => None,
    }
}

/// Reads a 64-bit immediate.
pub fn parse_imm64(s: &[char]) -> (r: Option<i64>)
    ensures
        r == imm64_value(s@),
{
    match parse_number(s, i64::MIN as i128, i64::MAX as i128) {
        Some(v) => Some(v as i64),
        None => None,
    }
}

/// A string literal: text between double quotes, around white space, taken
/// as it is (no escapes).
pub open spec fn str_lit(s: Seq<char>) -> Option<Seq<char>> {
    let t = chars::trim(s);
    if t.len() >= 2 && t[0] == '"' && t.last() == '"' {
        Some(t.subrange(1, t.len() - 1))
    } else {
        None
    }
}

/// Reads a string literal.
pub fn parse_str_lit(s: &[char]) -> (r: Option<Vec<char>>)
    ensures
        r matches Some(v) ==> str_lit(s@) == Some(v@),
        r is None ==> str_lit(s@) is None,
{
    let t = trim_chars(s);
    let n = t.len();
    if n >= 2 && t[0] == '"' && t[n - 1] == '"' {
        Some(slice_chars(t.as_slice(), 1, n - 1))
    } else {
        None
    }
}

/// A shift amount: an immediate in `0..=31`.
pub open spec fn shamt_value(s: Seq<char>) -> Result<u8, Seq<char>> {
    match imm_value(s) {
        None => Err("invalid shamt: "@ + s),
        Some(v) => if 0 <= v <= 31 {
            Ok(v as u8)
        } else {
            Err("shamt out of range: "@ + text::dec_int(v as int))
        },
    }
}

/// Reads a shift amount.
pub fn parse_shamt(s: &[char]) -> (r: Result<u8, Vec<char>>)
    ensures
        agrees(r, shamt_value(s@)),
{
    match parse_imm(s) {
        None => {
            let mut m: Vec<char> = Vec::new();
            push_text(&mut m, "invalid shamt: ");
            push_chars(&mut m, s);
            Err(m)
        },
        Some(v) => {
            if 0 <= v && v <= 31 {
                Ok(v as u8)
            } else {
                let mut m: Vec<char> = Vec::new();
                push_text(&mut m, "shamt out of range: ");
                push_decimal(&mut m, v as i64);
                Err(m)
            }
        },
    }
}

// ---------- range checks ----------

/// Half the size of the signed range of a `bits`-bit field.
pub open spec fn half_range(bits: int) -> int {
    pow2((bits - 1) as nat) as int
}

/// The half ranges of the field widths the instructions use.
pub proof fn lemma_half_ranges()
    ensures
        half_range(12) == 2048,
        half_range(13) == 4096,
        half_range(21) == 1048576,
{
    lemma2_to64();
}

/// `2^(bits - 1)` for a field width `bits`.
fn half_of(bits: u32) -> (h: i64)
    requires
        field_width(bits),
    ensures
        h == half_range(bits as int),
        1 <= h <= 0x4000_0000,
{
    proof {
        lemma2_to64();
    }
    let mut h: i64 = 1;
    let mut i: u32 = 1;
    while i < bits
        invariant
            1 <= i <= bits <= 31,
            h == pow2((i - 1) as nat),
            pow2(29) == 0x2000_0000,
            pow2(30) == 0x4000_0000,
        decreases bits - i,
    {
        proof {
            if i - 1 < 29 {
                lemma_pow2_strictly_increases((i - 1) as nat, 29);
            }
            lemma_pow2_unfold(i as nat);
        }
        h = h * 2;
        i = i + 1;
    }
    proof {
        if i - 1 < 30 {
            lemma_pow2_strictly_increases((i - 1) as nat, 30);
        }
        lemma_pow2_pos((i - 1) as nat);
    }
    h
}

/// Whether `bits` is a width a signed field can be checked against (1 to 31 bits).
pub open spec fn field_width(bits: u32) -> bool {
    1 <= bits <= 31
}

/// `imm` when it fits a signed `bits`-bit field, else why not.
pub open spec fn signed_check(imm: int, bits: int, ctx: Seq<char>) -> Result<i32, Seq<char>> {
    let half = half_range(bits);
    if imm < -half || imm > half - 1 {
        Err(
            ctx + ": immediate "@ + text::dec_int(imm) + " out of "@ + text::dec_int(bits)
                + "-bit signed range ("@ + text::dec_int(-half) + ".."@ + text::dec_int(half - 1)
                + ")"@,
        )
    } else {
        Ok(imm as i32)
    }
}

/// Checks that `imm` fits a signed `bits`-bit field.
pub fn check_signed(imm: i64, bits: u32, ctx: &[char]) -> (r: Result<i32, Vec<char>>)
    requires
        field_width(bits),
    ensures
        agrees(r, signed_check(imm as int, bits as int, ctx@)),
{
    let half: i64 = half_of(bits);
    let max = half - 1;
    let min = -half;
    if imm < min || imm > max {
        let mut m: Vec<char> = Vec::new();
        push_chars(&mut m, ctx);
        push_text(&mut m, ": immediate ");
        push_decimal(&mut m, imm);
        push_text(&mut m, " out of ");
        push_decimal(&mut m, bits as i64);
        push_text(&mut m, "-bit signed range (");
        push_decimal(&mut m, min);
        push_text(&mut m, "..");
        push_decimal(&mut m, max);
        push_text(&mut m, ")");
        Err(m)
    } else {
        Ok(imm as i32)
    }
}

/// `imm` when it is a valid upper immediate (lower 12 bits clear, in the
/// 20-bit signed range shifted by 12), else why not.
pub open spec fn upper_check(imm: i64, ctx: Seq<char>) -> Result<i32, Seq<char>> {
    if imm & 0xfff != 0 {
        Err(ctx + ": immediate "@ + text::dec_int(imm as int) + " has non-zero lower 12 bits"@)
    } else if imm < -0x8000_0000 || imm > 0x7fff_f000 {
        Err(
            ctx + ": immediate "@ + text::dec_int(imm as int) + " out of 20-bit signed range ("@
                + text::dec_int(-0x8000_0000) + ".."@ + text::dec_int(0x7fff_f000) + ")"@,
        )
    } else {
        Ok(imm as i32)
    }
}

/// Checks that `imm` is a valid upper immediate.
pub fn check_u_imm(imm: i64, ctx: &[char]) -> (r: Result<i32, Vec<char>>)
    ensures
        agrees(r, upper_check(imm, ctx@)),
{
    if imm & 0xfff != 0 {
        let mut m: Vec<char> = Vec::new();
        push_chars(&mut m, ctx);
        push_text(&mut m, ": immediate ");
        push_decimal(&mut m, imm);
        push_text(&mut m, " has non-zero lower 12 bits");
        return Err(m);
    }
    let min: i64 = -0x8000_0000;
    let max: i64 = 0x7fff_f000;
    if imm < min || imm > max {
        let mut m: Vec<char> = Vec::new();
        push_chars(&mut m, ctx);
        push_text(&mut m, ": immediate ");
        push_decimal(&mut m, imm);
        push_text(&mut m, " out of 20-bit signed range (");
        push_decimal(&mut m, min);
        push_text(&mut m, "..");
        push_decimal(&mut m, max);
        push_text(&mut m, ")");
        Err(m)
    } else {
        Ok(imm as i32)
    }
}

// ---------- branch targets ----------

/// The offset a branch or jump operand gives: an immediate, or the distance
/// from `pc` to a label (as a 32-bit signed value); it must be even and fit
/// a signed `bits`-bit field.
pub open spec fn branch_offset(
    tok: Seq<char>,
    pc: u32,
    ls: Seq<(Seq<char>, u32)>,
    bits: int,
    ctx: Seq<char>,
) -> Result<i32, Seq<char>> {
    let imm: Result<int, Seq<char>> = match imm_value(tok) {
        Some(v) => Ok(v as int),
        None => match labels::lookup(ls, tok) {
            None => Err("label not found: "@ + tok),
            Some(t) => Ok(((t as int - pc as int) as i32) as int),
        },
    };
    match imm {
        Err(e) => Err(e),
        Ok(v) => if v % 2 != 0 {
            Err(ctx + ": offset "@ + text::dec_int(v) + " must be even"@)
        } else {
            signed_check(v, bits, ctx)
        },
    }
}

/// Reads a branch or jump operand.
pub fn branch_imm(tok: &[char], pc: u32, ls: &Labels, bits: u32, ctx: &[char]) -> (r: Result<
    i32,
    Vec<char>,
>)
    requires
        field_width(bits),
    ensures
        agrees(r, branch_offset(tok@, pc, ls@, bits as int, ctx@)),
{
    let imm: i64 = match parse_imm(tok) {
        Some(v) => v as i64,
        None => match ls.get(tok) {
            None => {
                let mut m: Vec<char> = Vec::new();
                push_text(&mut m, "label not found: ");
                push_chars(&mut m, tok);
                return Err(m);
            },
            Some(t) => ((t as i64 - pc as i64) as i32) as i64,
        },
    };
    if imm % 2 != 0 {
        let mut m: Vec<char> = Vec::new();
        push_chars(&mut m, ctx);
        push_text(&mut m, ": offset ");
        push_decimal(&mut m, imm);
        push_text(&mut m, " must be even");
        return Err(m);
    }
    check_signed(imm, bits, ctx)
}

// ---------- memory operands ----------

/// A memory operand `imm(rs1)`: the immediate and the base register.
pub open spec fn memop(op: Seq<char>) -> Result<(i32, u8), Seq<char>> {
    let k = chars::find(op, '(');
    if k == op.len() {
        Err("invalid mem operand: "@ + op)
    } else {
        let imm_s = op.subrange(0, k);
        let rest = op.subrange(k + 1, op.len() as int);
        if !chars::ends_with(rest, ")"@) {
            Err("missing ')'"@)
        } else {
            let rs1_s = rest.subrange(0, rest.len() - 1);
            match imm_value(chars::trim(imm_s)) {
                None => Err("invalid imm: "@ + imm_s),
                Some(imm) => match reg_number(chars::trim(rs1_s)) {
                    None => Err("invalid rs1: "@ + rs1_s),
                    Some(rs1) => Ok((imm, rs1)),
                },
            }
        }
    }
}

/// Reads a memory operand `imm(rs1)`.
pub fn parse_memop(op: &[char]) -> (r: Result<(i32, u8), Vec<char>>)
    ensures
        agrees(r, memop(op@)),
        r matches Ok((_, rs1)) ==> rs1 < 32,
{
    let n = op.len();
    let k = find_char(op, '(');
    if k == n {
        let mut m: Vec<char> = Vec::new();
        push_text(&mut m, "invalid mem operand: ");
        push_chars(&mut m, op);
        return Err(m);
    }
    let imm_s = slice_chars(op, 0, k);
    let rest = slice_chars(op, k + 1, n);
    let rn = rest.len();
    if rn == 0 || rest[rn - 1] != ')' {
        proof {
            reveal_strlit(")");
            if rn > 0 {
                assert(rest@.subrange(rn - 1, rn as int) =~= seq![rest@[rn - 1]]);
                assert(")"@.len() == 1);
                assert(")"@[0] == ')');
                assert(rest@.subrange(rn - 1, rn as int) != ")"@);
            }
            assert(!chars::ends_with(rest@, ")"@));
            assert(rest@ == op@.subrange(k + 1, op@.len() as int));
        }
        let mut m: Vec<char> = Vec::new();
        push_text(&mut m, "missing ')'");
        assert(m@ =~= "missing ')'"@);
        return Err(m);
    }
    proof {
        reveal_strlit(")");
        assert(rest@.subrange(rn - 1, rn as int) =~= ")"@);
    }
    let rs1_s = slice_chars(rest.as_slice(), 0, rn - 1);
    let imm_t = trim_chars(imm_s.as_slice());
    let imm = match parse_imm(imm_t.as_slice()) {
        None => {
            let mut m: Vec<char> = Vec::new();
            push_text(&mut m, "invalid imm: ");
            push_chars(&mut m, imm_s.as_slice());
            return Err(m);
        },
        Some(v) => v,
    };
    let rs1_t = trim_chars(rs1_s.as_slice());
    match parse_reg(rs1_t.as_slice()) {
        None => {
            let mut m: Vec<char> = Vec::new();
            push_text(&mut m, "invalid rs1: ");
            push_chars(&mut m, rs1_s.as_slice());
            Err(m)
        },
        Some(rs1) => Ok((imm, rs1)),
    }
}

/// Operands `rd, imm(rs1)` of a load.
pub open spec fn load_operands(ops: Seq<Seq<char>>) -> Result<(u8, i32, u8), Seq<char>> {
    if ops.len() != 2 {
        Err("load: expected 'rd, imm(rs1)'"@)
    } else {
        match reg_number(ops[0]) {
            None => Err("invalid rd"@),
            Some(rd) => match memop(ops[1]) {
                Err(e) => Err(e),
                Ok((imm, rs1)) => Ok((rd, imm, rs1)),
            },
        }
    }
}

/// Operands `rs2, imm(rs1)` of a store.
pub open spec fn store_operands(ops: Seq<Seq<char>>) -> Result<(u8, i32, u8), Seq<char>> {
    if ops.len() != 2 {
        Err("store: expected 'rs2, imm(rs1)'"@)
    } else {
        match reg_number(ops[0]) {
            None => Err("invalid rs2"@),
            Some(rs2) => match memop(ops[1]) {
                Err(e) => Err(e),
                Ok((imm, rs1)) => Ok((rs2, imm, rs1)),
            },
        }
    }
}

/// Reads the operands of a load.
pub fn load_like(ops: &[Vec<char>]) -> (r: Result<(u8, i32, u8), Vec<char>>)
    ensures
        agrees(r, load_operands(views(ops@))),
        r matches Ok((rd, _, rs1)) ==> rd < 32 && rs1 < 32,
{
    if ops.len() != 2 {
        return Err(chars_of_text("load: expected 'rd, imm(rs1)'"));
    }
    let rd = match parse_reg(ops[0].as_slice()) {
        None => {
            return Err(chars_of_text("invalid rd"));
        },
        Some(r) => r,
    };
    match parse_memop(ops[1].as_slice()) {
        Err(e) => Err(e),
        Ok((imm, rs1)) => Ok((rd, imm, rs1)),
    }
}

/// Reads the operands of a store.
pub fn store_like(ops: &[Vec<char>]) -> (r: Result<(u8, i32, u8), Vec<char>>)
    ensures
        agrees(r, store_operands(views(ops@))),
        r matches Ok((rs2, _, rs1)) ==> rs2 < 32 && rs1 < 32,
{
    if ops.len() != 2 {
        return Err(chars_of_text("store: expected 'rs2, imm(rs1)'"));
    }
    let rs2 = match parse_reg(ops[0].as_slice()) {
        None => {
            return Err(chars_of_text("invalid rs2"));
        },
        Some(r) => r,
    };
    match parse_memop(ops[1].as_slice()) {
        Err(e) => Err(e),
        Ok((imm, rs1)) => Ok((rs2, imm, rs1)),
    }
}

/// The characters of the text `t`.
pub fn chars_of_text(t: &str) -> (r: Vec<char>)
    ensures
        r@ == t@,
{
    crate::text::chars_of(t)
}

} // verus!
