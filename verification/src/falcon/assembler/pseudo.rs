//! Pseudo-instructions that expand to several instructions: `la`, `push`,
//! `pop`, `print`, `printString` and `read`.
use vstd::prelude::*;
use crate::falcon::assembler::chars::{push_chars, words_of};
use crate::falcon::assembler::instr::{rest_operands, tail_operands};
use crate::falcon::assembler::labels::{self, Labels};
use crate::falcon::assembler::operands::{
    self, agrees, check_signed, check_u_imm, chars_of_text, parse_reg, views,
};
use crate::falcon::encoder;
use crate::falcon::instruction::Instruction;

verus! {

/// Whether every instruction of `is` has a machine word.
pub open spec fn all_encodable(is: Seq<Instruction>) -> bool {
    forall|k: int| 0 <= k < is.len() ==> encoder::encodable(#[trigger] is[k])
}

/// The executable sequence and the specified sequence agree.
pub open spec fn agrees_seq(r: Result<Vec<Instruction>, Vec<char>>, s: Result<Seq<Instruction>, Seq<char>>) -> bool {
    match r {
        Ok(v) => s == Ok::<Seq<Instruction>, Seq<char>>(v@) && all_encodable(v@),
        Err(e) => s == Err::<Seq<Instruction>, Seq<char>>(e@),
    }
}

/// Rounds `x` down to a multiple of 4096.
pub open spec fn floor_4096(x: int) -> int {
    (x / 4096) * 4096
}

/// `v` reduced into the range of `i32`, wrapping around.
pub open spec fn wrap_i32(v: int) -> i32 {
    (((v + 0x8000_0000) % 0x1_0000_0000) - 0x8000_0000) as i32
}

/// `la rd, label`: `lui rd, hi` then `addi rd, rd, lo`. With `a` the label's
/// address read as a signed word, `hi` is `a + 0x800` (wrapping) rounded down
/// to a multiple of 4096, and `lo` is `a - hi` (wrapping), a 12-bit signed
/// value, so that `lui` and `addi` together load the address.
#[verifier::opaque]
pub open spec fn la_expansion(s: Seq<char>, ls: Seq<(Seq<char>, u32)>) -> Result<
    Seq<Instruction>,
    Seq<char>,
> {
    let ops = tail_operands(s);
    if ops.len() != 2 {
        Err("expected 'rd, label'"@)
    } else {
        match operands::reg_number(ops[0]) {
            None => Err("invalid rd"@),
            Some(rd) => match labels::lookup(ls, ops[1]) {
                None => Err("label not found: "@ + ops[1]),
                Some(t) => {
                    let a = t as i32;
                    let hi = floor_4096(wrap_i32(a + 0x800) as int);
                    let lo = wrap_i32(a - hi);
                    match operands::upper_check(hi as i64, "la"@) {
                        Err(e) => Err(e),
                        Ok(h) => match operands::signed_check(lo as int, 12, "la"@) {
                            Err(e) => Err(e),
                            Ok(l) => Ok(
                                seq![
                                    Instruction::Lui { rd, imm: h },
                                    Instruction::Addi { rd, rs1: rd, imm: l },
                                ],
                            ),
                        },
                    }
                },
            },
        }
    }
}

/// `push rs`: `addi sp, sp, -4` then `sw rs, 4(sp)`.
pub open spec fn push_expansion(s: Seq<char>) -> Result<Seq<Instruction>, Seq<char>> {
    let ops = tail_operands(s);
    if ops.len() != 1 {
        Err("expected 'rs'"@)
    } else {
        match operands::reg_number(ops[0]) {
            None => Err("invalid rs"@),
            Some(rs) => Ok(
                seq![
                    Instruction::Addi { rd: 2, rs1: 2, imm: -4i32 },
                    Instruction::Sw { rs2: rs, rs1: 2, imm: 4 },
                ],
            ),
        }
    }
}

/// `pop rd`: `lw rd, 4(sp)` then `addi sp, sp, 4`.
pub open spec fn pop_expansion(s: Seq<char>) -> Result<Seq<Instruction>, Seq<char>> {
    let ops = tail_operands(s);
    if ops.len() != 1 {
        Err("expected 'rd'"@)
    } else {
        match operands::reg_number(ops[0]) {
            None => Err("invalid rd"@),
            Some(rd) => Ok(
                seq![
                    Instruction::Lw { rd, rs1: 2, imm: 4 },
                    Instruction::Addi { rd: 2, rs1: 2, imm: 4 },
                ],
            ),
        }
    }
}

/// `print rd`: `li a7, 1`, `mv a0, rd`, `ecall`.
pub open spec fn print_expansion(s: Seq<char>) -> Result<Seq<Instruction>, Seq<char>> {
    let ops = tail_operands(s);
    if ops.len() != 1 {
        Err("expected 'rd'"@)
    } else {
        match operands::reg_number(ops[0]) {
            None => Err("invalid rd"@),
            Some(rd) => Ok(
                seq![
                    Instruction::Addi { rd: 17, rs1: 0, imm: 1 },
                    Instruction::Addi { rd: 10, rs1: rd, imm: 0 },
                    Instruction::Ecall,
                ],
            ),
        }
    }
}

/// `printString rd`: `li a7, 2`, `mv a0, rd`, `ecall`; `printString label`:
/// `li a7, 2`, `la a0, label`, `ecall`.
pub open spec fn print_string_expansion(s: Seq<char>, ls: Seq<(Seq<char>, u32)>) -> Result<
    Seq<Instruction>,
    Seq<char>,
> {
    let ops = tail_operands(s);
    if ops.len() != 1 {
        Err("expected 'label|rd'"@)
    } else {
        match operands::reg_number(ops[0]) {
            Some(rd) => Ok(
                seq![
                    Instruction::Addi { rd: 17, rs1: 0, imm: 2 },
                    Instruction::Addi { rd: 10, rs1: rd, imm: 0 },
                    Instruction::Ecall,
                ],
            ),
            None => match la_expansion("la a0, "@ + ops[0], ls) {
                Err(e) => Err(e),
                Ok(p) => Ok(
                    seq![Instruction::Addi { rd: 17, rs1: 0, imm: 2 }, p[0], p[1], Instruction::Ecall],
                ),
            },
        }
    }
}

/// `read rd`: `li a7, 3`, `ecall`, `mv rd, a0`.
pub open spec fn read_expansion(s: Seq<char>) -> Result<Seq<Instruction>, Seq<char>> {
    let ops = tail_operands(s);
    if ops.len() != 1 {
        Err("expected 'rd'"@)
    } else {
        match operands::reg_number(ops[0]) {
            None => Err("invalid rd"@),
            Some(rd) => Ok(
                seq![
                    Instruction::Addi { rd: 17, rs1: 0, imm: 3 },
                    Instruction::Ecall,
                    Instruction::Addi { rd, rs1: 10, imm: 0 },
                ],
            ),
        }
    }
}

fn line_operands(s: &[char]) -> (r: Vec<Vec<char>>)
    ensures
        views(r@) == tail_operands(s@),
{
    let ws = words_of(s);
    rest_operands(&ws)
}

fn floor_div_4096(x: i64) -> (r: i64)
    requires
        -0x1_0000_0000 <= x <= 0x1_0000_0000,
    ensures
        r == floor_4096(x as int),
{
    let q = if x >= 0 {
        x / 4096
    } else {
        -((-x + 4095) / 4096)
    };
    assert(q == (x as int) / 4096) by (nonlinear_arith)
        requires
            x >= 0 ==> q == x / 4096,
            x < 0 ==> q == -((-x + 4095) / 4096),
    ;
    q * 4096
}

/// Expands `la rd, label`.
pub fn parse_la(s: &[char], ls: &Labels) -> (r: Result<Vec<Instruction>, Vec<char>>)
    ensures
        agrees_seq(r, la_expansion(s@, ls@)),
        r matches Ok(v) ==> v@.len() == 2,
{
    proof {
        reveal(la_expansion);
    }
    let ops = line_operands(s);
    if ops.len() != 2 {
        return Err(chars_of_text("expected 'rd, label'"));
    }
    let rd = match parse_reg(ops[0].as_slice()) {
        None => {
            return Err(chars_of_text("invalid rd"));
        },
        Some(r) => r,
    };
    let t = match ls.get(ops[1].as_slice()) {
        None => {
            let mut m = chars_of_text("label not found: ");
            push_chars(&mut m, ops[1].as_slice());
            return Err(m);
        },
        Some(t) => t,
    };
    let a: i32 = t as i32;
    let x = a.wrapping_add(0x800);
    proof {
        lemma_wrap_i32(a as int + 0x800, a.wrapping_add(0x800));
    }
    let hi = floor_div_4096(x as i64);
    assert(-0x8000_0000 <= hi <= 0x7fff_ffff) by (nonlinear_arith)
        requires
            hi == floor_4096(x as int),
            -0x8000_0000 <= x <= 0x7fff_ffff,
    ;
    let lo = a.wrapping_sub(hi as i32);
    proof {
        lemma_wrap_i32(a as int - hi, a.wrapping_sub(hi as i32));
    }
    let h = match check_u_imm(hi, chars_of_text("la").as_slice()) {
        Err(e) => {
            return Err(e);
        },
        Ok(h) => h,
    };
    let l = match check_signed(lo as i64, 12, chars_of_text("la").as_slice()) {
        Err(e) => {
            return Err(e);
        },
        Ok(l) => l,
    };
    proof {
        lemma_upper_ok(hi);
    }
    let v = vec![Instruction::Lui { rd, imm: h }, Instruction::Addi { rd, rs1: rd, imm: l }];
    assert(v@ =~= seq![Instruction::Lui { rd, imm: h }, Instruction::Addi { rd, rs1: rd, imm: l }]);
    Ok(v)
}

proof fn lemma_wrap_i32(v: int, w: i32)
    requires
        -0x1_0000_0000 < v < 0x1_0000_0000,
        v > i32::MAX ==> w == v - 0x1_0000_0000,
        v < i32::MIN ==> w == v + 0x1_0000_0000,
        i32::MIN <= v <= i32::MAX ==> w == v,
    ensures
        w == wrap_i32(v),
{
}

proof fn lemma_upper_ok(v: i64)
    requires
        v & 0xfff == 0,
        -0x8000_0000 <= v <= 0x7fff_f000,
    ensures
        encoder::fits_upper(v as i32),
{
    assert((v as i32) & 0xfff == 0) by (bit_vector)
        requires
            v & 0xfff == 0,
            -0x8000_0000 <= v <= 0x7fff_f000,
    ;
}

/// `la rd, label` loads the label's address whenever `rd` is a register and
/// the label is defined: a `lui` of a multiple of 4096 and an `addi` of a
/// 12-bit signed value, which add up to the address modulo 2^32.
pub proof fn lemma_la_loads_address(s: Seq<char>, ls: Seq<(Seq<char>, u32)>)
    requires
        tail_operands(s).len() == 2,
        operands::reg_number(tail_operands(s)[0]) is Some,
        labels::lookup(ls, tail_operands(s)[1]) is Some,
    ensures
        ({
            let rd = operands::reg_number(tail_operands(s)[0])->0;
            let t = labels::lookup(ls, tail_operands(s)[1])->0;
            exists|hi: i32, lo: i32|
                {
                    &&& la_expansion(s, ls) == Ok::<Seq<Instruction>, Seq<char>>(
                        seq![
                            Instruction::Lui { rd, imm: hi },
                            Instruction::Addi { rd, rs1: rd, imm: lo },
                        ],
                    )
                    &&& #[trigger] (hi % 4096) == 0
                    &&& -2048 <= lo <= 2047
                    &&& #[trigger] ((hi + lo - t) % 0x1_0000_0000) == 0
                }
        }),
{
    reveal(la_expansion);
    operands::lemma_half_ranges();
    let ops = tail_operands(s);
    let rd = operands::reg_number(ops[0])->0;
    let t = labels::lookup(ls, ops[1])->0;
    let a = t as i32;
    let x = wrap_i32(a + 0x800);
    let hi = floor_4096(x as int);
    assert(-0x8000_0000 <= hi <= 0x7fff_f000 && hi % 4096 == 0 && x - 4096 < hi <= x)
        by (nonlinear_arith)
        requires
            hi == floor_4096(x as int),
            -0x8000_0000 <= x <= 0x7fff_ffff,
    ;
    let lo = wrap_i32(a - hi);
    assert((t as int) - (a as int) == 0 || (t as int) - (a as int) == 0x1_0000_0000) by (bit_vector)
        requires
            a == t as i32,
    ;
    assert(-2048 <= lo <= 2047);
    let hi32 = hi as i32;
    let hv = hi as i64;
    assert(hv & 0xfff == 0) by (bit_vector)
        requires
            hv % 4096 == 0,
    ;
    assert(operands::upper_check(hv, "la"@) == Ok::<i32, Seq<char>>(hi32));
    assert(operands::signed_check(lo as int, 12, "la"@) == Ok::<i32, Seq<char>>(lo));
    assert(((hi32 + lo - t) % 0x1_0000_0000) == 0);
}

fn one_register(s: &[char], shape: &str, bad: &str) -> (r: Result<u8, Vec<char>>)
    ensures
        ({
            let ops = tail_operands(s@);
            match r {
                Ok(v) => ops.len() == 1 && operands::reg_number(ops[0]) == Some(v) && v < 32,
                Err(e) => (ops.len() != 1 && e@ == shape@) || (ops.len() == 1
                    && operands::reg_number(ops[0]) is None && e@ == bad@),
            }
        }),
{
    let ops = line_operands(s);
    if ops.len() != 1 {
        return Err(chars_of_text(shape));
    }
    match parse_reg(ops[0].as_slice()) {
        None => Err(chars_of_text(bad)),
        Some(v) => Ok(v),
    }
}

/// Expands `push rs`.
pub fn parse_push(s: &[char]) -> (r: Result<Vec<Instruction>, Vec<char>>)
    ensures
        agrees_seq(r, push_expansion(s@)),
{
    let rs = one_register(s, "expected 'rs'", "invalid rs")?;
    let v = vec![Instruction::Addi { rd: 2, rs1: 2, imm: -4 }, Instruction::Sw { rs2: rs, rs1: 2, imm: 4 }];
    assert(v@ =~= seq![
        Instruction::Addi { rd: 2, rs1: 2, imm: -4i32 },
        Instruction::Sw { rs2: rs, rs1: 2, imm: 4 },
    ]);
    Ok(v)
}

/// Expands `pop rd`.
pub fn parse_pop(s: &[char]) -> (r: Result<Vec<Instruction>, Vec<char>>)
    ensures
        agrees_seq(r, pop_expansion(s@)),
{
    let rd = one_register(s, "expected 'rd'", "invalid rd")?;
    let v = vec![Instruction::Lw { rd, rs1: 2, imm: 4 }, Instruction::Addi { rd: 2, rs1: 2, imm: 4 }];
    assert(v@ =~= seq![
        Instruction::Lw { rd, rs1: 2, imm: 4 },
        Instruction::Addi { rd: 2, rs1: 2, imm: 4 },
    ]);
    Ok(v)
}

/// Expands `print rd`.
pub fn parse_print(s: &[char]) -> (r: Result<Vec<Instruction>, Vec<char>>)
    ensures
        agrees_seq(r, print_expansion(s@)),
{
    let rd = one_register(s, "expected 'rd'", "invalid rd")?;
    let v = vec![
        Instruction::Addi { rd: 17, rs1: 0, imm: 1 },
        Instruction::Addi { rd: 10, rs1: rd, imm: 0 },
        Instruction::Ecall,
    ];
    assert(v@ =~= seq![
        Instruction::Addi { rd: 17, rs1: 0, imm: 1 },
        Instruction::Addi { rd: 10, rs1: rd, imm: 0 },
        Instruction::Ecall,
    ]);
    Ok(v)
}

/// Expands `read rd`.
pub fn parse_read(s: &[char]) -> (r: Result<Vec<Instruction>, Vec<char>>)
    ensures
        agrees_seq(r, read_expansion(s@)),
{
    let rd = one_register(s, "expected 'rd'", "invalid rd")?;
    let v = vec![
        Instruction::Addi { rd: 17, rs1: 0, imm: 3 },
        Instruction::Ecall,
        Instruction::Addi { rd, rs1: 10, imm: 0 },
    ];
    assert(v@ =~= seq![
        Instruction::Addi { rd: 17, rs1: 0, imm: 3 },
        Instruction::Ecall,
        Instruction::Addi { rd, rs1: 10, imm: 0 },
    ]);
    Ok(v)
}

/// Expands `printString label|rd`.
pub fn parse_print_string(s: &[char], ls: &Labels) -> (r: Result<Vec<Instruction>, Vec<char>>)
    ensures
        agrees_seq(r, print_string_expansion(s@, ls@)),
{
    let ops = line_operands(s);
    if ops.len() != 1 {
        return Err(chars_of_text("expected 'label|rd'"));
    }
    match parse_reg(ops[0].as_slice()) {
        Some(rd) => {
            let v = vec![
                Instruction::Addi { rd: 17, rs1: 0, imm: 2 },
                Instruction::Addi { rd: 10, rs1: rd, imm: 0 },
                Instruction::Ecall,
            ];
            assert(v@ =~= seq![
                Instruction::Addi { rd: 17, rs1: 0, imm: 2 },
                Instruction::Addi { rd: 10, rs1: rd, imm: 0 },
                Instruction::Ecall,
            ]);
            Ok(v)
        },
        None => {
            let mut la_line = chars_of_text("la a0, ");
            push_chars(&mut la_line, ops[0].as_slice());
            let p = parse_la(la_line.as_slice(), ls)?;
            let v = vec![Instruction::Addi { rd: 17, rs1: 0, imm: 2 }, p[0], p[1], Instruction::Ecall];
            assert(v@ =~= seq![
                Instruction::Addi { rd: 17, rs1: 0, imm: 2 },
                p@[0],
                p@[1],
                Instruction::Ecall,
            ]);
            Ok(v)
        },
    }
}

} // verus!
