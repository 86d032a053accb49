//! Reading one assembly line into instructions: the base instructions and
//! the pseudo-instructions that expand to them.
use vstd::prelude::*;
use crate::falcon::assembler::chars::{self, is_text, join_words, push_chars, push_text, to_lowercase, words_of};
use crate::falcon::assembler::labels::{self, Labels};
use crate::falcon::assembler::operands::{
    self, agrees, branch_imm, check_signed, check_u_imm, chars_of_text, load_like, parse_imm,
    parse_reg, parse_shamt, split_operands, store_like, views,
};
use crate::falcon::encoder;
use crate::falcon::instruction::Instruction;

verus! {

// ---------- operand helpers ----------

/// A register operand, or the error naming it.
pub open spec fn reg_or_err(t: Seq<char>) -> Result<u8, Seq<char>> {
    match operands::reg_number(t) {
        Some(r) => Ok(r),
        None => Err("invalid register: "@ + t),
    }
}

/// An immediate operand, or the error naming it.
pub open spec fn imm_or_err(t: Seq<char>) -> Result<i32, Seq<char>> {
    match operands::imm_value(t) {
        Some(v) => Ok(v),
        None => Err("invalid immediate: "@ + t),
    }
}

fn get_reg(t: &[char]) -> (r: Result<u8, Vec<char>>)
    ensures
        agrees(r, reg_or_err(t@)),
        r matches Ok(v) ==> v < 32,
{
    match parse_reg(t) {
        Some(v) => Ok(v),
        None => {
            let mut m = chars_of_text("invalid register: ");
            push_chars(&mut m, t);
            Err(m)
        },
    }
}

fn get_imm(t: &[char]) -> (r: Result<i32, Vec<char>>)
    ensures
        agrees(r, imm_or_err(t@)),
{
    match parse_imm(t) {
        Some(v) => Ok(v),
        None => {
            let mut m = chars_of_text("invalid immediate: ");
            push_chars(&mut m, t);
            Err(m)
        },
    }
}

/// The operands after the first word of `s`.
pub open spec fn tail_operands(s: Seq<char>) -> Seq<Seq<char>> {
    let ws = chars::words(s);
    if ws.len() == 0 {
        operands::operands(seq![])
    } else {
        operands::operands(chars::join_spaces(ws.drop_first()))
    }
}

pub fn rest_operands(ws: &Vec<Vec<char>>) -> (r: Vec<Vec<char>>)
    ensures
        ws@.len() == 0 ==> views(r@) == operands::operands(seq![]),
        ws@.len() > 0 ==> views(r@) == operands::operands(chars::join_spaces(views(ws@).drop_first())),
{
    if ws.len() == 0 {
        let empty: Vec<char> = Vec::new();
        return split_operands(empty.as_slice());
    }
    let rest = join_words(ws.as_slice(), 1);
    assert(views(ws@).subrange(1, ws@.len() as int) =~= views(ws@).drop_first());
    split_operands(rest.as_slice())
}

// ---------- mnemonic groups ----------

pub open spec fn is_r_mnemonic(mn: Seq<char>) -> bool {
    mn == "add"@ || mn == "sub"@ || mn == "and"@ || mn == "or"@ || mn == "xor"@ || mn == "sll"@
        || mn == "srl"@ || mn == "sra"@ || mn == "slt"@ || mn == "sltu"@ || mn == "mul"@ || mn
        == "mulh"@ || mn == "mulhsu"@ || mn == "mulhu"@ || mn == "div"@ || mn == "divu"@ || mn
        == "rem"@ || mn == "remu"@
}

pub open spec fn r_instruction(mn: Seq<char>, rd: u8, rs1: u8, rs2: u8) -> Instruction {
    if mn == "add"@ {
        Instruction::Add { rd, rs1, rs2 }
    } else if mn == "sub"@ {
        Instruction::Sub { rd, rs1, rs2 }
    } else if mn == "and"@ {
        Instruction::And { rd, rs1, rs2 }
    } else if mn == "or"@ {
        Instruction::Or { rd, rs1, rs2 }
    } else if mn == "xor"@ {
        Instruction::Xor { rd, rs1, rs2 }
    } else if mn == "sll"@ {
        Instruction::Sll { rd, rs1, rs2 }
    } else if mn == "srl"@ {
        Instruction::Srl { rd, rs1, rs2 }
    } else if mn == "sra"@ {
        Instruction::Sra { rd, rs1, rs2 }
    } else if mn == "slt"@ {
        Instruction::Slt { rd, rs1, rs2 }
    } else if mn == "sltu"@ {
        Instruction::Sltu { rd, rs1, rs2 }
    } else if mn == "mul"@ {
        Instruction::Mul { rd, rs1, rs2 }
    } else if mn == "mulh"@ {
        Instruction::Mulh { rd, rs1, rs2 }
    } else if mn == "mulhsu"@ {
        Instruction::Mulhsu { rd, rs1, rs2 }
    } else if mn == "mulhu"@ {
        Instruction::Mulhu { rd, rs1, rs2 }
    } else if mn == "div"@ {
        Instruction::Div { rd, rs1, rs2 }
    } else if mn == "divu"@ {
        Instruction::Divu { rd, rs1, rs2 }
    } else if mn == "rem"@ {
        Instruction::Rem { rd, rs1, rs2 }
    } else {
        Instruction::Remu { rd, rs1, rs2 }
    }
}

/// How a register-register instruction reads in assembly: its mnemonic and
/// its destination and two source registers, in that order.
pub open spec fn r_parts(i: Instruction) -> Option<(Seq<char>, u8, u8, u8)> {
    match i {
        Instruction::Add { rd, rs1, rs2 } => Some(("add"@, rd, rs1, rs2)),
        Instruction::Sub { rd, rs1, rs2 } => Some(("sub"@, rd, rs1, rs2)),
        Instruction::And { rd, rs1, rs2 } => Some(("and"@, rd, rs1, rs2)),
        Instruction::Or { rd, rs1, rs2 } => Some(("or"@, rd, rs1, rs2)),
        Instruction::Xor { rd, rs1, rs2 } => Some(("xor"@, rd, rs1, rs2)),
        Instruction::Sll { rd, rs1, rs2 } => Some(("sll"@, rd, rs1, rs2)),
        Instruction::Srl { rd, rs1, rs2 } => Some(("srl"@, rd, rs1, rs2)),
        Instruction::Sra { rd, rs1, rs2 } => Some(("sra"@, rd, rs1, rs2)),
        Instruction::Slt { rd, rs1, rs2 } => Some(("slt"@, rd, rs1, rs2)),
        Instruction::Sltu { rd, rs1, rs2 } => Some(("sltu"@, rd, rs1, rs2)),
        Instruction::Mul { rd, rs1, rs2 } => Some(("mul"@, rd, rs1, rs2)),
        Instruction::Mulh { rd, rs1, rs2 } => Some(("mulh"@, rd, rs1, rs2)),
        Instruction::Mulhsu { rd, rs1, rs2 } => Some(("mulhsu"@, rd, rs1, rs2)),
        Instruction::Mulhu { rd, rs1, rs2 } => Some(("mulhu"@, rd, rs1, rs2)),
        Instruction::Div { rd, rs1, rs2 } => Some(("div"@, rd, rs1, rs2)),
        Instruction::Divu { rd, rs1, rs2 } => Some(("divu"@, rd, rs1, rs2)),
        Instruction::Rem { rd, rs1, rs2 } => Some(("rem"@, rd, rs1, rs2)),
        Instruction::Remu { rd, rs1, rs2 } => Some(("remu"@, rd, rs1, rs2)),
        _ => None,
    }
}

fn r_instr_exec(mn: &[char], rd: u8, rs1: u8, rs2: u8) -> (r: Instruction)
    requires
        is_r_mnemonic(mn@),
    ensures
        r == r_instruction(mn@, rd, rs1, rs2),
{
    if is_text(mn, "add") {
        Instruction::Add { rd, rs1, rs2 }
    } else if is_text(mn, "sub") {
        Instruction::Sub { rd, rs1, rs2 }
    } else if is_text(mn, "and") {
        Instruction::And { rd, rs1, rs2 }
    } else if is_text(mn, "or") {
        Instruction::Or { rd, rs1, rs2 }
    } else if is_text(mn, "xor") {
        Instruction::Xor { rd, rs1, rs2 }
    } else if is_text(mn, "sll") {
        Instruction::Sll { rd, rs1, rs2 }
    } else if is_text(mn, "srl") {
        Instruction::Srl { rd, rs1, rs2 }
    } else if is_text(mn, "sra") {
        Instruction::Sra { rd, rs1, rs2 }
    } else if is_text(mn, "slt") {
        Instruction::Slt { rd, rs1, rs2 }
    } else if is_text(mn, "sltu") {
        Instruction::Sltu { rd, rs1, rs2 }
    } else if is_text(mn, "mul") {
        Instruction::Mul { rd, rs1, rs2 }
    } else if is_text(mn, "mulh") {
        Instruction::Mulh { rd, rs1, rs2 }
    } else if is_text(mn, "mulhsu") {
        Instruction::Mulhsu { rd, rs1, rs2 }
    } else if is_text(mn, "mulhu") {
        Instruction::Mulhu { rd, rs1, rs2 }
    } else if is_text(mn, "div") {
        Instruction::Div { rd, rs1, rs2 }
    } else if is_text(mn, "divu") {
        Instruction::Divu { rd, rs1, rs2 }
    } else if is_text(mn, "rem") {
        Instruction::Rem { rd, rs1, rs2 }
    } else {
        Instruction::Remu { rd, rs1, rs2 }
    }
}

pub open spec fn is_i_mnemonic(mn: Seq<char>) -> bool {
    mn == "addi"@ || mn == "andi"@ || mn == "ori"@ || mn == "xori"@ || mn == "slti"@ || mn
        == "sltiu"@
}

pub open spec fn i_instruction(mn: Seq<char>, rd: u8, rs1: u8, imm: i32) -> Instruction {
    if mn == "addi"@ {
        Instruction::Addi { rd, rs1, imm }
    } else if mn == "andi"@ {
        Instruction::Andi { rd, rs1, imm }
    } else if mn == "ori"@ {
        Instruction::Ori { rd, rs1, imm }
    } else if mn == "xori"@ {
        Instruction::Xori { rd, rs1, imm }
    } else if mn == "slti"@ {
        Instruction::Slti { rd, rs1, imm }
    } else {
        Instruction::Sltiu { rd, rs1, imm }
    }
}

fn i_instr_exec(mn: &[char], rd: u8, rs1: u8, imm: i32) -> (r: Instruction)
    requires
        is_i_mnemonic(mn@),
    ensures
        r == i_instruction(mn@, rd, rs1, imm),
{
    if is_text(mn, "addi") {
        Instruction::Addi { rd, rs1, imm }
    } else if is_text(mn, "andi") {
        Instruction::Andi { rd, rs1, imm }
    } else if is_text(mn, "ori") {
        Instruction::Ori { rd, rs1, imm }
    } else if is_text(mn, "xori") {
        Instruction::Xori { rd, rs1, imm }
    } else if is_text(mn, "slti") {
        Instruction::Slti { rd, rs1, imm }
    } else {
        Instruction::Sltiu { rd, rs1, imm }
    }
}

pub open spec fn is_shift_mnemonic(mn: Seq<char>) -> bool {
    mn == "slli"@ || mn == "srli"@ || mn == "srai"@
}

pub open spec fn shift_instruction(mn: Seq<char>, rd: u8, rs1: u8, shamt: u8) -> Instruction {
    if mn == "slli"@ {
        Instruction::Slli { rd, rs1, shamt }
    } else if mn == "srli"@ {
        Instruction::Srli { rd, rs1, shamt }
    } else {
        Instruction::Srai { rd, rs1, shamt }
    }
}

pub open spec fn is_load_mnemonic(mn: Seq<char>) -> bool {
    mn == "lb"@ || mn == "lh"@ || mn == "lw"@ || mn == "lbu"@ || mn == "lhu"@
}

pub open spec fn load_instruction(mn: Seq<char>, rd: u8, rs1: u8, imm: i32) -> Instruction {
    if mn == "lb"@ {
        Instruction::Lb { rd, rs1, imm }
    } else if mn == "lh"@ {
        Instruction::Lh { rd, rs1, imm }
    } else if mn == "lw"@ {
        Instruction::Lw { rd, rs1, imm }
    } else if mn == "lbu"@ {
        Instruction::Lbu { rd, rs1, imm }
    } else {
        Instruction::Lhu { rd, rs1, imm }
    }
}

pub open spec fn is_store_mnemonic(mn: Seq<char>) -> bool {
    mn == "sb"@ || mn == "sh"@ || mn == "sw"@
}

pub open spec fn store_instruction(mn: Seq<char>, rs2: u8, rs1: u8, imm: i32) -> Instruction {
    if mn == "sb"@ {
        Instruction::Sb { rs2, rs1, imm }
    } else if mn == "sh"@ {
        Instruction::Sh { rs2, rs1, imm }
    } else {
        Instruction::Sw { rs2, rs1, imm }
    }
}

pub open spec fn is_branch_mnemonic(mn: Seq<char>) -> bool {
    mn == "beq"@ || mn == "bne"@ || mn == "blt"@ || mn == "bge"@ || mn == "bltu"@ || mn == "bgeu"@
}

pub open spec fn branch_instruction(mn: Seq<char>, rs1: u8, rs2: u8, imm: i32) -> Instruction {
    if mn == "beq"@ {
        Instruction::Beq { rs1, rs2, imm }
    } else if mn == "bne"@ {
        Instruction::Bne { rs1, rs2, imm }
    } else if mn == "blt"@ {
        Instruction::Blt { rs1, rs2, imm }
    } else if mn == "bge"@ {
        Instruction::Bge { rs1, rs2, imm }
    } else if mn == "bltu"@ {
        Instruction::Bltu { rs1, rs2, imm }
    } else {
        Instruction::Bgeu { rs1, rs2, imm }
    }
}

// ---------- one instruction line ----------

/// Three register operands `rd, rs1, rs2`.
pub open spec fn three_regs(ops: Seq<Seq<char>>) -> Result<(u8, u8, u8), Seq<char>> {
    match reg_or_err(ops[0]) {
        Err(e) => Err(e),
        Ok(rd) => match reg_or_err(ops[1]) {
            Err(e) => Err(e),
            Ok(rs1) => match reg_or_err(ops[2]) {
                Err(e) => Err(e),
                Ok(rs2) => Ok((rd, rs1, rs2)),
            },
        },
    }
}

/// Two register operands.
pub open spec fn two_regs(ops: Seq<Seq<char>>) -> Result<(u8, u8), Seq<char>> {
    match reg_or_err(ops[0]) {
        Err(e) => Err(e),
        Ok(a) => match reg_or_err(ops[1]) {
            Err(e) => Err(e),
            Ok(b) => Ok((a, b)),
        },
    }
}

pub open spec fn nop_form(ops: Seq<Seq<char>>) -> Result<Instruction, Seq<char>> {
    if ops.len() != 0 {
        Err("nop takes no operands"@)
    } else {
        Ok(Instruction::Addi { rd: 0, rs1: 0, imm: 0 })
    }
}

pub open spec fn mv_form(ops: Seq<Seq<char>>) -> Result<Instruction, Seq<char>> {
    if ops.len() != 2 {
        Err("expected 'rd, rs'"@)
    } else {
        match two_regs(ops) {
            Err(e) => Err(e),
            Ok((rd, rs)) => Ok(Instruction::Addi { rd, rs1: rs, imm: 0 }),
        }
    }
}

pub open spec fn li_form(ops: Seq<Seq<char>>) -> Result<Instruction, Seq<char>> {
    if ops.len() != 2 {
        Err("expected 'rd, imm'"@)
    } else {
        match reg_or_err(ops[0]) {
            Err(e) => Err(e),
            Ok(rd) => match imm_or_err(ops[1]) {
                Err(e) => Err(e),
                Ok(v) => match operands::signed_check(v as int, 12, "li"@) {
                    Err(e) => Err(e),
                    Ok(imm) => Ok(Instruction::Addi { rd, rs1: 0, imm }),
                },
            },
        }
    }
}

/// `j target` (link in `x0`) and `call target` (link in `ra`).
pub open spec fn jump_form(mn: Seq<char>, ops: Seq<Seq<char>>, pc: u32, ls: Seq<(Seq<char>, u32)>) -> Result<
    Instruction,
    Seq<char>,
> {
    if ops.len() != 1 {
        Err(mn + ": expected label/immediate"@)
    } else {
        match operands::branch_offset(ops[0], pc, ls, 21, mn) {
            Err(e) => Err(e),
            Ok(imm) => Ok(
                Instruction::Jal {
                    rd: if mn == "j"@ {
                        0
                    } else {
                        1
                    },
                    imm,
                },
            ),
        }
    }
}

pub open spec fn jr_form(ops: Seq<Seq<char>>) -> Result<Instruction, Seq<char>> {
    if ops.len() != 1 {
        Err("jr: expected register"@)
    } else {
        match reg_or_err(ops[0]) {
            Err(e) => Err(e),
            Ok(rs1) => Ok(Instruction::Jalr { rd: 0, rs1, imm: 0 }),
        }
    }
}

pub open spec fn ret_form(ops: Seq<Seq<char>>) -> Result<Instruction, Seq<char>> {
    if ops.len() != 0 {
        Err("ret takes no operands"@)
    } else {
        Ok(Instruction::Jalr { rd: 0, rs1: 1, imm: 0 })
    }
}

/// `subi rd, rs1, imm` is `addi` of the negated immediate (negation wraps,
/// so `i32::MIN` stays itself and fails the range check).
pub open spec fn subi_form(ops: Seq<Seq<char>>) -> Result<Instruction, Seq<char>> {
    if ops.len() != 3 {
        Err("expected 'rd, rs1, imm'"@)
    } else {
        match two_regs(ops) {
            Err(e) => Err(e),
            Ok((rd, rs1)) => match imm_or_err(ops[2]) {
                Err(e) => Err(e),
                Ok(v) => match operands::signed_check(
                    if v == i32::MIN {
                        v as int
                    } else {
                        -v
                    },
                    12,
                    "subi"@,
                ) {
                    Err(e) => Err(e),
                    Ok(imm) => Ok(Instruction::Addi { rd, rs1, imm }),
                },
            },
        }
    }
}

pub open spec fn r_form(mn: Seq<char>, ops: Seq<Seq<char>>) -> Result<Instruction, Seq<char>> {
    if ops.len() != 3 {
        Err("expected 'rd, rs1, rs2'"@)
    } else {
        match three_regs(ops) {
            Err(e) => Err(e),
            Ok((rd, rs1, rs2)) => Ok(r_instruction(mn, rd, rs1, rs2)),
        }
    }
}

pub open spec fn i_form(mn: Seq<char>, ops: Seq<Seq<char>>) -> Result<Instruction, Seq<char>> {
    if ops.len() != 3 {
        Err("expected 'rd, rs1, imm'"@)
    } else {
        match two_regs(ops) {
            Err(e) => Err(e),
            Ok((rd, rs1)) => match imm_or_err(ops[2]) {
                Err(e) => Err(e),
                Ok(v) => match operands::signed_check(v as int, 12, mn) {
                    Err(e) => Err(e),
                    Ok(imm) => Ok(i_instruction(mn, rd, rs1, imm)),
                },
            },
        }
    }
}

pub open spec fn shift_form(mn: Seq<char>, ops: Seq<Seq<char>>) -> Result<Instruction, Seq<char>> {
    if ops.len() != 3 {
        Err("expected 'rd, rs1, shamt'"@)
    } else {
        match two_regs(ops) {
            Err(e) => Err(e),
            Ok((rd, rs1)) => match operands::shamt_value(ops[2]) {
                Err(e) => Err(e),
                Ok(shamt) => Ok(shift_instruction(mn, rd, rs1, shamt)),
            },
        }
    }
}

pub open spec fn load_form(mn: Seq<char>, ops: Seq<Seq<char>>) -> Result<Instruction, Seq<char>> {
    match operands::load_operands(ops) {
        Err(e) => Err(e),
        Ok((rd, v, rs1)) => match operands::signed_check(v as int, 12, mn) {
            Err(e) => Err(e),
            Ok(imm) => Ok(load_instruction(mn, rd, rs1, imm)),
        },
    }
}

pub open spec fn store_form(mn: Seq<char>, ops: Seq<Seq<char>>) -> Result<Instruction, Seq<char>> {
    match operands::store_operands(ops) {
        Err(e) => Err(e),
        Ok((rs2, v, rs1)) => match operands::signed_check(v as int, 12, mn) {
            Err(e) => Err(e),
            Ok(imm) => Ok(store_instruction(mn, rs2, rs1, imm)),
        },
    }
}

pub open spec fn branch_form(mn: Seq<char>, ops: Seq<Seq<char>>, pc: u32, ls: Seq<(Seq<char>, u32)>) -> Result<
    Instruction,
    Seq<char>,
> {
    if ops.len() != 3 {
        Err("expected 'rs1, rs2, label/immediate'"@)
    } else {
        match two_regs(ops) {
            Err(e) => Err(e),
            Ok((rs1, rs2)) => match operands::branch_offset(ops[2], pc, ls, 13, mn) {
                Err(e) => Err(e),
                Ok(imm) => Ok(branch_instruction(mn, rs1, rs2, imm)),
            },
        }
    }
}

pub open spec fn upper_form(mn: Seq<char>, ops: Seq<Seq<char>>) -> Result<Instruction, Seq<char>> {
    if ops.len() != 2 {
        Err("expected 'rd, imm'"@)
    } else {
        match reg_or_err(ops[0]) {
            Err(e) => Err(e),
            Ok(rd) => match imm_or_err(ops[1]) {
                Err(e) => Err(e),
                Ok(v) => match operands::upper_check(v as i64, mn) {
                    Err(e) => Err(e),
                    Ok(imm) => Ok(
                        if mn == "lui"@ {
                            Instruction::Lui { rd, imm }
                        } else {
                            Instruction::Auipc { rd, imm }
                        },
                    ),
                },
            },
        }
    }
}

/// `jal target` (link in `ra`) or `jal rd, target`.
pub open spec fn jal_form(ops: Seq<Seq<char>>, pc: u32, ls: Seq<(Seq<char>, u32)>) -> Result<
    Instruction,
    Seq<char>,
> {
    if ops.len() == 0 {
        Err("jal: missing destination"@)
    } else if ops.len() == 1 {
        match operands::branch_offset(ops[0], pc, ls, 21, "jal"@) {
            Err(e) => Err(e),
            Ok(imm) => Ok(Instruction::Jal { rd: 1, imm }),
        }
    } else if ops.len() == 2 {
        match reg_or_err(ops[0]) {
            Err(e) => Err(e),
            Ok(rd) => match operands::branch_offset(ops[1], pc, ls, 21, "jal"@) {
                Err(e) => Err(e),
                Ok(imm) => Ok(Instruction::Jal { rd, imm }),
            },
        }
    } else {
        Err("jal: too many arguments"@)
    }
}

pub open spec fn jalr_form(ops: Seq<Seq<char>>) -> Result<Instruction, Seq<char>> {
    if ops.len() != 3 {
        Err("jalr: expected 'rd, rs1, imm'"@)
    } else {
        match two_regs(ops) {
            Err(e) => Err(e),
            Ok((rd, rs1)) => match imm_or_err(ops[2]) {
                Err(e) => Err(e),
                Ok(v) => match operands::signed_check(v as int, 12, "jalr"@) {
                    Err(e) => Err(e),
                    Ok(imm) => Ok(Instruction::Jalr { rd, rs1, imm }),
                },
            },
        }
    }
}

/// `ecall` or `ebreak`, which take no operands.
pub open spec fn system_form(mn: Seq<char>, ops: Seq<Seq<char>>) -> Result<Instruction, Seq<char>> {
    if ops.len() != 0 {
        Err(mn + " takes no operands"@)
    } else if mn == "ecall"@ {
        Ok(Instruction::Ecall)
    } else {
        Ok(Instruction::Ebreak)
    }
}

/// The instruction of the base or pseudo mnemonic `mn` with operands `ops`,
/// at address `pc`.
pub open spec fn mnemonic_instr(
    mn: Seq<char>,
    ops: Seq<Seq<char>>,
    pc: u32,
    ls: Seq<(Seq<char>, u32)>,
) -> Result<Instruction, Seq<char>> {
    if mn == "nop"@ {
        nop_form(ops)
    } else if mn == "mv"@ {
        mv_form(ops)
    } else if mn == "li"@ {
        li_form(ops)
    } else if mn == "j"@ || mn == "call"@ {
        jump_form(mn, ops, pc, ls)
    } else if mn == "jr"@ {
        jr_form(ops)
    } else if mn == "ret"@ {
        ret_form(ops)
    } else if mn == "subi"@ {
        subi_form(ops)
    } else if is_r_mnemonic(mn) {
        r_form(mn, ops)
    } else if is_i_mnemonic(mn) {
        i_form(mn, ops)
    } else if is_shift_mnemonic(mn) {
        shift_form(mn, ops)
    } else if is_load_mnemonic(mn) {
        load_form(mn, ops)
    } else if is_store_mnemonic(mn) {
        store_form(mn, ops)
    } else if is_branch_mnemonic(mn) {
        branch_form(mn, ops, pc, ls)
    } else if mn == "lui"@ || mn == "auipc"@ {
        upper_form(mn, ops)
    } else if mn == "jal"@ {
        jal_form(ops, pc, ls)
    } else if mn == "jalr"@ {
        jalr_form(ops)
    } else if mn == "ecall"@ || mn == "ebreak"@ {
        system_form(mn, ops)
    } else {
        Err("unsupported mnemonic: "@ + mn)
    }
}

/// The instruction a source line `s` (one instruction, label removed)
/// stands for at address `pc`.
pub open spec fn instr_of(s: Seq<char>, pc: u32, ls: Seq<(Seq<char>, u32)>) -> Result<
    Instruction,
    Seq<char>,
> {
    let ws = chars::words(s);
    if ws.len() == 0 {
        Err("empty line"@)
    } else {
        mnemonic_instr(chars::lowercase(ws[0]), tail_operands(s), pc, ls)
    }
}

fn three_regs_exec(ops: &[Vec<char>]) -> (r: Result<(u8, u8, u8), Vec<char>>)
    requires
        ops@.len() == 3,
    ensures
        agrees(r, three_regs(views(ops@))),
        r matches Ok((a, b, c)) ==> a < 32 && b < 32 && c < 32,
{
    let rd = get_reg(ops[0].as_slice())?;
    let rs1 = get_reg(ops[1].as_slice())?;
    let rs2 = get_reg(ops[2].as_slice())?;
    Ok((rd, rs1, rs2))
}

fn two_regs_exec(ops: &[Vec<char>]) -> (r: Result<(u8, u8), Vec<char>>)
    requires
        ops@.len() >= 2,
    ensures
        agrees(r, two_regs(views(ops@))),
        r matches Ok((a, b)) ==> a < 32 && b < 32,
{
    let a = get_reg(ops[0].as_slice())?;
    let b = get_reg(ops[1].as_slice())?;
    Ok((a, b))
}

fn nop_exec(ops: &[Vec<char>]) -> (r: Result<Instruction, Vec<char>>)
    ensures
        agrees(r, nop_form(views(ops@))),
{
    if ops.len() != 0 {
        return Err(chars_of_text("nop takes no operands"));
    }
    Ok(Instruction::Addi { rd: 0, rs1: 0, imm: 0 })
}

fn mv_exec(ops: &[Vec<char>]) -> (r: Result<Instruction, Vec<char>>)
    ensures
        agrees(r, mv_form(views(ops@))),
        r matches Ok(i) ==> encoder::encodable(i),
{
    if ops.len() != 2 {
        return Err(chars_of_text("expected 'rd, rs'"));
    }
    let (rd, rs) = two_regs_exec(ops)?;
    Ok(Instruction::Addi { rd, rs1: rs, imm: 0 })
}

fn li_exec(ops: &[Vec<char>]) -> (r: Result<Instruction, Vec<char>>)
    ensures
        agrees(r, li_form(views(ops@))),
        r matches Ok(i) ==> encoder::encodable(i),
{
    proof {
        operands::lemma_half_ranges();
    }
    if ops.len() != 2 {
        return Err(chars_of_text("expected 'rd, imm'"));
    }
    let rd = get_reg(ops[0].as_slice())?;
    let v = get_imm(ops[1].as_slice())?;
    let imm = check_signed(v as i64, 12, chars_of_text("li").as_slice())?;
    Ok(Instruction::Addi { rd, rs1: 0, imm })
}

fn jump_exec(mn: &[char], ops: &[Vec<char>], pc: u32, ls: &Labels) -> (r: Result<Instruction, Vec<char>>)
    ensures
        agrees(r, jump_form(mn@, views(ops@), pc, ls@)),
        r matches Ok(i) ==> encoder::encodable(i),
{
    proof {
        operands::lemma_half_ranges();
    }
    if ops.len() != 1 {
        let mut m: Vec<char> = Vec::new();
        push_chars(&mut m, mn);
        push_text(&mut m, ": expected label/immediate");
        return Err(m);
    }
    let imm = branch_imm(ops[0].as_slice(), pc, ls, 21, mn)?;
    let rd: u8 = if is_text(mn, "j") {
        0
    } else {
        1
    };
    Ok(Instruction::Jal { rd, imm })
}

fn jr_exec(ops: &[Vec<char>]) -> (r: Result<Instruction, Vec<char>>)
    ensures
        agrees(r, jr_form(views(ops@))),
        r matches Ok(i) ==> encoder::encodable(i),
{
    if ops.len() != 1 {
        return Err(chars_of_text("jr: expected register"));
    }
    let rs1 = get_reg(ops[0].as_slice())?;
    Ok(Instruction::Jalr { rd: 0, rs1, imm: 0 })
}

fn ret_exec(ops: &[Vec<char>]) -> (r: Result<Instruction, Vec<char>>)
    ensures
        agrees(r, ret_form(views(ops@))),
{
    if ops.len() != 0 {
        return Err(chars_of_text("ret takes no operands"));
    }
    Ok(Instruction::Jalr { rd: 0, rs1: 1, imm: 0 })
}

fn subi_exec(ops: &[Vec<char>]) -> (r: Result<Instruction, Vec<char>>)
    ensures
        agrees(r, subi_form(views(ops@))),
        r matches Ok(i) ==> encoder::encodable(i),
{
    proof {
        operands::lemma_half_ranges();
    }
    if ops.len() != 3 {
        return Err(chars_of_text("expected 'rd, rs1, imm'"));
    }
    let (rd, rs1) = two_regs_exec(ops)?;
    let v = get_imm(ops[2].as_slice())?;
    let neg: i32 = if v == i32::MIN {
        v
    } else {
        -v
    };
    let imm = check_signed(neg as i64, 12, chars_of_text("subi").as_slice())?;
    Ok(Instruction::Addi { rd, rs1, imm })
}

fn r_exec(mn: &[char], ops: &[Vec<char>]) -> (r: Result<Instruction, Vec<char>>)
    requires
        is_r_mnemonic(mn@),
    ensures
        agrees(r, r_form(mn@, views(ops@))),
        r matches Ok(i) ==> encoder::encodable(i),
{
    if ops.len() != 3 {
        return Err(chars_of_text("expected 'rd, rs1, rs2'"));
    }
    let (rd, rs1, rs2) = three_regs_exec(ops)?;
    Ok(r_instr_exec(mn, rd, rs1, rs2))
}

fn i_exec(mn: &[char], ops: &[Vec<char>]) -> (r: Result<Instruction, Vec<char>>)
    requires
        is_i_mnemonic(mn@),
    ensures
        agrees(r, i_form(mn@, views(ops@))),
        r matches Ok(i) ==> encoder::encodable(i),
{
    proof {
        operands::lemma_half_ranges();
    }
    if ops.len() != 3 {
        return Err(chars_of_text("expected 'rd, rs1, imm'"));
    }
    let (rd, rs1) = two_regs_exec(ops)?;
    let v = get_imm(ops[2].as_slice())?;
    let imm = check_signed(v as i64, 12, mn)?;
    Ok(i_instr_exec(mn, rd, rs1, imm))
}

fn shift_exec(mn: &[char], ops: &[Vec<char>]) -> (r: Result<Instruction, Vec<char>>)
    requires
        is_shift_mnemonic(mn@),
    ensures
        agrees(r, shift_form(mn@, views(ops@))),
        r matches Ok(i) ==> encoder::encodable(i),
{
    if ops.len() != 3 {
        return Err(chars_of_text("expected 'rd, rs1, shamt'"));
    }
    let (rd, rs1) = two_regs_exec(ops)?;
    let shamt = parse_shamt(ops[2].as_slice())?;
    if is_text(mn, "slli") {
        Ok(Instruction::Slli { rd, rs1, shamt })
    } else if is_text(mn, "srli") {
        Ok(Instruction::Srli { rd, rs1, shamt })
    } else {
        Ok(Instruction::Srai { rd, rs1, shamt })
    }
}

fn load_exec(mn: &[char], ops: &[Vec<char>]) -> (r: Result<Instruction, Vec<char>>)
    requires
        is_load_mnemonic(mn@),
    ensures
        agrees(r, load_form(mn@, views(ops@))),
        r matches Ok(i) ==> encoder::encodable(i),
{
    proof {
        operands::lemma_half_ranges();
    }
    let (rd, v, rs1) = load_like(ops)?;
    let imm = check_signed(v as i64, 12, mn)?;
    if is_text(mn, "lb") {
        Ok(Instruction::Lb { rd, rs1, imm })
    } else if is_text(mn, "lh") {
        Ok(Instruction::Lh { rd, rs1, imm })
    } else if is_text(mn, "lw") {
        Ok(Instruction::Lw { rd, rs1, imm })
    } else if is_text(mn, "lbu") {
        Ok(Instruction::Lbu { rd, rs1, imm })
    } else {
        Ok(Instruction::Lhu { rd, rs1, imm })
    }
}

fn store_exec(mn: &[char], ops: &[Vec<char>]) -> (r: Result<Instruction, Vec<char>>)
    requires
        is_store_mnemonic(mn@),
    ensures
        agrees(r, store_form(mn@, views(ops@))),
        r matches Ok(i) ==> encoder::encodable(i),
{
    proof {
        operands::lemma_half_ranges();
    }
    let (rs2, v, rs1) = store_like(ops)?;
    let imm = check_signed(v as i64, 12, mn)?;
    if is_text(mn, "sb") {
        Ok(Instruction::Sb { rs2, rs1, imm })
    } else if is_text(mn, "sh") {
        Ok(Instruction::Sh { rs2, rs1, imm })
    } else {
        Ok(Instruction::Sw { rs2, rs1, imm })
    }
}

fn branch_exec(mn: &[char], ops: &[Vec<char>], pc: u32, ls: &Labels) -> (r: Result<Instruction, Vec<char>>)
    requires
        is_branch_mnemonic(mn@),
    ensures
        agrees(r, branch_form(mn@, views(ops@), pc, ls@)),
        r matches Ok(i) ==> encoder::encodable(i),
{
    proof {
        operands::lemma_half_ranges();
    }
    if ops.len() != 3 {
        return Err(chars_of_text("expected 'rs1, rs2, label/immediate'"));
    }
    let (rs1, rs2) = two_regs_exec(ops)?;
    let imm = branch_imm(ops[2].as_slice(), pc, ls, 13, mn)?;
    if is_text(mn, "beq") {
        Ok(Instruction::Beq { rs1, rs2, imm })
    } else if is_text(mn, "bne") {
        Ok(Instruction::Bne { rs1, rs2, imm })
    } else if is_text(mn, "blt") {
        Ok(Instruction::Blt { rs1, rs2, imm })
    } else if is_text(mn, "bge") {
        Ok(Instruction::Bge { rs1, rs2, imm })
    } else if is_text(mn, "bltu") {
        Ok(Instruction::Bltu { rs1, rs2, imm })
    } else {
        Ok(Instruction::Bgeu { rs1, rs2, imm })
    }
}

fn upper_exec(mn: &[char], ops: &[Vec<char>]) -> (r: Result<Instruction, Vec<char>>)
    requires
        mn@ == "lui"@ || mn@ == "auipc"@,
    ensures
        agrees(r, upper_form(mn@, views(ops@))),
        r matches Ok(i) ==> encoder::encodable(i),
{
    if ops.len() != 2 {
        return Err(chars_of_text("expected 'rd, imm'"));
    }
    let rd = get_reg(ops[0].as_slice())?;
    let v = get_imm(ops[1].as_slice())?;
    let imm = check_u_imm(v as i64, mn)?;
    proof {
        lemma_upper_fits(v as i64);
    }
    if is_text(mn, "lui") {
        Ok(Instruction::Lui { rd, imm })
    } else {
        Ok(Instruction::Auipc { rd, imm })
    }
}

fn jal_exec(ops: &[Vec<char>], pc: u32, ls: &Labels) -> (r: Result<Instruction, Vec<char>>)
    ensures
        agrees(r, jal_form(views(ops@), pc, ls@)),
        r matches Ok(i) ==> encoder::encodable(i),
{
    proof {
        operands::lemma_half_ranges();
    }
    let n = ops.len();
    if n == 0 {
        Err(chars_of_text("jal: missing destination"))
    } else if n == 1 {
        let imm = branch_imm(ops[0].as_slice(), pc, ls, 21, chars_of_text("jal").as_slice())?;
        Ok(Instruction::Jal { rd: 1, imm })
    } else if n == 2 {
        let rd = get_reg(ops[0].as_slice())?;
        let imm = branch_imm(ops[1].as_slice(), pc, ls, 21, chars_of_text("jal").as_slice())?;
        Ok(Instruction::Jal { rd, imm })
    } else {
        Err(chars_of_text("jal: too many arguments"))
    }
}

fn jalr_exec(ops: &[Vec<char>]) -> (r: Result<Instruction, Vec<char>>)
    ensures
        agrees(r, jalr_form(views(ops@))),
        r matches Ok(i) ==> encoder::encodable(i),
{
    proof {
        operands::lemma_half_ranges();
    }
    if ops.len() != 3 {
        return Err(chars_of_text("jalr: expected 'rd, rs1, imm'"));
    }
    let (rd, rs1) = two_regs_exec(ops)?;
    let v = get_imm(ops[2].as_slice())?;
    let imm = check_signed(v as i64, 12, chars_of_text("jalr").as_slice())?;
    Ok(Instruction::Jalr { rd, rs1, imm })
}

fn system_exec(mn: &[char], ops: &[Vec<char>]) -> (r: Result<Instruction, Vec<char>>)
    ensures
        agrees(r, system_form(mn@, views(ops@))),
        r matches Ok(i) ==> encoder::encodable(i),
{
    if ops.len() != 0 {
        let mut m: Vec<char> = Vec::new();
        push_chars(&mut m, mn);
        push_text(&mut m, " takes no operands");
        return Err(m);
    }
    if is_text(mn, "ecall") {
        Ok(Instruction::Ecall)
    } else {
        Ok(Instruction::Ebreak)
    }
}

/// Reads the instruction of mnemonic `mn` with operands `ops` at `pc`.
pub fn mnemonic_instruction(mn: &[char], ops: &[Vec<char>], pc: u32, ls: &Labels) -> (r: Result<
    Instruction,
    Vec<char>,
>)
    ensures
        agrees(r, mnemonic_instr(mn@, views(ops@), pc, ls@)),
        r matches Ok(i) ==> encoder::encodable(i),
{
    if is_text(mn, "nop") {
        nop_exec(ops)
    } else if is_text(mn, "mv") {
        mv_exec(ops)
    } else if is_text(mn, "li") {
        li_exec(ops)
    } else if is_text(mn, "j") || is_text(mn, "call") {
        jump_exec(mn, ops, pc, ls)
    } else if is_text(mn, "jr") {
        jr_exec(ops)
    } else if is_text(mn, "ret") {
        ret_exec(ops)
    } else if is_text(mn, "subi") {
        subi_exec(ops)
    } else if is_r_mnemonic_exec(mn) {
        r_exec(mn, ops)
    } else if is_i_mnemonic_exec(mn) {
        i_exec(mn, ops)
    } else if is_text(mn, "slli") || is_text(mn, "srli") || is_text(mn, "srai") {
        shift_exec(mn, ops)
    } else if is_text(mn, "lb") || is_text(mn, "lh") || is_text(mn, "lw") || is_text(mn, "lbu")
        || is_text(mn, "lhu") {
        load_exec(mn, ops)
    } else if is_text(mn, "sb") || is_text(mn, "sh") || is_text(mn, "sw") {
        store_exec(mn, ops)
    } else if is_text(mn, "beq") || is_text(mn, "bne") || is_text(mn, "blt") || is_text(mn, "bge")
        || is_text(mn, "bltu") || is_text(mn, "bgeu") {
        branch_exec(mn, ops, pc, ls)
    } else if is_text(mn, "lui") || is_text(mn, "auipc") {
        upper_exec(mn, ops)
    } else if is_text(mn, "jal") {
        jal_exec(ops, pc, ls)
    } else if is_text(mn, "jalr") {
        jalr_exec(ops)
    } else if is_text(mn, "ecall") || is_text(mn, "ebreak") {
        system_exec(mn, ops)
    } else {
        let mut m = chars_of_text("unsupported mnemonic: ");
        push_chars(&mut m, mn);
        Err(m)
    }
}

fn is_r_mnemonic_exec(mn: &[char]) -> (r: bool)
    ensures
        r == is_r_mnemonic(mn@),
{
    is_text(mn, "add") || is_text(mn, "sub") || is_text(mn, "and") || is_text(mn, "or") || is_text(
        mn,
        "xor",
    ) || is_text(mn, "sll") || is_text(mn, "srl") || is_text(mn, "sra") || is_text(mn, "slt")
        || is_text(mn, "sltu") || is_text(mn, "mul") || is_text(mn, "mulh") || is_text(mn, "mulhsu")
        || is_text(mn, "mulhu") || is_text(mn, "div") || is_text(mn, "divu") || is_text(mn, "rem")
        || is_text(mn, "remu")
}

fn is_i_mnemonic_exec(mn: &[char]) -> (r: bool)
    ensures
        r == is_i_mnemonic(mn@),
{
    is_text(mn, "addi") || is_text(mn, "andi") || is_text(mn, "ori") || is_text(mn, "xori")
        || is_text(mn, "slti") || is_text(mn, "sltiu")
}

/// An upper immediate that passes the range check has a machine word.
proof fn lemma_upper_fits(v: i64)
    requires
        v & 0xfff == 0,
        -0x8000_0000 <= v <= 0x7fff_f000,
    ensures
        encoder::fits_upper(v as i32),
{
    assert((v as i32) & 0xfff == 0) by (bit_vector)
        requires
            v & 0xfff == 0,
            -0x8000_0000 <= v <= 0x7fff_f000,
    ;
}

/// Reads the instruction on source line `s` at address `pc`. An ASCII
/// mnemonic is lowered plainly: `A` to `Z` become `a` to `z`, every other
/// character is kept (register operands: see [`parse_reg`]).
pub fn parse_instr(s: &[char], pc: u32, ls: &Labels) -> (r: Result<Instruction, Vec<char>>)
    ensures
        agrees(r, instr_of(s@, pc, ls@)),
        r matches Ok(i) ==> encoder::encodable(i),
        chars::words(s@).len() > 0 && chars::all_ascii(chars::words(s@)[0]) ==> chars::lowercase(
            chars::words(s@)[0],
        ) == chars::words(s@)[0].map_values(|c: char| chars::ascii_lower(c)),
{
    let ws = words_of(s);
    if ws.len() == 0 {
        return Err(chars_of_text("empty line"));
    }
    let mn = to_lowercase(ws[0].as_slice());
    let ops = rest_operands(&ws);
    mnemonic_instruction(mn.as_slice(), ops.as_slice(), pc, ls)
}

/// How the mnemonics the assembler compares against are spelled.
proof fn lemma_mnemonic_spellings()
    ensures
        "nop"@.len() == 3 && "nop"@[0] == 'n' && "nop"@[1] == 'o' && "nop"@[2] == 'p',
        "mv"@.len() == 2 && "mv"@[0] == 'm' && "mv"@[1] == 'v',
        "li"@.len() == 2 && "li"@[0] == 'l' && "li"@[1] == 'i',
        "j"@.len() == 1 && "j"@[0] == 'j',
        "call"@.len() == 4 && "call"@[0] == 'c' && "call"@[1] == 'a' && "call"@[2] == 'l' && "call"@[3] == 'l',
        "jr"@.len() == 2 && "jr"@[0] == 'j' && "jr"@[1] == 'r',
        "ret"@.len() == 3 && "ret"@[0] == 'r' && "ret"@[1] == 'e' && "ret"@[2] == 't',
        "subi"@.len() == 4 && "subi"@[0] == 's' && "subi"@[1] == 'u' && "subi"@[2] == 'b' && "subi"@[3] == 'i',
        "add"@.len() == 3 && "add"@[0] == 'a' && "add"@[1] == 'd' && "add"@[2] == 'd',
        "sub"@.len() == 3 && "sub"@[0] == 's' && "sub"@[1] == 'u' && "sub"@[2] == 'b',
        "and"@.len() == 3 && "and"@[0] == 'a' && "and"@[1] == 'n' && "and"@[2] == 'd',
        "or"@.len() == 2 && "or"@[0] == 'o' && "or"@[1] == 'r',
        "xor"@.len() == 3 && "xor"@[0] == 'x' && "xor"@[1] == 'o' && "xor"@[2] == 'r',
        "sll"@.len() == 3 && "sll"@[0] == 's' && "sll"@[1] == 'l' && "sll"@[2] == 'l',
        "srl"@.len() == 3 && "srl"@[0] == 's' && "srl"@[1] == 'r' && "srl"@[2] == 'l',
        "sra"@.len() == 3 && "sra"@[0] == 's' && "sra"@[1] == 'r' && "sra"@[2] == 'a',
        "slt"@.len() == 3 && "slt"@[0] == 's' && "slt"@[1] == 'l' && "slt"@[2] == 't',
        "sltu"@.len() == 4 && "sltu"@[0] == 's' && "sltu"@[1] == 'l' && "sltu"@[2] == 't' && "sltu"@[3] == 'u',
        "mul"@.len() == 3 && "mul"@[0] == 'm' && "mul"@[1] == 'u' && "mul"@[2] == 'l',
        "mulh"@.len() == 4 && "mulh"@[0] == 'm' && "mulh"@[1] == 'u' && "mulh"@[2] == 'l' && "mulh"@[3] == 'h',
        "mulhsu"@.len() == 6 && "mulhsu"@[0] == 'm' && "mulhsu"@[1] == 'u' && "mulhsu"@[2] == 'l' && "mulhsu"@[3] == 'h' && "mulhsu"@[4] == 's' && "mulhsu"@[5] == 'u',
        "mulhu"@.len() == 5 && "mulhu"@[0] == 'm' && "mulhu"@[1] == 'u' && "mulhu"@[2] == 'l' && "mulhu"@[3] == 'h' && "mulhu"@[4] == 'u',
        "div"@.len() == 3 && "div"@[0] == 'd' && "div"@[1] == 'i' && "div"@[2] == 'v',
        "divu"@.len() == 4 && "divu"@[0] == 'd' && "divu"@[1] == 'i' && "divu"@[2] == 'v' && "divu"@[3] == 'u',
        "rem"@.len() == 3 && "rem"@[0] == 'r' && "rem"@[1] == 'e' && "rem"@[2] == 'm',
        "remu"@.len() == 4 && "remu"@[0] == 'r' && "remu"@[1] == 'e' && "remu"@[2] == 'm' && "remu"@[3] == 'u',
        "addi"@.len() == 4 && "addi"@[0] == 'a' && "addi"@[1] == 'd' && "addi"@[2] == 'd' && "addi"@[3] == 'i',
        "andi"@.len() == 4 && "andi"@[0] == 'a' && "andi"@[1] == 'n' && "andi"@[2] == 'd' && "andi"@[3] == 'i',
        "ori"@.len() == 3 && "ori"@[0] == 'o' && "ori"@[1] == 'r' && "ori"@[2] == 'i',
        "xori"@.len() == 4 && "xori"@[0] == 'x' && "xori"@[1] == 'o' && "xori"@[2] == 'r' && "xori"@[3] == 'i',
        "slti"@.len() == 4 && "slti"@[0] == 's' && "slti"@[1] == 'l' && "slti"@[2] == 't' && "slti"@[3] == 'i',
        "sltiu"@.len() == 5 && "sltiu"@[0] == 's' && "sltiu"@[1] == 'l' && "sltiu"@[2] == 't' && "sltiu"@[3] == 'i' && "sltiu"@[4] == 'u',
        "slli"@.len() == 4 && "slli"@[0] == 's' && "slli"@[1] == 'l' && "slli"@[2] == 'l' && "slli"@[3] == 'i',
        "srli"@.len() == 4 && "srli"@[0] == 's' && "srli"@[1] == 'r' && "srli"@[2] == 'l' && "srli"@[3] == 'i',
        "srai"@.len() == 4 && "srai"@[0] == 's' && "srai"@[1] == 'r' && "srai"@[2] == 'a' && "srai"@[3] == 'i',
        "lb"@.len() == 2 && "lb"@[0] == 'l' && "lb"@[1] == 'b',
        "lh"@.len() == 2 && "lh"@[0] == 'l' && "lh"@[1] == 'h',
        "lw"@.len() == 2 && "lw"@[0] == 'l' && "lw"@[1] == 'w',
        "lbu"@.len() == 3 && "lbu"@[0] == 'l' && "lbu"@[1] == 'b' && "lbu"@[2] == 'u',
        "lhu"@.len() == 3 && "lhu"@[0] == 'l' && "lhu"@[1] == 'h' && "lhu"@[2] == 'u',
        "sb"@.len() == 2 && "sb"@[0] == 's' && "sb"@[1] == 'b',
        "sh"@.len() == 2 && "sh"@[0] == 's' && "sh"@[1] == 'h',
        "sw"@.len() == 2 && "sw"@[0] == 's' && "sw"@[1] == 'w',
        "beq"@.len() == 3 && "beq"@[0] == 'b' && "beq"@[1] == 'e' && "beq"@[2] == 'q',
        "bne"@.len() == 3 && "bne"@[0] == 'b' && "bne"@[1] == 'n' && "bne"@[2] == 'e',
        "blt"@.len() == 3 && "blt"@[0] == 'b' && "blt"@[1] == 'l' && "blt"@[2] == 't',
        "bge"@.len() == 3 && "bge"@[0] == 'b' && "bge"@[1] == 'g' && "bge"@[2] == 'e',
        "bltu"@.len() == 4 && "bltu"@[0] == 'b' && "bltu"@[1] == 'l' && "bltu"@[2] == 't' && "bltu"@[3] == 'u',
        "bgeu"@.len() == 4 && "bgeu"@[0] == 'b' && "bgeu"@[1] == 'g' && "bgeu"@[2] == 'e' && "bgeu"@[3] == 'u',
{
    reveal_strlit("nop");
    reveal_strlit("mv");
    reveal_strlit("li");
    reveal_strlit("j");
    reveal_strlit("call");
    reveal_strlit("jr");
    reveal_strlit("ret");
    reveal_strlit("subi");
    reveal_strlit("add");
    reveal_strlit("sub");
    reveal_strlit("and");
    reveal_strlit("or");
    reveal_strlit("xor");
    reveal_strlit("sll");
    reveal_strlit("srl");
    reveal_strlit("sra");
    reveal_strlit("slt");
    reveal_strlit("sltu");
    reveal_strlit("mul");
    reveal_strlit("mulh");
    reveal_strlit("mulhsu");
    reveal_strlit("mulhu");
    reveal_strlit("div");
    reveal_strlit("divu");
    reveal_strlit("rem");
    reveal_strlit("remu");
    reveal_strlit("addi");
    reveal_strlit("andi");
    reveal_strlit("ori");
    reveal_strlit("xori");
    reveal_strlit("slti");
    reveal_strlit("sltiu");
    reveal_strlit("slli");
    reveal_strlit("srli");
    reveal_strlit("srai");
    reveal_strlit("lb");
    reveal_strlit("lh");
    reveal_strlit("lw");
    reveal_strlit("lbu");
    reveal_strlit("lhu");
    reveal_strlit("sb");
    reveal_strlit("sh");
    reveal_strlit("sw");
    reveal_strlit("beq");
    reveal_strlit("bne");
    reveal_strlit("blt");
    reveal_strlit("bge");
    reveal_strlit("bltu");
    reveal_strlit("bgeu");
}

/// How an instruction with a register destination, a register source
/// and an immediate reads in assembly: mnemonic, `rd`, `rs1`, immediate.
pub open spec fn i_parts(i: Instruction) -> Option<(Seq<char>, u8, u8, i32)> {
    match i {
        Instruction::Addi { rd, rs1, imm } => Some(("addi"@, rd, rs1, imm)),
        Instruction::Andi { rd, rs1, imm } => Some(("andi"@, rd, rs1, imm)),
        Instruction::Ori { rd, rs1, imm } => Some(("ori"@, rd, rs1, imm)),
        Instruction::Xori { rd, rs1, imm } => Some(("xori"@, rd, rs1, imm)),
        Instruction::Slti { rd, rs1, imm } => Some(("slti"@, rd, rs1, imm)),
        Instruction::Sltiu { rd, rs1, imm } => Some(("sltiu"@, rd, rs1, imm)),
        _ => None,
    }
}

/// How a conditional branch reads in assembly: mnemonic, the two compared
/// registers in order, and the offset from the branch to its target.
pub open spec fn b_parts(i: Instruction) -> Option<(Seq<char>, u8, u8, i32)> {
    match i {
        Instruction::Beq { rs1, rs2, imm } => Some(("beq"@, rs1, rs2, imm)),
        Instruction::Bne { rs1, rs2, imm } => Some(("bne"@, rs1, rs2, imm)),
        Instruction::Blt { rs1, rs2, imm } => Some(("blt"@, rs1, rs2, imm)),
        Instruction::Bge { rs1, rs2, imm } => Some(("bge"@, rs1, rs2, imm)),
        Instruction::Bltu { rs1, rs2, imm } => Some(("bltu"@, rs1, rs2, imm)),
        Instruction::Bgeu { rs1, rs2, imm } => Some(("bgeu"@, rs1, rs2, imm)),
        _ => None,
    }
}

/// How a load or store reads in assembly, `mn r, imm(rs1)`: mnemonic, the
/// register loaded or stored, the offset and the base register.
pub open spec fn mem_parts(i: Instruction) -> Option<(Seq<char>, u8, i32, u8)> {
    match i {
        Instruction::Lb { rd, rs1, imm } => Some(("lb"@, rd, imm, rs1)),
        Instruction::Lh { rd, rs1, imm } => Some(("lh"@, rd, imm, rs1)),
        Instruction::Lw { rd, rs1, imm } => Some(("lw"@, rd, imm, rs1)),
        Instruction::Lbu { rd, rs1, imm } => Some(("lbu"@, rd, imm, rs1)),
        Instruction::Lhu { rd, rs1, imm } => Some(("lhu"@, rd, imm, rs1)),
        Instruction::Sb { rs2, rs1, imm } => Some(("sb"@, rs2, imm, rs1)),
        Instruction::Sh { rs2, rs1, imm } => Some(("sh"@, rs2, imm, rs1)),
        Instruction::Sw { rs2, rs1, imm } => Some(("sw"@, rs2, imm, rs1)),
        _ => None,
    }
}

/// A register-register line `mn rd, rs1, rs2` assembles to the instruction
/// of that mnemonic whose destination and sources are the three operands in
/// the order written: `sub t0, t1, t2` gives `t0 = t1 - t2`, never `t2 - t1`.
pub proof fn lemma_r_line_keeps_operand_order(
    mn: Seq<char>,
    ops: Seq<Seq<char>>,
    pc: u32,
    ls: Seq<(Seq<char>, u32)>,
)
    requires
        is_r_mnemonic(mn),
        ops.len() == 3,
        operands::reg_number(ops[0]) is Some,
        operands::reg_number(ops[1]) is Some,
        operands::reg_number(ops[2]) is Some,
    ensures
        mnemonic_instr(mn, ops, pc, ls) matches Ok(i) && r_parts(i) == Some((
            mn,
            operands::reg_number(ops[0])->0,
            operands::reg_number(ops[1])->0,
            operands::reg_number(ops[2])->0,
        )),
{
    lemma_mnemonic_spellings();
    let r0 = operands::reg_number(ops[0])->0;
    let r1 = operands::reg_number(ops[1])->0;
    let r2 = operands::reg_number(ops[2])->0;
    assert(three_regs(ops) == Ok::<(u8, u8, u8), Seq<char>>((r0, r1, r2)));
    if mn == "add"@ {
        assert(mnemonic_instr(mn, ops, pc, ls) == r_form(mn, ops));
    } else if mn == "sub"@ {
        assert(mnemonic_instr(mn, ops, pc, ls) == r_form(mn, ops));
    } else if mn == "and"@ {
        assert(mnemonic_instr(mn, ops, pc, ls) == r_form(mn, ops));
    } else if mn == "or"@ {
        assert(mnemonic_instr(mn, ops, pc, ls) == r_form(mn, ops));
    } else if mn == "xor"@ {
        assert(mnemonic_instr(mn, ops, pc, ls) == r_form(mn, ops));
    } else if mn == "sll"@ {
        assert(mnemonic_instr(mn, ops, pc, ls) == r_form(mn, ops));
    } else if mn == "srl"@ {
        assert(mnemonic_instr(mn, ops, pc, ls) == r_form(mn, ops));
    } else if mn == "sra"@ {
        assert(mnemonic_instr(mn, ops, pc, ls) == r_form(mn, ops));
    } else if mn == "slt"@ {
        assert(mnemonic_instr(mn, ops, pc, ls) == r_form(mn, ops));
    } else if mn == "sltu"@ {
        assert(mnemonic_instr(mn, ops, pc, ls) == r_form(mn, ops));
    } else if mn == "mul"@ {
        assert(mnemonic_instr(mn, ops, pc, ls) == r_form(mn, ops));
    } else if mn == "mulh"@ {
        assert(mnemonic_instr(mn, ops, pc, ls) == r_form(mn, ops));
    } else if mn == "mulhsu"@ {
        assert(mnemonic_instr(mn, ops, pc, ls) == r_form(mn, ops));
    } else if mn == "mulhu"@ {
        assert(mnemonic_instr(mn, ops, pc, ls) == r_form(mn, ops));
    } else if mn == "div"@ {
        assert(mnemonic_instr(mn, ops, pc, ls) == r_form(mn, ops));
    } else if mn == "divu"@ {
        assert(mnemonic_instr(mn, ops, pc, ls) == r_form(mn, ops));
    } else if mn == "rem"@ {
        assert(mnemonic_instr(mn, ops, pc, ls) == r_form(mn, ops));
    } else if mn == "remu"@ {
        assert(mnemonic_instr(mn, ops, pc, ls) == r_form(mn, ops));
    }
}

/// An immediate-arithmetic line `mn rd, rs1, imm` assembles to the
/// instruction of that mnemonic with destination, source and immediate in
/// the order written, whenever the immediate fits 12 signed bits.
pub proof fn lemma_i_line_keeps_operand_order(
    mn: Seq<char>,
    ops: Seq<Seq<char>>,
    pc: u32,
    ls: Seq<(Seq<char>, u32)>,
)
    requires
        is_i_mnemonic(mn),
        ops.len() == 3,
        operands::reg_number(ops[0]) is Some,
        operands::reg_number(ops[1]) is Some,
        operands::imm_value(ops[2]) matches Some(v) && -2048 <= v <= 2047,
    ensures
        mnemonic_instr(mn, ops, pc, ls) matches Ok(i) && i_parts(i) == Some((
            mn,
            operands::reg_number(ops[0])->0,
            operands::reg_number(ops[1])->0,
            operands::imm_value(ops[2])->0,
        )),
{
    lemma_mnemonic_spellings();
    let r0 = operands::reg_number(ops[0])->0;
    let r1 = operands::reg_number(ops[1])->0;
    operands::lemma_half_ranges();
    assert(two_regs(ops) == Ok::<(u8, u8), Seq<char>>((r0, r1)));
    if mn == "addi"@ {
        assert(mnemonic_instr(mn, ops, pc, ls) == i_form(mn, ops));
    } else if mn == "andi"@ {
        assert(mnemonic_instr(mn, ops, pc, ls) == i_form(mn, ops));
    } else if mn == "ori"@ {
        assert(mnemonic_instr(mn, ops, pc, ls) == i_form(mn, ops));
    } else if mn == "xori"@ {
        assert(mnemonic_instr(mn, ops, pc, ls) == i_form(mn, ops));
    } else if mn == "slti"@ {
        assert(mnemonic_instr(mn, ops, pc, ls) == i_form(mn, ops));
    } else if mn == "sltiu"@ {
        assert(mnemonic_instr(mn, ops, pc, ls) == i_form(mn, ops));
    }
}

/// A branch line `mn rs1, rs2, label` assembles to the branch of that
/// mnemonic comparing the two registers in the order written, whose offset
/// is the distance from the branch to the label, whenever that distance is
/// even and fits 13 signed bits.
pub proof fn lemma_branch_line_targets_label(
    mn: Seq<char>,
    ops: Seq<Seq<char>>,
    pc: u32,
    ls: Seq<(Seq<char>, u32)>,
)
    requires
        is_branch_mnemonic(mn),
        ops.len() == 3,
        operands::reg_number(ops[0]) is Some,
        operands::reg_number(ops[1]) is Some,
        operands::imm_value(ops[2]) is None,
        labels::lookup(ls, ops[2]) matches Some(t) && (t - pc) % 2 == 0 && -4096 <= t - pc <= 4095,
    ensures
        mnemonic_instr(mn, ops, pc, ls) matches Ok(i) && b_parts(i) == Some((
            mn,
            operands::reg_number(ops[0])->0,
            operands::reg_number(ops[1])->0,
            (labels::lookup(ls, ops[2])->0 - pc) as i32,
        )),
{
    lemma_mnemonic_spellings();
    let r0 = operands::reg_number(ops[0])->0;
    let r1 = operands::reg_number(ops[1])->0;
    let t = labels::lookup(ls, ops[2])->0;
    operands::lemma_half_ranges();
    assert(two_regs(ops) == Ok::<(u8, u8), Seq<char>>((r0, r1)));
    if mn == "beq"@ {
        assert(mnemonic_instr(mn, ops, pc, ls) == branch_form(mn, ops, pc, ls));
    } else if mn == "bne"@ {
        assert(mnemonic_instr(mn, ops, pc, ls) == branch_form(mn, ops, pc, ls));
    } else if mn == "blt"@ {
        assert(mnemonic_instr(mn, ops, pc, ls) == branch_form(mn, ops, pc, ls));
    } else if mn == "bge"@ {
        assert(mnemonic_instr(mn, ops, pc, ls) == branch_form(mn, ops, pc, ls));
    } else if mn == "bltu"@ {
        assert(mnemonic_instr(mn, ops, pc, ls) == branch_form(mn, ops, pc, ls));
    } else if mn == "bgeu"@ {
        assert(mnemonic_instr(mn, ops, pc, ls) == branch_form(mn, ops, pc, ls));
    }
}

/// A load line `mn rd, imm(rs1)` assembles to the load of that mnemonic
/// into `rd` from `rs1 + imm`, whenever the offset fits 12 signed bits.
pub proof fn lemma_load_line_keeps_operands(
    mn: Seq<char>,
    ops: Seq<Seq<char>>,
    pc: u32,
    ls: Seq<(Seq<char>, u32)>,
)
    requires
        is_load_mnemonic(mn),
        ops.len() == 2,
        operands::reg_number(ops[0]) is Some,
        operands::memop(ops[1]) matches Ok((v, _)) && -2048 <= v <= 2047,
    ensures
        mnemonic_instr(mn, ops, pc, ls) matches Ok(i) && mem_parts(i) == Some((
            mn,
            operands::reg_number(ops[0])->0,
            (operands::memop(ops[1])->Ok_0).0,
            (operands::memop(ops[1])->Ok_0).1,
        )),
{
    lemma_mnemonic_spellings();
    operands::lemma_half_ranges();
    if mn == "lb"@ {
        assert(mnemonic_instr(mn, ops, pc, ls) == load_form(mn, ops));
    } else if mn == "lh"@ {
        assert(mnemonic_instr(mn, ops, pc, ls) == load_form(mn, ops));
    } else if mn == "lw"@ {
        assert(mnemonic_instr(mn, ops, pc, ls) == load_form(mn, ops));
    } else if mn == "lbu"@ {
        assert(mnemonic_instr(mn, ops, pc, ls) == load_form(mn, ops));
    } else if mn == "lhu"@ {
        assert(mnemonic_instr(mn, ops, pc, ls) == load_form(mn, ops));
    }
}

/// A store line `mn rs2, imm(rs1)` assembles to the store of that mnemonic
/// of `rs2` to `rs1 + imm`, whenever the offset fits 12 signed bits.
pub proof fn lemma_store_line_keeps_operands(
    mn: Seq<char>,
    ops: Seq<Seq<char>>,
    pc: u32,
    ls: Seq<(Seq<char>, u32)>,
)
    requires
        is_store_mnemonic(mn),
        ops.len() == 2,
        operands::reg_number(ops[0]) is Some,
        operands::memop(ops[1]) matches Ok((v, _)) && -2048 <= v <= 2047,
    ensures
        mnemonic_instr(mn, ops, pc, ls) matches Ok(i) && mem_parts(i) == Some((
            mn,
            operands::reg_number(ops[0])->0,
            (operands::memop(ops[1])->Ok_0).0,
            (operands::memop(ops[1])->Ok_0).1,
        )),
{
    lemma_mnemonic_spellings();
    operands::lemma_half_ranges();
    if mn == "sb"@ {
        assert(mnemonic_instr(mn, ops, pc, ls) == store_form(mn, ops));
    } else if mn == "sh"@ {
        assert(mnemonic_instr(mn, ops, pc, ls) == store_form(mn, ops));
    } else if mn == "sw"@ {
        assert(mnemonic_instr(mn, ops, pc, ls) == store_form(mn, ops));
    }
}



/// The pseudo-instructions expand to the base instructions they stand for:
/// `nop` is `addi x0, x0, 0`; `mv rd, rs` is `addi rd, rs, 0`; `li rd, imm`
/// is `addi rd, x0, imm` (12-bit immediates); `subi rd, rs1, imm` is
/// `addi rd, rs1, -imm`; `jr rs` is `jalr x0, rs, 0` and `ret` is
/// `jalr x0, ra, 0`; `j label` and `call label` jump to the label with
/// `jal`, linking in `x0` and in `ra` (`x1`) respectively.
pub proof fn lemma_pseudo_instruction_expansions(
    ops: Seq<Seq<char>>,
    pc: u32,
    ls: Seq<(Seq<char>, u32)>,
)
    ensures
        ops.len() == 0 ==> mnemonic_instr("nop"@, ops, pc, ls) == Ok::<Instruction, Seq<char>>(
            Instruction::Addi { rd: 0, rs1: 0, imm: 0 },
        ),
        ops.len() == 0 ==> mnemonic_instr("ret"@, ops, pc, ls) == Ok::<Instruction, Seq<char>>(
            Instruction::Jalr { rd: 0, rs1: 1, imm: 0 },
        ),
        (ops.len() == 2 && operands::reg_number(ops[0]) is Some && operands::reg_number(ops[1]) is Some)
            ==> mnemonic_instr("mv"@, ops, pc, ls) == Ok::<Instruction, Seq<char>>(
            Instruction::Addi {
                rd: operands::reg_number(ops[0])->0,
                rs1: operands::reg_number(ops[1])->0,
                imm: 0,
            },
        ),
        (ops.len() == 2 && operands::reg_number(ops[0]) is Some && operands::imm_value(ops[1]) is Some
            && -2048 <= operands::imm_value(ops[1])->0 <= 2047) ==> mnemonic_instr("li"@, ops, pc, ls) == Ok::<
            Instruction,
            Seq<char>,
        >(
            Instruction::Addi {
                rd: operands::reg_number(ops[0])->0,
                rs1: 0,
                imm: operands::imm_value(ops[1])->0,
            },
        ),
        (ops.len() == 3 && operands::reg_number(ops[0]) is Some && operands::reg_number(ops[1]) is Some
            && operands::imm_value(ops[2]) is Some && -2047 <= operands::imm_value(ops[2])->0 <= 2048) ==> mnemonic_instr(
            "subi"@,
            ops,
            pc,
            ls,
        ) == Ok::<Instruction, Seq<char>>(
            Instruction::Addi {
                rd: operands::reg_number(ops[0])->0,
                rs1: operands::reg_number(ops[1])->0,
                imm: (-operands::imm_value(ops[2])->0) as i32,
            },
        ),
        (ops.len() == 1 && operands::reg_number(ops[0]) is Some) ==> mnemonic_instr("jr"@, ops, pc, ls)
            == Ok::<Instruction, Seq<char>>(
            Instruction::Jalr { rd: 0, rs1: operands::reg_number(ops[0])->0, imm: 0 },
        ),
        (ops.len() == 1 && operands::imm_value(ops[0]) is None && labels::lookup(ls, ops[0]) is Some
            && (labels::lookup(ls, ops[0])->0 - pc) % 2 == 0 && -0x10_0000 <= labels::lookup(ls, ops[0])->0
            - pc < 0x10_0000) ==> {
            &&& mnemonic_instr("j"@, ops, pc, ls) == Ok::<Instruction, Seq<char>>(
                Instruction::Jal { rd: 0, imm: (labels::lookup(ls, ops[0])->0 - pc) as i32 },
            )
            &&& mnemonic_instr("call"@, ops, pc, ls) == Ok::<Instruction, Seq<char>>(
                Instruction::Jal { rd: 1, imm: (labels::lookup(ls, ops[0])->0 - pc) as i32 },
            )
        },
{
    lemma_mnemonic_spellings();
    operands::lemma_half_ranges();
    if ops.len() == 2 && operands::reg_number(ops[0]) is Some && operands::reg_number(ops[1]) is Some {
        assert(two_regs(ops) == Ok::<(u8, u8), Seq<char>>(
            (operands::reg_number(ops[0])->0, operands::reg_number(ops[1])->0),
        ));
    }
    if ops.len() == 3 && operands::reg_number(ops[0]) is Some && operands::reg_number(ops[1]) is Some {
        assert(two_regs(ops) == Ok::<(u8, u8), Seq<char>>(
            (operands::reg_number(ops[0])->0, operands::reg_number(ops[1])->0),
        ));
    }
}

} // verus!
