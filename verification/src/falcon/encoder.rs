//! Instruction encoding: from an [`Instruction`] to its 32-bit machine word.
use vstd::prelude::*;
use crate::falcon::bits::{self, pack_b, pack_i, pack_j, pack_r, pack_s, pack_u};
use crate::falcon::instruction::Instruction;

verus! {

/// Why an instruction has no machine word.
#[derive(Clone, Copy, Debug, PartialEq, Eq, Structural)]
pub enum EncodeError {
    /// A register number is 32 or more.
    InvalidRegister(u8),
    /// An immediate does not fit its field (or is odd where it must be even,
    /// or has non-zero low bits where they must be clear).
    ImmediateOutOfRange(i32),
    /// A shift amount is 32 or more.
    ShiftOutOfRange(u8),
}

pub open spec fn fits_i12(imm: i32) -> bool {
    -2048 <= imm <= 2047
}

pub open spec fn fits_b13(imm: i32) -> bool {
    -4096 <= imm <= 4094 && imm % 2 == 0
}

pub open spec fn fits_j21(imm: i32) -> bool {
    -1048576 <= imm <= 1048574 && imm % 2 == 0
}

pub open spec fn fits_upper(imm: i32) -> bool {
    imm & 0xfff == 0
}

pub open spec fn enc_r(f7: u32, f3: u32, rd: u8, rs1: u8, rs2: u8) -> Result<u32, EncodeError> {
    if rd >= 32 {
        Err(EncodeError::InvalidRegister(rd))
    } else if rs1 >= 32 {
        Err(EncodeError::InvalidRegister(rs1))
    } else if rs2 >= 32 {
        Err(EncodeError::InvalidRegister(rs2))
    } else {
        Ok(bits::r_word(f7, rs2 as u32, rs1 as u32, f3, rd as u32, 0x33))
    }
}

pub open spec fn enc_i(op: u32, f3: u32, rd: u8, rs1: u8, imm: i32) -> Result<u32, EncodeError> {
    if rd >= 32 {
        Err(EncodeError::InvalidRegister(rd))
    } else if rs1 >= 32 {
        Err(EncodeError::InvalidRegister(rs1))
    } else if !fits_i12(imm) {
        Err(EncodeError::ImmediateOutOfRange(imm))
    } else {
        Ok(bits::i_word(imm, rs1 as u32, f3, rd as u32, op))
    }
}

pub open spec fn enc_shift(f7: u32, f3: u32, rd: u8, rs1: u8, shamt: u8) -> Result<u32, EncodeError> {
    if rd >= 32 {
        Err(EncodeError::InvalidRegister(rd))
    } else if rs1 >= 32 {
        Err(EncodeError::InvalidRegister(rs1))
    } else if shamt >= 32 {
        Err(EncodeError::ShiftOutOfRange(shamt))
    } else {
        Ok(bits::r_word(f7, shamt as u32, rs1 as u32, f3, rd as u32, 0x13))
    }
}

pub open spec fn enc_s(f3: u32, rs2: u8, rs1: u8, imm: i32) -> Result<u32, EncodeError> {
    if rs2 >= 32 {
        Err(EncodeError::InvalidRegister(rs2))
    } else if rs1 >= 32 {
        Err(EncodeError::InvalidRegister(rs1))
    } else if !fits_i12(imm) {
        Err(EncodeError::ImmediateOutOfRange(imm))
    } else {
        Ok(bits::s_word(imm, rs2 as u32, rs1 as u32, f3, 0x23))
    }
}

pub open spec fn enc_b(f3: u32, rs1: u8, rs2: u8, imm: i32) -> Result<u32, EncodeError> {
    if rs1 >= 32 {
        Err(EncodeError::InvalidRegister(rs1))
    } else if rs2 >= 32 {
        Err(EncodeError::InvalidRegister(rs2))
    } else if !fits_b13(imm) {
        Err(EncodeError::ImmediateOutOfRange(imm))
    } else {
        Ok(bits::b_word(imm, rs2 as u32, rs1 as u32, f3, 0x63))
    }
}

pub open spec fn enc_u(op: u32, rd: u8, imm: i32) -> Result<u32, EncodeError> {
    if rd >= 32 {
        Err(EncodeError::InvalidRegister(rd))
    } else if !fits_upper(imm) {
        Err(EncodeError::ImmediateOutOfRange(imm))
    } else {
        Ok(bits::u_word(imm, rd as u32, op))
    }
}

pub open spec fn enc_j(rd: u8, imm: i32) -> Result<u32, EncodeError> {
    if rd >= 32 {
        Err(EncodeError::InvalidRegister(rd))
    } else if !fits_j21(imm) {
        Err(EncodeError::ImmediateOutOfRange(imm))
    } else {
        Ok(bits::j_word(imm, rd as u32, 0x6f))
    }
}

/// The machine word of an instruction, or why it has none.
pub open spec fn encoding(i: Instruction) -> Result<u32, EncodeError> {
    match i {
        Instruction::Add { rd, rs1, rs2 } => enc_r(0, 0, rd, rs1, rs2),
        Instruction::Sub { rd, rs1, rs2 } => enc_r(0x20, 0, rd, rs1, rs2),
        Instruction::Sll { rd, rs1, rs2 } => enc_r(0, 1, rd, rs1, rs2),
        Instruction::Slt { rd, rs1, rs2 } => enc_r(0, 2, rd, rs1, rs2),
        Instruction::Sltu { rd, rs1, rs2 } => enc_r(0, 3, rd, rs1, rs2),
        Instruction::Xor { rd, rs1, rs2 } => enc_r(0, 4, rd, rs1, rs2),
        Instruction::Srl { rd, rs1, rs2 } => enc_r(0, 5, rd, rs1, rs2),
        Instruction::Sra { rd, rs1, rs2 } => enc_r(0x20, 5, rd, rs1, rs2),
        Instruction::Or { rd, rs1, rs2 } => enc_r(0, 6, rd, rs1, rs2),
        Instruction::And { rd, rs1, rs2 } => enc_r(0, 7, rd, rs1, rs2),
        Instruction::Mul { rd, rs1, rs2 } => enc_r(1, 0, rd, rs1, rs2),
        Instruction::Mulh { rd, rs1, rs2 } => enc_r(1, 1, rd, rs1, rs2),
        Instruction::Mulhsu { rd, rs1, rs2 } => enc_r(1, 2, rd, rs1, rs2),
        Instruction::Mulhu { rd, rs1, rs2 } => enc_r(1, 3, rd, rs1, rs2),
        Instruction::Div { rd, rs1, rs2 } => enc_r(1, 4, rd, rs1, rs2),
        Instruction::Divu { rd, rs1, rs2 } => enc_r(1, 5, rd, rs1, rs2),
        Instruction::Rem { rd, rs1, rs2 } => enc_r(1, 6, rd, rs1, rs2),
        Instruction::Remu { rd, rs1, rs2 } => enc_r(1, 7, rd, rs1, rs2),
        Instruction::Addi { rd, rs1, imm } => enc_i(0x13, 0, rd, rs1, imm),
        Instruction::Slti { rd, rs1, imm } => enc_i(0x13, 2, rd, rs1, imm),
        Instruction::Sltiu { rd, rs1, imm } => enc_i(0x13, 3, rd, rs1, imm),
        Instruction::Xori { rd, rs1, imm } => enc_i(0x13, 4, rd, rs1, imm),
        Instruction::Ori { rd, rs1, imm } => enc_i(0x13, 6, rd, rs1, imm),
        Instruction::Andi { rd, rs1, imm } => enc_i(0x13, 7, rd, rs1, imm),
        Instruction::Slli { rd, rs1, shamt } => enc_shift(0, 1, rd, rs1, shamt),
        Instruction::Srli { rd, rs1, shamt } => enc_shift(0, 5, rd, rs1, shamt),
        Instruction::Srai { rd, rs1, shamt } => enc_shift(0x20, 5, rd, rs1, shamt),
        Instruction::Lb { rd, rs1, imm } => enc_i(0x03, 0, rd, rs1, imm),
        Instruction::Lh { rd, rs1, imm } => enc_i(0x03, 1, rd, rs1, imm),
        Instruction::Lw { rd, rs1, imm } => enc_i(0x03, 2, rd, rs1, imm),
        Instruction::Lbu { rd, rs1, imm } => enc_i(0x03, 4, rd, rs1, imm),
        Instruction::Lhu { rd, rs1, imm } => enc_i(0x03, 5, rd, rs1, imm),
        Instruction::Sb { rs2, rs1, imm } => enc_s(0, rs2, rs1, imm),
        Instruction::Sh { rs2, rs1, imm } => enc_s(1, rs2, rs1, imm),
        Instruction::Sw { rs2, rs1, imm } => enc_s(2, rs2, rs1, imm),
        Instruction::Beq { rs1, rs2, imm } => enc_b(0, rs1, rs2, imm),
        Instruction::Bne { rs1, rs2, imm } => enc_b(1, rs1, rs2, imm),
        Instruction::Blt { rs1, rs2, imm } => enc_b(4, rs1, rs2, imm),
        Instruction::Bge { rs1, rs2, imm } => enc_b(5, rs1, rs2, imm),
        Instruction::Bltu { rs1, rs2, imm } => enc_b(6, rs1, rs2, imm),
        Instruction::Bgeu { rs1, rs2, imm } => enc_b(7, rs1, rs2, imm),
        Instruction::Jal { rd, imm } => enc_j(rd, imm),
        Instruction::Jalr { rd, rs1, imm } => enc_i(0x67, 0, rd, rs1, imm),
        Instruction::Lui { rd, imm } => enc_u(0x37, rd, imm),
        Instruction::Auipc { rd, imm } => enc_u(0x17, rd, imm),
        Instruction::Ecall => Ok(0x0000_0073),
        Instruction::Ebreak => Ok(0x0010_0073),
        Instruction::Halt => Ok(0),
    }
}

/// Whether an instruction has a machine word.
pub open spec fn encodable(i: Instruction) -> bool {
    encoding(i) is Ok
}

fn check_reg(r: u8) -> (res: Result<u32, EncodeError>)
    ensures
        r < 32 ==> res == Ok::<u32, EncodeError>(r as u32),
        r >= 32 ==> res == Err::<u32, EncodeError>(EncodeError::InvalidRegister(r)),
{
    if r < 32 {
        Ok(r as u32)
    } else {
        Err(EncodeError::InvalidRegister(r))
    }
}

fn check_i12(imm: i32) -> (res: Result<i32, EncodeError>)
    ensures
        fits_i12(imm) ==> res == Ok::<i32, EncodeError>(imm),
        !fits_i12(imm) ==> res == Err::<i32, EncodeError>(EncodeError::ImmediateOutOfRange(imm)),
{
    if -2048 <= imm && imm <= 2047 {
        Ok(imm)
    } else {
        Err(EncodeError::ImmediateOutOfRange(imm))
    }
}

fn r_type(f7: u32, f3: u32, rd: u8, rs1: u8, rs2: u8) -> (res: Result<u32, EncodeError>)
    requires
        f7 < 128,
        f3 < 8,
    ensures
        res == enc_r(f7, f3, rd, rs1, rs2),
{
    let rd = check_reg(rd)?;
    let rs1 = check_reg(rs1)?;
    let rs2 = check_reg(rs2)?;
    Ok(pack_r(f7, rs2, rs1, f3, rd, 0x33))
}

fn i_type(op: u32, f3: u32, rd: u8, rs1: u8, imm: i32) -> (res: Result<u32, EncodeError>)
    ensures
        res == enc_i(op, f3, rd, rs1, imm),
{
    let rd = check_reg(rd)?;
    let rs1 = check_reg(rs1)?;
    let imm = check_i12(imm)?;
    Ok(pack_i(imm, rs1, f3, rd, op))
}

fn shift_type(f7: u32, f3: u32, rd: u8, rs1: u8, shamt: u8) -> (res: Result<u32, EncodeError>)
    requires
        f7 < 128,
        f3 < 8,
    ensures
        res == enc_shift(f7, f3, rd, rs1, shamt),
{
    let rd = check_reg(rd)?;
    let rs1 = check_reg(rs1)?;
    if shamt >= 32 {
        return Err(EncodeError::ShiftOutOfRange(shamt));
    }
    Ok(pack_r(f7, shamt as u32, rs1, f3, rd, 0x13))
}

fn s_type(f3: u32, rs2: u8, rs1: u8, imm: i32) -> (res: Result<u32, EncodeError>)
    ensures
        res == enc_s(f3, rs2, rs1, imm),
{
    let rs2 = check_reg(rs2)?;
    let rs1 = check_reg(rs1)?;
    let imm = check_i12(imm)?;
    Ok(pack_s(imm, rs2, rs1, f3, 0x23))
}

fn b_type(f3: u32, rs1: u8, rs2: u8, imm: i32) -> (res: Result<u32, EncodeError>)
    ensures
        res == enc_b(f3, rs1, rs2, imm),
{
    let rs1 = check_reg(rs1)?;
    let rs2 = check_reg(rs2)?;
    if !(-4096 <= imm && imm <= 4094 && imm % 2 == 0) {
        return Err(EncodeError::ImmediateOutOfRange(imm));
    }
    Ok(pack_b(imm, rs2, rs1, f3, 0x63))
}

fn u_type(op: u32, rd: u8, imm: i32) -> (res: Result<u32, EncodeError>)
    ensures
        res == enc_u(op, rd, imm),
{
    let rd = check_reg(rd)?;
    if imm & 0xfff != 0 {
        return Err(EncodeError::ImmediateOutOfRange(imm));
    }
    Ok(pack_u(imm, rd, op))
}

fn j_type(rd: u8, imm: i32) -> (res: Result<u32, EncodeError>)
    ensures
        res == enc_j(rd, imm),
{
    let rd = check_reg(rd)?;
    if !(-1048576 <= imm && imm <= 1048574 && imm % 2 == 0) {
        return Err(EncodeError::ImmediateOutOfRange(imm));
    }
    Ok(pack_j(imm, rd, 0x6f))
}

/// Encodes an instruction into its 32-bit machine word.
pub fn encode(i: Instruction) -> (res: Result<u32, EncodeError>)
    ensures
        res == encoding(i),
{
    match i {
        Instruction::Add { rd, rs1, rs2 } => r_type(0, 0, rd, rs1, rs2),
        Instruction::Sub { rd, rs1, rs2 } => r_type(0x20, 0, rd, rs1, rs2),
        Instruction::Sll { rd, rs1, rs2 } => r_type(0, 1, rd, rs1, rs2),
        Instruction::Slt { rd, rs1, rs2 } => r_type(0, 2, rd, rs1, rs2),
        Instruction::Sltu { rd, rs1, rs2 } => r_type(0, 3, rd, rs1, rs2),
        Instruction::Xor { rd, rs1, rs2 } => r_type(0, 4, rd, rs1, rs2),
        Instruction::Srl { rd, rs1, rs2 } => r_type(0, 5, rd, rs1, rs2),
        Instruction::Sra { rd, rs1, rs2 } => r_type(0x20, 5, rd, rs1, rs2),
        Instruction::Or { rd, rs1, rs2 } => r_type(0, 6, rd, rs1, rs2),
        Instruction::And { rd, rs1, rs2 } => r_type(0, 7, rd, rs1, rs2),
        Instruction::Mul { rd, rs1, rs2 } => r_type(1, 0, rd, rs1, rs2),
        Instruction::Mulh { rd, rs1, rs2 } => r_type(1, 1, rd, rs1, rs2),
        Instruction::Mulhsu { rd, rs1, rs2 } => r_type(1, 2, rd, rs1, rs2),
        Instruction::Mulhu { rd, rs1, rs2 } => r_type(1, 3, rd, rs1, rs2),
        Instruction::Div { rd, rs1, rs2 } => r_type(1, 4, rd, rs1, rs2),
        Instruction::Divu { rd, rs1, rs2 } => r_type(1, 5, rd, rs1, rs2),
        Instruction::Rem { rd, rs1, rs2 } => r_type(1, 6, rd, rs1, rs2),
        Instruction::Remu { rd, rs1, rs2 } => r_type(1, 7, rd, rs1, rs2),
        Instruction::Addi { rd, rs1, imm } => i_type(0x13, 0, rd, rs1, imm),
        Instruction::Slti { rd, rs1, imm } => i_type(0x13, 2, rd, rs1, imm),
        Instruction::Sltiu { rd, rs1, imm } => i_type(0x13, 3, rd, rs1, imm),
        Instruction::Xori { rd, rs1, imm } => i_type(0x13, 4, rd, rs1, imm),
        Instruction::Ori { rd, rs1, imm } => i_type(0x13, 6, rd, rs1, imm),
        Instruction::Andi { rd, rs1, imm } => i_type(0x13, 7, rd, rs1, imm),
        Instruction::Slli { rd, rs1, shamt } => shift_type(0, 1, rd, rs1, shamt),
        Instruction::Srli { rd, rs1, shamt } => shift_type(0, 5, rd, rs1, shamt),
        Instruction::Srai { rd, rs1, shamt } => shift_type(0x20, 5, rd, rs1, shamt),
        Instruction::Lb { rd, rs1, imm } => i_type(0x03, 0, rd, rs1, imm),
        Instruction::Lh { rd, rs1, imm } => i_type(0x03, 1, rd, rs1, imm),
        Instruction::Lw { rd, rs1, imm } => i_type(0x03, 2, rd, rs1, imm),
        Instruction::Lbu { rd, rs1, imm } => i_type(0x03, 4, rd, rs1, imm),
        Instruction::Lhu { rd, rs1, imm } => i_type(0x03, 5, rd, rs1, imm),
        Instruction::Sb { rs2, rs1, imm } => s_type(0, rs2, rs1, imm),
        Instruction::Sh { rs2, rs1, imm } => s_type(1, rs2, rs1, imm),
        Instruction::Sw { rs2, rs1, imm } => s_type(2, rs2, rs1, imm),
        Instruction::Beq { rs1, rs2, imm } => b_type(0, rs1, rs2, imm),
        Instruction::Bne { rs1, rs2, imm } => b_type(1, rs1, rs2, imm),
        Instruction::Blt { rs1, rs2, imm } => b_type(4, rs1, rs2, imm),
        Instruction::Bge { rs1, rs2, imm } => b_type(5, rs1, rs2, imm),
        Instruction::Bltu { rs1, rs2, imm } => b_type(6, rs1, rs2, imm),
        Instruction::Bgeu { rs1, rs2, imm } => b_type(7, rs1, rs2, imm),
        Instruction::Jal { rd, imm } => j_type(rd, imm),
        Instruction::Jalr { rd, rs1, imm } => i_type(0x67, 0, rd, rs1, imm),
        Instruction::Lui { rd, imm } => u_type(0x37, rd, imm),
        Instruction::Auipc { rd, imm } => u_type(0x17, rd, imm),
        Instruction::Ecall => Ok(0x0000_0073),
        Instruction::Ebreak => Ok(0x0010_0073),
        Instruction::Halt => Ok(0),
    }
}


/// The RISC-V `funct7` and `funct3` codes of a register-register
/// instruction (opcode `0x33`), with its destination and sources.
pub open spec fn r_type_codes(i: Instruction) -> Option<(u32, u32, u8, u8, u8)> {
    match i {
        Instruction::Add { rd, rs1, rs2 } => Some((0x0, 0, rd, rs1, rs2)),
        Instruction::Sub { rd, rs1, rs2 } => Some((0x20, 0, rd, rs1, rs2)),
        Instruction::Sll { rd, rs1, rs2 } => Some((0x0, 1, rd, rs1, rs2)),
        Instruction::Slt { rd, rs1, rs2 } => Some((0x0, 2, rd, rs1, rs2)),
        Instruction::Sltu { rd, rs1, rs2 } => Some((0x0, 3, rd, rs1, rs2)),
        Instruction::Xor { rd, rs1, rs2 } => Some((0x0, 4, rd, rs1, rs2)),
        Instruction::Srl { rd, rs1, rs2 } => Some((0x0, 5, rd, rs1, rs2)),
        Instruction::Sra { rd, rs1, rs2 } => Some((0x20, 5, rd, rs1, rs2)),
        Instruction::Or { rd, rs1, rs2 } => Some((0x0, 6, rd, rs1, rs2)),
        Instruction::And { rd, rs1, rs2 } => Some((0x0, 7, rd, rs1, rs2)),
        Instruction::Mul { rd, rs1, rs2 } => Some((0x1, 0, rd, rs1, rs2)),
        Instruction::Mulh { rd, rs1, rs2 } => Some((0x1, 1, rd, rs1, rs2)),
        Instruction::Mulhsu { rd, rs1, rs2 } => Some((0x1, 2, rd, rs1, rs2)),
        Instruction::Mulhu { rd, rs1, rs2 } => Some((0x1, 3, rd, rs1, rs2)),
        Instruction::Div { rd, rs1, rs2 } => Some((0x1, 4, rd, rs1, rs2)),
        Instruction::Divu { rd, rs1, rs2 } => Some((0x1, 5, rd, rs1, rs2)),
        Instruction::Rem { rd, rs1, rs2 } => Some((0x1, 6, rd, rs1, rs2)),
        Instruction::Remu { rd, rs1, rs2 } => Some((0x1, 7, rd, rs1, rs2)),
        _ => None,
    }
}

/// A register-register instruction encodes in the RISC-V R format: opcode
/// `0x33` in bits 0..7, `rd` in bits 7..12, `funct3` in bits 12..15, `rs1` in
/// bits 15..20, `rs2` in bits 20..25 and `funct7` in bits 25..32.
pub proof fn lemma_r_type_encoding(i: Instruction)
    requires
        r_type_codes(i) matches Some((_, _, rd, rs1, rs2)) && rd < 32 && rs1 < 32 && rs2 < 32,
    ensures
        ({
            let (f7, f3, rd, rs1, rs2) = r_type_codes(i)->0;
            encoding(i) matches Ok(w) && {
                &&& w & 0x7f == 0x33
                &&& (w >> 7u32) & 0x1f == rd as u32
                &&& (w >> 12u32) & 0x7 == f3
                &&& (w >> 15u32) & 0x1f == rs1 as u32
                &&& (w >> 20u32) & 0x1f == rs2 as u32
                &&& w >> 25u32 == f7
            }
        }),
{
    let (f7, f3, rd, rs1, rs2) = r_type_codes(i)->0;
    bits::lemma_r_fields(f7, rs2 as u32, rs1 as u32, f3, rd as u32, 0x33);
}

/// The RISC-V `funct3` code of an arithmetic instruction with an immediate
/// (opcode `0x13`), with its destination, source and immediate.
pub open spec fn i_type_codes(i: Instruction) -> Option<(u32, u8, u8, i32)> {
    match i {
        Instruction::Addi { rd, rs1, imm } => Some((0, rd, rs1, imm)),
        Instruction::Slti { rd, rs1, imm } => Some((2, rd, rs1, imm)),
        Instruction::Sltiu { rd, rs1, imm } => Some((3, rd, rs1, imm)),
        Instruction::Xori { rd, rs1, imm } => Some((4, rd, rs1, imm)),
        Instruction::Ori { rd, rs1, imm } => Some((6, rd, rs1, imm)),
        Instruction::Andi { rd, rs1, imm } => Some((7, rd, rs1, imm)),
        _ => None,
    }
}

/// An arithmetic instruction with a 12-bit immediate encodes in the RISC-V
/// I format: opcode `0x13`, `rd` in bits 7..12, `funct3` in bits 12..15,
/// `rs1` in bits 15..20, and the immediate, sign-extended from bit 31, in
/// bits 20..32.
pub proof fn lemma_i_type_encoding(i: Instruction)
    requires
        i_type_codes(i) matches Some((_, rd, rs1, imm)) && rd < 32 && rs1 < 32 && -2048 <= imm <= 2047,
    ensures
        ({
            let (f3, rd, rs1, imm) = i_type_codes(i)->0;
            encoding(i) matches Ok(w) && {
                &&& w & 0x7f == 0x13
                &&& (w >> 7u32) & 0x1f == rd as u32
                &&& (w >> 12u32) & 0x7 == f3
                &&& (w >> 15u32) & 0x1f == rs1 as u32
                &&& bits::sext12(w >> 20u32) == imm
            }
        }),
{
    let (f3, rd, rs1, imm) = i_type_codes(i)->0;
    bits::lemma_i_fields(imm, rs1 as u32, f3, rd as u32, 0x13);
}

} // verus!
