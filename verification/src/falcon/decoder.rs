//! Instruction decoding: from a 32-bit machine word back to an [`Instruction`],
//! and the two laws that make decoding the inverse of encoding.
use vstd::prelude::*;
use crate::falcon::bits::{
    self, get_funct3, get_funct7, get_imm_b, get_imm_i, get_imm_j, get_imm_s, get_imm_u,
    get_opcode, get_rd, get_rs1, get_rs2,
};
use crate::falcon::encoder::{self, EncodeError};
use crate::falcon::instruction::Instruction;

verus! {

/// A word that is no instruction.
#[derive(Clone, Copy, Debug, PartialEq, Eq, Structural)]
pub struct DecodeError {
    pub word: u32,
}

pub open spec fn decode_op(w: u32) -> Option<Instruction> {
    let rd = bits::rd_field(w) as u8;
    let rs1 = bits::rs1_field(w) as u8;
    let rs2 = bits::rs2_field(w) as u8;
    let f3 = bits::funct3(w);
    let f7 = bits::funct7(w);
    if f7 == 0 {
        if f3 == 0 {
            Some(Instruction::Add { rd, rs1, rs2 })
        } else if f3 == 1 {
            Some(Instruction::Sll { rd, rs1, rs2 })
        } else if f3 == 2 {
            Some(Instruction::Slt { rd, rs1, rs2 })
        } else if f3 == 3 {
            Some(Instruction::Sltu { rd, rs1, rs2 })
        } else if f3 == 4 {
            Some(Instruction::Xor { rd, rs1, rs2 })
        } else if f3 == 5 {
            Some(Instruction::Srl { rd, rs1, rs2 })
        } else if f3 == 6 {
            Some(Instruction::Or { rd, rs1, rs2 })
        } else {
            Some(Instruction::And { rd, rs1, rs2 })
        }
    } else if f7 == 0x20 {
        if f3 == 0 {
            Some(Instruction::Sub { rd, rs1, rs2 })
        } else if f3 == 5 {
            Some(Instruction::Sra { rd, rs1, rs2 })
        } else {
            None
        }
    } else if f7 == 1 {
        if f3 == 0 {
            Some(Instruction::Mul { rd, rs1, rs2 })
        } else if f3 == 1 {
            Some(Instruction::Mulh { rd, rs1, rs2 })
        } else if f3 == 2 {
            Some(Instruction::Mulhsu { rd, rs1, rs2 })
        } else if f3 == 3 {
            Some(Instruction::Mulhu { rd, rs1, rs2 })
        } else if f3 == 4 {
            Some(Instruction::Div { rd, rs1, rs2 })
        } else if f3 == 5 {
            Some(Instruction::Divu { rd, rs1, rs2 })
        } else if f3 == 6 {
            Some(Instruction::Rem { rd, rs1, rs2 })
        } else {
            Some(Instruction::Remu { rd, rs1, rs2 })
        }
    } else {
        None
    }
}

pub open spec fn decode_op_imm(w: u32) -> Option<Instruction> {
    let rd = bits::rd_field(w) as u8;
    let rs1 = bits::rs1_field(w) as u8;
    let imm = bits::imm_i(w);
    let shamt = bits::rs2_field(w) as u8;
    let f3 = bits::funct3(w);
    let f7 = bits::funct7(w);
    if f3 == 0 {
        Some(Instruction::Addi { rd, rs1, imm })
    } else if f3 == 2 {
        Some(Instruction::Slti { rd, rs1, imm })
    } else if f3 == 3 {
        Some(Instruction::Sltiu { rd, rs1, imm })
    } else if f3 == 4 {
        Some(Instruction::Xori { rd, rs1, imm })
    } else if f3 == 6 {
        Some(Instruction::Ori { rd, rs1, imm })
    } else if f3 == 7 {
        Some(Instruction::Andi { rd, rs1, imm })
    } else if f3 == 1 {
        if f7 == 0 {
            Some(Instruction::Slli { rd, rs1, shamt })
        } else {
            None
        }
    } else {
        if f7 == 0 {
            Some(Instruction::Srli { rd, rs1, shamt })
        } else if f7 == 0x20 {
            Some(Instruction::Srai { rd, rs1, shamt })
        } else {
            None
        }
    }
}

pub open spec fn decode_load(w: u32) -> Option<Instruction> {
    let rd = bits::rd_field(w) as u8;
    let rs1 = bits::rs1_field(w) as u8;
    let imm = bits::imm_i(w);
    let f3 = bits::funct3(w);
    if f3 == 0 {
        Some(Instruction::Lb { rd, rs1, imm })
    } else if f3 == 1 {
        Some(Instruction::Lh { rd, rs1, imm })
    } else if f3 == 2 {
        Some(Instruction::Lw { rd, rs1, imm })
    } else if f3 == 4 {
        Some(Instruction::Lbu { rd, rs1, imm })
    } else if f3 == 5 {
        Some(Instruction::Lhu { rd, rs1, imm })
    } else {
        None
    }
}

pub open spec fn decode_store(w: u32) -> Option<Instruction> {
    let rs1 = bits::rs1_field(w) as u8;
    let rs2 = bits::rs2_field(w) as u8;
    let imm = bits::imm_s(w);
    let f3 = bits::funct3(w);
    if f3 == 0 {
        Some(Instruction::Sb { rs2, rs1, imm })
    } else if f3 == 1 {
        Some(Instruction::Sh { rs2, rs1, imm })
    } else if f3 == 2 {
        Some(Instruction::Sw { rs2, rs1, imm })
    } else {
        None
    }
}

pub open spec fn decode_branch(w: u32) -> Option<Instruction> {
    let rs1 = bits::rs1_field(w) as u8;
    let rs2 = bits::rs2_field(w) as u8;
    let imm = bits::imm_b(w);
    let f3 = bits::funct3(w);
    if f3 == 0 {
        Some(Instruction::Beq { rs1, rs2, imm })
    } else if f3 == 1 {
        Some(Instruction::Bne { rs1, rs2, imm })
    } else if f3 == 4 {
        Some(Instruction::Blt { rs1, rs2, imm })
    } else if f3 == 5 {
        Some(Instruction::Bge { rs1, rs2, imm })
    } else if f3 == 6 {
        Some(Instruction::Bltu { rs1, rs2, imm })
    } else if f3 == 7 {
        Some(Instruction::Bgeu { rs1, rs2, imm })
    } else {
        None
    }
}

/// The instruction a word stands for, if any.
pub open spec fn decoding(w: u32) -> Option<Instruction> {
    let op = bits::opcode(w);
    if op == 0x33 {
        decode_op(w)
    } else if op == 0x13 {
        decode_op_imm(w)
    } else if op == 0x03 {
        decode_load(w)
    } else if op == 0x23 {
        decode_store(w)
    } else if op == 0x63 {
        decode_branch(w)
    } else if op == 0x6f {
        Some(Instruction::Jal { rd: bits::rd_field(w) as u8, imm: bits::imm_j(w) })
    } else if op == 0x67 {
        if bits::funct3(w) == 0 {
            Some(
                Instruction::Jalr {
                    rd: bits::rd_field(w) as u8,
                    rs1: bits::rs1_field(w) as u8,
                    imm: bits::imm_i(w),
                },
            )
        } else {
            None
        }
    } else if op == 0x37 {
        Some(Instruction::Lui { rd: bits::rd_field(w) as u8, imm: bits::imm_u(w) })
    } else if op == 0x17 {
        Some(Instruction::Auipc { rd: bits::rd_field(w) as u8, imm: bits::imm_u(w) })
    } else if op == 0x73 {
        if w == 0x0000_0073 {
            Some(Instruction::Ecall)
        } else if w == 0x0010_0073 {
            Some(Instruction::Ebreak)
        } else {
            None
        }
    } else if w == 0 {
        Some(Instruction::Halt)
    } else {
        None
    }
}

fn decode_op_exec(w: u32) -> (r: Option<Instruction>)
    ensures
        r == decode_op(w),
{
    let rd = get_rd(w) as u8;
    let rs1 = get_rs1(w) as u8;
    let rs2 = get_rs2(w) as u8;
    let f3 = get_funct3(w);
    let f7 = get_funct7(w);
    if f7 == 0 {
        if f3 == 0 {
            Some(Instruction::Add { rd, rs1, rs2 })
        } else if f3 == 1 {
            Some(Instruction::Sll { rd, rs1, rs2 })
        } else if f3 == 2 {
            Some(Instruction::Slt { rd, rs1, rs2 })
        } else if f3 == 3 {
            Some(Instruction::Sltu { rd, rs1, rs2 })
        } else if f3 == 4 {
            Some(Instruction::Xor { rd, rs1, rs2 })
        } else if f3 == 5 {
            Some(Instruction::Srl { rd, rs1, rs2 })
        } else if f3 == 6 {
            Some(Instruction::Or { rd, rs1, rs2 })
        } else {
            Some(Instruction::And { rd, rs1, rs2 })
        }
    } else if f7 == 0x20 {
        if f3 == 0 {
            Some(Instruction::Sub { rd, rs1, rs2 })
        } else if f3 == 5 {
            Some(Instruction::Sra { rd, rs1, rs2 })
        } else {
            None
        }
    } else if f7 == 1 {
        if f3 == 0 {
            Some(Instruction::Mul { rd, rs1, rs2 })
        } else if f3 == 1 {
            Some(Instruction::Mulh { rd, rs1, rs2 })
        } else if f3 == 2 {
            Some(Instruction::Mulhsu { rd, rs1, rs2 })
        } else if f3 == 3 {
            Some(Instruction::Mulhu { rd, rs1, rs2 })
        } else if f3 == 4 {
            Some(Instruction::Div { rd, rs1, rs2 })
        } else if f3 == 5 {
            Some(Instruction::Divu { rd, rs1, rs2 })
        } else if f3 == 6 {
            Some(Instruction::Rem { rd, rs1, rs2 })
        } else {
            Some(Instruction::Remu { rd, rs1, rs2 })
        }
    } else {
        None
    }
}

fn decode_op_imm_exec(w: u32) -> (r: Option<Instruction>)
    ensures
        r == decode_op_imm(w),
{
    let rd = get_rd(w) as u8;
    let rs1 = get_rs1(w) as u8;
    let imm = get_imm_i(w);
    let shamt = get_rs2(w) as u8;
    let f3 = get_funct3(w);
    let f7 = get_funct7(w);
    if f3 == 0 {
        Some(Instruction::Addi { rd, rs1, imm })
    } else if f3 == 2 {
        Some(Instruction::Slti { rd, rs1, imm })
    } else if f3 == 3 {
        Some(Instruction::Sltiu { rd, rs1, imm })
    } else if f3 == 4 {
        Some(Instruction::Xori { rd, rs1, imm })
    } else if f3 == 6 {
        Some(Instruction::Ori { rd, rs1, imm })
    } else if f3 == 7 {
        Some(Instruction::Andi { rd, rs1, imm })
    } else if f3 == 1 {
        if f7 == 0 {
            Some(Instruction::Slli { rd, rs1, shamt })
        } else {
            None
        }
    } else {
        if f7 == 0 {
            Some(Instruction::Srli { rd, rs1, shamt })
        } else if f7 == 0x20 {
            Some(Instruction::Srai { rd, rs1, shamt })
        } else {
            None
        }
    }
}

fn decode_load_exec(w: u32) -> (r: Option<Instruction>)
    ensures
        r == decode_load(w),
{
    let rd = get_rd(w) as u8;
    let rs1 = get_rs1(w) as u8;
    let imm = get_imm_i(w);
    let f3 = get_funct3(w);
    if f3 == 0 {
        Some(Instruction::Lb { rd, rs1, imm })
    } else if f3 == 1 {
        Some(Instruction::Lh { rd, rs1, imm })
    } else if f3 == 2 {
        Some(Instruction::Lw { rd, rs1, imm })
    } else if f3 == 4 {
        Some(Instruction::Lbu { rd, rs1, imm })
    } else if f3 == 5 {
        Some(Instruction::Lhu { rd, rs1, imm })
    } else {
        None
    }
}

fn decode_store_exec(w: u32) -> (r: Option<Instruction>)
    ensures
        r == decode_store(w),
{
    let rs1 = get_rs1(w) as u8;
    let rs2 = get_rs2(w) as u8;
    let imm = get_imm_s(w);
    let f3 = get_funct3(w);
    if f3 == 0 {
        Some(Instruction::Sb { rs2, rs1, imm })
    } else if f3 == 1 {
        Some(Instruction::Sh { rs2, rs1, imm })
    } else if f3 == 2 {
        Some(Instruction::Sw { rs2, rs1, imm })
    } else {
        None
    }
}

fn decode_branch_exec(w: u32) -> (r: Option<Instruction>)
    ensures
        r == decode_branch(w),
{
    let rs1 = get_rs1(w) as u8;
    let rs2 = get_rs2(w) as u8;
    let imm = get_imm_b(w);
    let f3 = get_funct3(w);
    if f3 == 0 {
        Some(Instruction::Beq { rs1, rs2, imm })
    } else if f3 == 1 {
        Some(Instruction::Bne { rs1, rs2, imm })
    } else if f3 == 4 {
        Some(Instruction::Blt { rs1, rs2, imm })
    } else if f3 == 5 {
        Some(Instruction::Bge { rs1, rs2, imm })
    } else if f3 == 6 {
        Some(Instruction::Bltu { rs1, rs2, imm })
    } else if f3 == 7 {
        Some(Instruction::Bgeu { rs1, rs2, imm })
    } else {
        None
    }
}

/// Decodes a 32-bit machine word.
pub fn decode(w: u32) -> (res: Result<Instruction, DecodeError>)
    ensures
        match res {
            Ok(i) => decoding(w) == Some(i),
            Err(e) => decoding(w) is None && e == (DecodeError { word: w }),
        },
{
    let op = get_opcode(w);
    let r = if op == 0x33 {
        decode_op_exec(w)
    } else if op == 0x13 {
        decode_op_imm_exec(w)
    } else if op == 0x03 {
        decode_load_exec(w)
    } else if op == 0x23 {
        decode_store_exec(w)
    } else if op == 0x63 {
        decode_branch_exec(w)
    } else if op == 0x6f {
        Some(Instruction::Jal { rd: get_rd(w) as u8, imm: get_imm_j(w) })
    } else if op == 0x67 {
        if get_funct3(w) == 0 {
            Some(Instruction::Jalr { rd: get_rd(w) as u8, rs1: get_rs1(w) as u8, imm: get_imm_i(w) })
        } else {
            None
        }
    } else if op == 0x37 {
        Some(Instruction::Lui { rd: get_rd(w) as u8, imm: get_imm_u(w) })
    } else if op == 0x17 {
        Some(Instruction::Auipc { rd: get_rd(w) as u8, imm: get_imm_u(w) })
    } else if op == 0x73 {
        if w == 0x0000_0073 {
            Some(Instruction::Ecall)
        } else if w == 0x0010_0073 {
            Some(Instruction::Ebreak)
        } else {
            None
        }
    } else if w == 0 {
        Some(Instruction::Halt)
    } else {
        None
    };
    match r {
        Some(i) => Ok(i),
        None => Err(DecodeError { word: w }),
    }
}

proof fn lemma_system_words()
    ensures
        bits::opcode(0) == 0,
        bits::opcode(0x0000_0073) == 0x73,
        bits::opcode(0x0010_0073) == 0x73,
{
    assert(0u32 & 0x7f == 0 && 0x73u32 & 0x7f == 0x73 && 0x0010_0073u32 & 0x7f == 0x73)
        by (bit_vector);
}

/// Decoding the word of an encodable instruction gives the instruction back.
pub proof fn lemma_decode_encode(i: Instruction)
    requires
        encoder::encodable(i),
    ensures
        decoding(encoder::encoding(i)->Ok_0) == Some(i),
{
    lemma_system_words();
    match i {
        Instruction::Add { rd, rs1, rs2 } => bits::lemma_r_fields(0, rs2 as u32, rs1 as u32, 0, rd as u32, 0x33),
        Instruction::Sub { rd, rs1, rs2 } => bits::lemma_r_fields(0x20, rs2 as u32, rs1 as u32, 0, rd as u32, 0x33),
        Instruction::Sll { rd, rs1, rs2 } => bits::lemma_r_fields(0, rs2 as u32, rs1 as u32, 1, rd as u32, 0x33),
        Instruction::Slt { rd, rs1, rs2 } => bits::lemma_r_fields(0, rs2 as u32, rs1 as u32, 2, rd as u32, 0x33),
        Instruction::Sltu { rd, rs1, rs2 } => bits::lemma_r_fields(0, rs2 as u32, rs1 as u32, 3, rd as u32, 0x33),
        Instruction::Xor { rd, rs1, rs2 } => bits::lemma_r_fields(0, rs2 as u32, rs1 as u32, 4, rd as u32, 0x33),
        Instruction::Srl { rd, rs1, rs2 } => bits::lemma_r_fields(0, rs2 as u32, rs1 as u32, 5, rd as u32, 0x33),
        Instruction::Sra { rd, rs1, rs2 } => bits::lemma_r_fields(0x20, rs2 as u32, rs1 as u32, 5, rd as u32, 0x33),
        Instruction::Or { rd, rs1, rs2 } => bits::lemma_r_fields(0, rs2 as u32, rs1 as u32, 6, rd as u32, 0x33),
        Instruction::And { rd, rs1, rs2 } => bits::lemma_r_fields(0, rs2 as u32, rs1 as u32, 7, rd as u32, 0x33),
        Instruction::Mul { rd, rs1, rs2 } => bits::lemma_r_fields(1, rs2 as u32, rs1 as u32, 0, rd as u32, 0x33),
        Instruction::Mulh { rd, rs1, rs2 } => bits::lemma_r_fields(1, rs2 as u32, rs1 as u32, 1, rd as u32, 0x33),
        Instruction::Mulhsu { rd, rs1, rs2 } => bits::lemma_r_fields(1, rs2 as u32, rs1 as u32, 2, rd as u32, 0x33),
        Instruction::Mulhu { rd, rs1, rs2 } => bits::lemma_r_fields(1, rs2 as u32, rs1 as u32, 3, rd as u32, 0x33),
        Instruction::Div { rd, rs1, rs2 } => bits::lemma_r_fields(1, rs2 as u32, rs1 as u32, 4, rd as u32, 0x33),
        Instruction::Divu { rd, rs1, rs2 } => bits::lemma_r_fields(1, rs2 as u32, rs1 as u32, 5, rd as u32, 0x33),
        Instruction::Rem { rd, rs1, rs2 } => bits::lemma_r_fields(1, rs2 as u32, rs1 as u32, 6, rd as u32, 0x33),
        Instruction::Remu { rd, rs1, rs2 } => bits::lemma_r_fields(1, rs2 as u32, rs1 as u32, 7, rd as u32, 0x33),
        Instruction::Addi { rd, rs1, imm } => bits::lemma_i_fields(imm, rs1 as u32, 0, rd as u32, 0x13),
        Instruction::Slti { rd, rs1, imm } => bits::lemma_i_fields(imm, rs1 as u32, 2, rd as u32, 0x13),
        Instruction::Sltiu { rd, rs1, imm } => bits::lemma_i_fields(imm, rs1 as u32, 3, rd as u32, 0x13),
        Instruction::Xori { rd, rs1, imm } => bits::lemma_i_fields(imm, rs1 as u32, 4, rd as u32, 0x13),
        Instruction::Ori { rd, rs1, imm } => bits::lemma_i_fields(imm, rs1 as u32, 6, rd as u32, 0x13),
        Instruction::Andi { rd, rs1, imm } => bits::lemma_i_fields(imm, rs1 as u32, 7, rd as u32, 0x13),
        Instruction::Slli { rd, rs1, shamt } => bits::lemma_r_fields(0, shamt as u32, rs1 as u32, 1, rd as u32, 0x13),
        Instruction::Srli { rd, rs1, shamt } => bits::lemma_r_fields(0, shamt as u32, rs1 as u32, 5, rd as u32, 0x13),
        Instruction::Srai { rd, rs1, shamt } => bits::lemma_r_fields(0x20, shamt as u32, rs1 as u32, 5, rd as u32, 0x13),
        Instruction::Lb { rd, rs1, imm } => bits::lemma_i_fields(imm, rs1 as u32, 0, rd as u32, 0x03),
        Instruction::Lh { rd, rs1, imm } => bits::lemma_i_fields(imm, rs1 as u32, 1, rd as u32, 0x03),
        Instruction::Lw { rd, rs1, imm } => bits::lemma_i_fields(imm, rs1 as u32, 2, rd as u32, 0x03),
        Instruction::Lbu { rd, rs1, imm } => bits::lemma_i_fields(imm, rs1 as u32, 4, rd as u32, 0x03),
        Instruction::Lhu { rd, rs1, imm } => bits::lemma_i_fields(imm, rs1 as u32, 5, rd as u32, 0x03),
        Instruction::Sb { rs2, rs1, imm } => bits::lemma_s_fields(imm, rs2 as u32, rs1 as u32, 0, 0x23),
        Instruction::Sh { rs2, rs1, imm } => bits::lemma_s_fields(imm, rs2 as u32, rs1 as u32, 1, 0x23),
        Instruction::Sw { rs2, rs1, imm } => bits::lemma_s_fields(imm, rs2 as u32, rs1 as u32, 2, 0x23),
        Instruction::Beq { rs1, rs2, imm } => bits::lemma_b_fields(imm, rs2 as u32, rs1 as u32, 0, 0x63),
        Instruction::Bne { rs1, rs2, imm } => bits::lemma_b_fields(imm, rs2 as u32, rs1 as u32, 1, 0x63),
        Instruction::Blt { rs1, rs2, imm } => bits::lemma_b_fields(imm, rs2 as u32, rs1 as u32, 4, 0x63),
        Instruction::Bge { rs1, rs2, imm } => bits::lemma_b_fields(imm, rs2 as u32, rs1 as u32, 5, 0x63),
        Instruction::Bltu { rs1, rs2, imm } => bits::lemma_b_fields(imm, rs2 as u32, rs1 as u32, 6, 0x63),
        Instruction::Bgeu { rs1, rs2, imm } => bits::lemma_b_fields(imm, rs2 as u32, rs1 as u32, 7, 0x63),
        Instruction::Jal { rd, imm } => bits::lemma_j_fields(imm, rd as u32, 0x6f),
        Instruction::Jalr { rd, rs1, imm } => bits::lemma_i_fields(imm, rs1 as u32, 0, rd as u32, 0x67),
        Instruction::Lui { rd, imm } => bits::lemma_u_fields(imm, rd as u32, 0x37),
        Instruction::Auipc { rd, imm } => bits::lemma_u_fields(imm, rd as u32, 0x17),
        Instruction::Ecall => {},
        Instruction::Ebreak => {},
        Instruction::Halt => {},
    }
}

/// A word that decodes is the encoding of what it decodes to.
pub proof fn lemma_encode_decode(w: u32)
    requires
        decoding(w) is Some,
    ensures
        encoder::encoding(decoding(w)->Some_0) == Ok::<u32, EncodeError>(w),
{
    bits::lemma_r_word_of_fields(w);
    bits::lemma_i_word_of_fields(w);
    bits::lemma_s_word_of_fields(w);
    bits::lemma_b_word_of_fields(w);
    bits::lemma_u_word_of_fields(w);
    bits::lemma_j_word_of_fields(w);
}

} // verus!
