//! Bit layouts of the RV32 instruction formats: how fields are packed into a
//! 32-bit word, how they are read back, and the facts that tie the two.
use vstd::prelude::*;

verus! {

// ---------- reading fields ----------

pub open spec fn opcode(w: u32) -> u32 {
    w & 0x7f
}

pub open spec fn rd_field(w: u32) -> u32 {
    (w >> 7u32) & 0x1f
}

pub open spec fn funct3(w: u32) -> u32 {
    (w >> 12u32) & 0x7
}

pub open spec fn rs1_field(w: u32) -> u32 {
    (w >> 15u32) & 0x1f
}

pub open spec fn rs2_field(w: u32) -> u32 {
    (w >> 20u32) & 0x1f
}

pub open spec fn funct7(w: u32) -> u32 {
    w >> 25u32
}

/// Sign-extends the low 12 bits of `v`.
pub open spec fn sext12(v: u32) -> i32 {
    if v & 0x800 != 0 {
        (v | 0xfffff000u32) as i32
    } else {
        v as i32
    }
}

/// Sign-extends the low 13 bits of `v`.
pub open spec fn sext13(v: u32) -> i32 {
    if v & 0x1000 != 0 {
        (v | 0xffffe000u32) as i32
    } else {
        v as i32
    }
}

/// Sign-extends the low 21 bits of `v`.
pub open spec fn sext21(v: u32) -> i32 {
    if v & 0x100000 != 0 {
        (v | 0xffe00000u32) as i32
    } else {
        v as i32
    }
}

pub open spec fn imm_i(w: u32) -> i32 {
    sext12(w >> 20u32)
}

pub open spec fn imm_s(w: u32) -> i32 {
    sext12(((w >> 20u32) & 0xfe0) | ((w >> 7u32) & 0x1f))
}

pub open spec fn imm_b(w: u32) -> i32 {
    sext13(
        ((w >> 19u32) & 0x1000) | ((w << 4u32) & 0x800) | ((w >> 20u32) & 0x7e0) | ((w >> 7u32)
            & 0x1e),
    )
}

pub open spec fn imm_u(w: u32) -> i32 {
    (w & 0xfffff000u32) as i32
}

pub open spec fn imm_j(w: u32) -> i32 {
    sext21(((w >> 11u32) & 0x100000) | (w & 0xff000) | ((w >> 9u32) & 0x800) | ((w >> 20u32) & 0x7fe))
}

// ---------- packing fields ----------

pub open spec fn r_word(f7: u32, rs2: u32, rs1: u32, f3: u32, rd: u32, op: u32) -> u32 {
    (f7 << 25u32) | (rs2 << 20u32) | (rs1 << 15u32) | (f3 << 12u32) | (rd << 7u32) | op
}

pub open spec fn i_word(imm: i32, rs1: u32, f3: u32, rd: u32, op: u32) -> u32 {
    ((imm as u32) << 20u32) | (rs1 << 15u32) | (f3 << 12u32) | (rd << 7u32) | op
}

pub open spec fn s_word(imm: i32, rs2: u32, rs1: u32, f3: u32, op: u32) -> u32 {
    (((imm as u32) & 0xfe0) << 20u32) | (rs2 << 20u32) | (rs1 << 15u32) | (f3 << 12u32) | (((
    imm as u32) & 0x1f) << 7u32) | op
}

pub open spec fn b_word(imm: i32, rs2: u32, rs1: u32, f3: u32, op: u32) -> u32 {
    let u = imm as u32;
    (((u >> 12u32) & 1) << 31u32) | (((u >> 5u32) & 0x3f) << 25u32) | (rs2 << 20u32) | (rs1
        << 15u32) | (f3 << 12u32) | (((u >> 1u32) & 0xf) << 8u32) | (((u >> 11u32) & 1) << 7u32)
        | op
}

pub open spec fn u_word(imm: i32, rd: u32, op: u32) -> u32 {
    ((imm as u32) & 0xfffff000u32) | (rd << 7u32) | op
}

pub open spec fn j_word(imm: i32, rd: u32, op: u32) -> u32 {
    let u = imm as u32;
    (((u >> 20u32) & 1) << 31u32) | (((u >> 1u32) & 0x3ff) << 21u32) | (((u >> 11u32) & 1)
        << 20u32) | (((u >> 12u32) & 0xff) << 12u32) | (rd << 7u32) | op
}

// ---------- executable field readers ----------

pub fn get_opcode(w: u32) -> (r: u32)
    ensures
        r == opcode(w),
{
    w & 0x7f
}

pub fn get_rd(w: u32) -> (r: u32)
    ensures
        r == rd_field(w),
{
    (w >> 7u32) & 0x1f
}

pub fn get_funct3(w: u32) -> (r: u32)
    ensures
        r == funct3(w),
{
    (w >> 12u32) & 0x7
}

pub fn get_rs1(w: u32) -> (r: u32)
    ensures
        r == rs1_field(w),
{
    (w >> 15u32) & 0x1f
}

pub fn get_rs2(w: u32) -> (r: u32)
    ensures
        r == rs2_field(w),
{
    (w >> 20u32) & 0x1f
}

pub fn get_funct7(w: u32) -> (r: u32)
    ensures
        r == funct7(w),
{
    w >> 25u32
}

fn sign_extend12(v: u32) -> (r: i32)
    ensures
        r == sext12(v),
{
    if v & 0x800 != 0 {
        (v | 0xfffff000u32) as i32
    } else {
        v as i32
    }
}

pub fn get_imm_i(w: u32) -> (r: i32)
    ensures
        r == imm_i(w),
{
    sign_extend12(w >> 20u32)
}

pub fn get_imm_s(w: u32) -> (r: i32)
    ensures
        r == imm_s(w),
{
    sign_extend12(((w >> 20u32) & 0xfe0) | ((w >> 7u32) & 0x1f))
}

pub fn get_imm_b(w: u32) -> (r: i32)
    ensures
        r == imm_b(w),
{
    let v = ((w >> 19u32) & 0x1000) | ((w << 4u32) & 0x800) | ((w >> 20u32) & 0x7e0) | ((w
        >> 7u32) & 0x1e);
    if v & 0x1000 != 0 {
        (v | 0xffffe000u32) as i32
    } else {
        v as i32
    }
}

pub fn get_imm_u(w: u32) -> (r: i32)
    ensures
        r == imm_u(w),
{
    (w & 0xfffff000u32) as i32
}

pub fn get_imm_j(w: u32) -> (r: i32)
    ensures
        r == imm_j(w),
{
    let v = ((w >> 11u32) & 0x100000) | (w & 0xff000) | ((w >> 9u32) & 0x800) | ((w >> 20u32)
        & 0x7fe);
    if v & 0x100000 != 0 {
        (v | 0xffe00000u32) as i32
    } else {
        v as i32
    }
}

// ---------- executable field packers ----------

pub fn pack_r(f7: u32, rs2: u32, rs1: u32, f3: u32, rd: u32, op: u32) -> (w: u32)
    requires
        f7 < 128,
        rs2 < 32,
        rs1 < 32,
        f3 < 8,
        rd < 32,
        op < 128,
    ensures
        w == r_word(f7, rs2, rs1, f3, rd, op),
{
    (f7 << 25u32) | (rs2 << 20u32) | (rs1 << 15u32) | (f3 << 12u32) | (rd << 7u32) | op
}

pub fn pack_i(imm: i32, rs1: u32, f3: u32, rd: u32, op: u32) -> (w: u32)
    ensures
        w == i_word(imm, rs1, f3, rd, op),
{
    ((imm as u32) << 20u32) | (rs1 << 15u32) | (f3 << 12u32) | (rd << 7u32) | op
}

pub fn pack_s(imm: i32, rs2: u32, rs1: u32, f3: u32, op: u32) -> (w: u32)
    ensures
        w == s_word(imm, rs2, rs1, f3, op),
{
    (((imm as u32) & 0xfe0) << 20u32) | (rs2 << 20u32) | (rs1 << 15u32) | (f3 << 12u32) | (((
    imm as u32) & 0x1f) << 7u32) | op
}

pub fn pack_b(imm: i32, rs2: u32, rs1: u32, f3: u32, op: u32) -> (w: u32)
    ensures
        w == b_word(imm, rs2, rs1, f3, op),
{
    let u = imm as u32;
    (((u >> 12u32) & 1) << 31u32) | (((u >> 5u32) & 0x3f) << 25u32) | (rs2 << 20u32) | (rs1
        << 15u32) | (f3 << 12u32) | (((u >> 1u32) & 0xf) << 8u32) | (((u >> 11u32) & 1) << 7u32)
        | op
}

pub fn pack_u(imm: i32, rd: u32, op: u32) -> (w: u32)
    ensures
        w == u_word(imm, rd, op),
{
    ((imm as u32) & 0xfffff000u32) | (rd << 7u32) | op
}

pub fn pack_j(imm: i32, rd: u32, op: u32) -> (w: u32)
    ensures
        w == j_word(imm, rd, op),
{
    let u = imm as u32;
    (((u >> 20u32) & 1) << 31u32) | (((u >> 1u32) & 0x3ff) << 21u32) | (((u >> 11u32) & 1)
        << 20u32) | (((u >> 12u32) & 0xff) << 12u32) | (rd << 7u32) | op
}

// ---------- packing then reading gives the fields back ----------

pub proof fn lemma_r_fields(f7: u32, rs2: u32, rs1: u32, f3: u32, rd: u32, op: u32)
    requires
        f7 < 128,
        rs2 < 32,
        rs1 < 32,
        f3 < 8,
        rd < 32,
        op < 128,
    ensures
        ({
            let w = r_word(f7, rs2, rs1, f3, rd, op);
            &&& opcode(w) == op
            &&& rd_field(w) == rd
            &&& funct3(w) == f3
            &&& rs1_field(w) == rs1
            &&& rs2_field(w) == rs2
            &&& funct7(w) == f7
        }),
{
    assert({
        let w = r_word(f7, rs2, rs1, f3, rd, op);
        &&& w & 0x7f == op
        &&& (w >> 7u32) & 0x1f == rd
        &&& (w >> 12u32) & 0x7 == f3
        &&& (w >> 15u32) & 0x1f == rs1
        &&& (w >> 20u32) & 0x1f == rs2
        &&& w >> 25u32 == f7
    }) by (bit_vector)
        requires
            f7 < 128,
            rs2 < 32,
            rs1 < 32,
            f3 < 8,
            rd < 32,
            op < 128,
    ;
}

pub proof fn lemma_i_fields(imm: i32, rs1: u32, f3: u32, rd: u32, op: u32)
    requires
        -2048 <= imm <= 2047,
        rs1 < 32,
        f3 < 8,
        rd < 32,
        op < 128,
    ensures
        ({
            let w = i_word(imm, rs1, f3, rd, op);
            &&& opcode(w) == op
            &&& rd_field(w) == rd
            &&& funct3(w) == f3
            &&& rs1_field(w) == rs1
            &&& imm_i(w) == imm
        }),
{
    assert({
        let w = i_word(imm, rs1, f3, rd, op);
        &&& w & 0x7f == op
        &&& (w >> 7u32) & 0x1f == rd
        &&& (w >> 12u32) & 0x7 == f3
        &&& (w >> 15u32) & 0x1f == rs1
        &&& sext12(w >> 20u32) == imm
    }) by (bit_vector)
        requires
            -2048 <= imm <= 2047,
            rs1 < 32,
            f3 < 8,
            rd < 32,
            op < 128,
    ;
}

pub proof fn lemma_s_fields(imm: i32, rs2: u32, rs1: u32, f3: u32, op: u32)
    requires
        -2048 <= imm <= 2047,
        rs2 < 32,
        rs1 < 32,
        f3 < 8,
        op < 128,
    ensures
        ({
            let w = s_word(imm, rs2, rs1, f3, op);
            &&& opcode(w) == op
            &&& funct3(w) == f3
            &&& rs1_field(w) == rs1
            &&& rs2_field(w) == rs2
            &&& imm_s(w) == imm
        }),
{
    assert({
        let w = s_word(imm, rs2, rs1, f3, op);
        &&& w & 0x7f == op
        &&& (w >> 12u32) & 0x7 == f3
        &&& (w >> 15u32) & 0x1f == rs1
        &&& (w >> 20u32) & 0x1f == rs2
        &&& sext12(((w >> 20u32) & 0xfe0) | ((w >> 7u32) & 0x1f)) == imm
    }) by (bit_vector)
        requires
            -2048 <= imm <= 2047,
            rs2 < 32,
            rs1 < 32,
            f3 < 8,
            op < 128,
    ;
}

pub proof fn lemma_b_fields(imm: i32, rs2: u32, rs1: u32, f3: u32, op: u32)
    requires
        -4096 <= imm <= 4094,
        imm % 2 == 0,
        rs2 < 32,
        rs1 < 32,
        f3 < 8,
        op < 128,
    ensures
        ({
            let w = b_word(imm, rs2, rs1, f3, op);
            &&& opcode(w) == op
            &&& funct3(w) == f3
            &&& rs1_field(w) == rs1
            &&& rs2_field(w) == rs2
            &&& imm_b(w) == imm
        }),
{
    assert({
        let w = b_word(imm, rs2, rs1, f3, op);
        &&& w & 0x7f == op
        &&& (w >> 12u32) & 0x7 == f3
        &&& (w >> 15u32) & 0x1f == rs1
        &&& (w >> 20u32) & 0x1f == rs2
        &&& sext13(
            ((w >> 19u32) & 0x1000) | ((w << 4u32) & 0x800) | ((w >> 20u32) & 0x7e0) | ((w
                >> 7u32) & 0x1e),
        ) == imm
    }) by (bit_vector)
        requires
            -4096 <= imm <= 4094,
            imm % 2 == 0,
            rs2 < 32,
            rs1 < 32,
            f3 < 8,
            op < 128,
    ;
}

pub proof fn lemma_u_fields(imm: i32, rd: u32, op: u32)
    requires
        imm & 0xfff == 0,
        rd < 32,
        op < 128,
    ensures
        ({
            let w = u_word(imm, rd, op);
            &&& opcode(w) == op
            &&& rd_field(w) == rd
            &&& imm_u(w) == imm
        }),
{
    assert({
        let w = u_word(imm, rd, op);
        &&& w & 0x7f == op
        &&& (w >> 7u32) & 0x1f == rd
        &&& (w & 0xfffff000u32) as i32 == imm
    }) by (bit_vector)
        requires
            imm & 0xfff == 0,
            rd < 32,
            op < 128,
    ;
}

pub proof fn lemma_j_fields(imm: i32, rd: u32, op: u32)
    requires
        -1048576 <= imm <= 1048574,
        imm % 2 == 0,
        rd < 32,
        op < 128,
    ensures
        ({
            let w = j_word(imm, rd, op);
            &&& opcode(w) == op
            &&& rd_field(w) == rd
            &&& imm_j(w) == imm
        }),
{
    assert({
        let w = j_word(imm, rd, op);
        &&& w & 0x7f == op
        &&& (w >> 7u32) & 0x1f == rd
        &&& sext21(
            ((w >> 11u32) & 0x100000) | (w & 0xff000) | ((w >> 9u32) & 0x800) | ((w >> 20u32)
                & 0x7fe),
        ) == imm
    }) by (bit_vector)
        requires
            -1048576 <= imm <= 1048574,
            imm % 2 == 0,
            rd < 32,
            op < 128,
    ;
}

// ---------- reading then packing gives the word back ----------

pub proof fn lemma_r_word_of_fields(w: u32)
    ensures
        r_word(funct7(w), rs2_field(w), rs1_field(w), funct3(w), rd_field(w), opcode(w)) == w,
        funct7(w) < 128,
        rs2_field(w) < 32,
        rs1_field(w) < 32,
        funct3(w) < 8,
        rd_field(w) < 32,
{
    assert(r_word(w >> 25u32, (w >> 20u32) & 0x1f, (w >> 15u32) & 0x1f, (w >> 12u32) & 0x7, (w
        >> 7u32) & 0x1f, w & 0x7f) == w && w >> 25u32 < 128 && (w >> 20u32) & 0x1f < 32 && (w
        >> 15u32) & 0x1f < 32 && (w >> 12u32) & 0x7 < 8 && (w >> 7u32) & 0x1f < 32)
        by (bit_vector);
}

pub proof fn lemma_i_word_of_fields(w: u32)
    ensures
        i_word(imm_i(w), rs1_field(w), funct3(w), rd_field(w), opcode(w)) == w,
        -2048 <= imm_i(w) <= 2047,
{
    assert(i_word(sext12(w >> 20u32), (w >> 15u32) & 0x1f, (w >> 12u32) & 0x7, (w >> 7u32)
        & 0x1f, w & 0x7f) == w && -2048 <= sext12(w >> 20u32) <= 2047) by (bit_vector);
}

pub proof fn lemma_s_word_of_fields(w: u32)
    ensures
        s_word(imm_s(w), rs2_field(w), rs1_field(w), funct3(w), opcode(w)) == w,
        -2048 <= imm_s(w) <= 2047,
{
    assert(s_word(
        sext12(((w >> 20u32) & 0xfe0) | ((w >> 7u32) & 0x1f)),
        (w >> 20u32) & 0x1f,
        (w >> 15u32) & 0x1f,
        (w >> 12u32) & 0x7,
        w & 0x7f,
    ) == w && -2048 <= sext12(((w >> 20u32) & 0xfe0) | ((w >> 7u32) & 0x1f)) <= 2047)
        by (bit_vector);
}

pub proof fn lemma_b_word_of_fields(w: u32)
    ensures
        b_word(imm_b(w), rs2_field(w), rs1_field(w), funct3(w), opcode(w)) == w,
        -4096 <= imm_b(w) <= 4094,
        imm_b(w) % 2 == 0,
{
    let v = ((w >> 19u32) & 0x1000) | ((w << 4u32) & 0x800) | ((w >> 20u32) & 0x7e0) | ((w
        >> 7u32) & 0x1e);
    assert(b_word(sext13(v), (w >> 20u32) & 0x1f, (w >> 15u32) & 0x1f, (w >> 12u32) & 0x7, w
        & 0x7f) == w && -4096 <= sext13(v) <= 4094 && sext13(v) % 2 == 0) by (bit_vector)
        requires
            v == ((w >> 19u32) & 0x1000) | ((w << 4u32) & 0x800) | ((w >> 20u32) & 0x7e0) | ((w
                >> 7u32) & 0x1e),
    ;
}

pub proof fn lemma_u_word_of_fields(w: u32)
    ensures
        u_word(imm_u(w), rd_field(w), opcode(w)) == w,
        imm_u(w) & 0xfff == 0,
{
    assert(u_word((w & 0xfffff000u32) as i32, (w >> 7u32) & 0x1f, w & 0x7f) == w && ((w
        & 0xfffff000u32) as i32) & 0xfff == 0) by (bit_vector);
}

pub proof fn lemma_j_word_of_fields(w: u32)
    ensures
        j_word(imm_j(w), rd_field(w), opcode(w)) == w,
        -1048576 <= imm_j(w) <= 1048574,
        imm_j(w) % 2 == 0,
{
    let v = ((w >> 11u32) & 0x100000) | (w & 0xff000) | ((w >> 9u32) & 0x800) | ((w >> 20u32)
        & 0x7fe);
    assert(j_word(sext21(v), (w >> 7u32) & 0x1f, w & 0x7f) == w && -1048576 <= sext21(v)
        <= 1048574 && sext21(v) % 2 == 0) by (bit_vector)
        requires
            v == ((w >> 11u32) & 0x100000) | (w & 0xff000) | ((w >> 9u32) & 0x800) | ((w
                >> 20u32) & 0x7fe),
    ;
}

} // verus!
