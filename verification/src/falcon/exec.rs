//! The fetch-decode-execute step of the emulator, and running a program for
//! a bounded number of steps.
use vstd::prelude::*;
use crate::falcon::decoder::{self, decode};
use crate::falcon::encoder;
use crate::falcon::errors::FalconError;
use crate::falcon::instruction::Instruction;
use crate::falcon::machine::{self, Machine};
use crate::falcon::memory::{self, Bus};
use crate::falcon::registers::{self, Cpu};
use crate::falcon::syscall::{self, handle_syscall};
use crate::text::{self, chars_of, push_hex8, string_of};
use crate::ui::console::Console;

verus! {

// ---------- arithmetic ----------

/// Quotient of `a` by `b` rounded toward zero.
pub open spec fn trunc_div(a: int, b: int) -> int {
    let q = (if a >= 0 {
        a
    } else {
        -a
    }) / (if b >= 0 {
        b
    } else {
        -b
    });
    if (a < 0) != (b < 0) {
        -q
    } else {
        q
    }
}

/// Remainder of `a` by `b` that goes with [`trunc_div`].
pub open spec fn trunc_rem(a: int, b: int) -> int {
    a - b * trunc_div(a, b)
}

/// `DIV`: signed quotient; the overflowing `MIN / -1` gives `MIN`.
pub open spec fn div_signed(a: u32, b: u32) -> u32 {
    let n = a as i32;
    let d = b as i32;
    if n == i32::MIN && d == -1 {
        a
    } else {
        (trunc_div(n as int, d as int) as i32) as u32
    }
}

/// `REM`: signed remainder; the overflowing `MIN % -1` gives 0.
pub open spec fn rem_signed(a: u32, b: u32) -> u32 {
    let n = a as i32;
    let d = b as i32;
    if n == i32::MIN && d == -1 {
        0
    } else {
        (trunc_rem(n as int, d as int) as i32) as u32
    }
}

/// `MULH`: upper 32 bits of the 64-bit product of two signed words.
pub open spec fn mulh(a: u32, b: u32) -> u32 {
    ((((a as i32) as int * (b as i32) as int) as i64) >> 32u64) as u32
}

/// `MULHSU`: upper 32 bits of the 64-bit product of a signed and an unsigned word.
pub open spec fn mulhsu(a: u32, b: u32) -> u32 {
    ((((a as i32) as int * b as int) as i64) >> 32u64) as u32
}

/// `MULHU`: upper 32 bits of the 64-bit product of two unsigned words.
pub open spec fn mulhu(a: u32, b: u32) -> u32 {
    (((a as int * b as int) as u64) >> 32u64) as u32
}

fn div_rem_signed(a: u32, b: u32) -> (r: (u32, u32))
    requires
        b != 0,
    ensures
        r.0 == div_signed(a, b),
        r.1 == rem_signed(a, b),
{
    let n = a as i32;
    let d = b as i32;
    if n == i32::MIN && d == -1 {
        return (a, 0);
    }
    assert(d != 0) by (bit_vector)
        requires
            b != 0,
            d == b as i32,
    ;
    let aa: u64 = if n < 0 {
        (-(n as i64)) as u64
    } else {
        n as u64
    };
    let bb: u64 = if d < 0 {
        (-(d as i64)) as u64
    } else {
        d as u64
    };
    let q = aa / bb;
    let rr = aa % bb;
    assert(q <= aa && (bb >= 2 ==> q < 0x8000_0000) && rr < bb && aa == bb * q + rr)
        by (nonlinear_arith)
        requires
            bb >= 1,
            aa <= 0x8000_0000,
            q == aa / bb,
            rr == aa % bb,
    ;
    let qs: i64 = if (n < 0) != (d < 0) {
        -(q as i64)
    } else {
        q as i64
    };
    let rs: i64 = if n < 0 {
        -(rr as i64)
    } else {
        rr as i64
    };
    assert(qs == trunc_div(n as int, d as int));
    assert(rs == trunc_rem(n as int, d as int)) by (nonlinear_arith)
        requires
            qs == trunc_div(n as int, d as int),
            aa == bb * q + rr,
            aa == (if n >= 0 {
                n as int
            } else {
                -n
            }),
            bb == (if d >= 0 {
                d as int
            } else {
                -d
            }),
            qs == (if (n < 0) != (d < 0) {
                -q
            } else {
                q as int
            }),
            rs == (if n < 0 {
                -rr
            } else {
                rr as int
            }),
    ;
    ((qs as i32) as u32, (rs as i32) as u32)
}

fn mul_high(a: u32, b: u32) -> (r: u32)
    ensures
        r == mulh(a, b),
{
    let x = a as i32 as i64;
    let y = b as i32 as i64;
    assert(-0x4000_0000_0000_0000 <= x * y <= 0x4000_0000_0000_0000) by (nonlinear_arith)
        requires
            -0x8000_0000 <= x < 0x8000_0000,
            -0x8000_0000 <= y < 0x8000_0000,
    ;
    let p = x * y;
    (p >> 32u64) as u32
}

fn mul_high_su(a: u32, b: u32) -> (r: u32)
    ensures
        r == mulhsu(a, b),
{
    let x = a as i32 as i64;
    let y = b as i64;
    assert(-0x4000_0000_0000_0000 - 0x4000_0000_0000_0000 <= x * y < 0x4000_0000_0000_0000
        + 0x4000_0000_0000_0000) by (nonlinear_arith)
        requires
            -0x8000_0000 <= x < 0x8000_0000,
            0 <= y < 0x1_0000_0000,
    ;
    let p = x * y;
    (p >> 32u64) as u32
}

fn mul_high_u(a: u32, b: u32) -> (r: u32)
    ensures
        r == mulhu(a, b),
{
    let x = a as u64;
    let y = b as u64;
    assert(x * y <= 0xffff_ffff_ffff_ffff) by (nonlinear_arith)
        requires
            x < 0x1_0000_0000,
            y < 0x1_0000_0000,
    ;
    let p = x * y;
    (p >> 32u64) as u32
}

proof fn lemma_wrap_add_signed(a: u32, imm: i32)
    ensures
        a.wrapping_add_signed(imm) == machine::wrap32(a + imm),
{
}

proof fn lemma_wrap_add(a: u32, b: u32)
    ensures
        a.wrapping_add(b) == machine::wrap32(a + b),
        a.wrapping_sub(b) == machine::wrap32(a - b),
        a.wrapping_mul(b) == machine::wrap32(a * b),
{
    assert(a * b >= 0) by (nonlinear_arith);
}


// ---------- the step, as a function on machines ----------

/// Value of register `r` in `m`.
pub open spec fn rv(m: Machine, r: u8) -> u32 {
    registers::reg_value(m.x, r as int)
}

/// `m` with `v` written to register `rd`; the step goes on.
pub open spec fn set_reg(m: Machine, rd: u8, v: u32) -> (Machine, bool) {
    (Machine { x: registers::reg_write(m.x, rd as int, v), ..m }, true)
}

/// `m` with the program counter set to `pc`; the step goes on.
pub open spec fn jump(m: Machine, pc: u32) -> (Machine, bool) {
    (Machine { pc, ..m }, true)
}

/// The console text shown for a memory fault.
pub open spec fn fault_text(e: FalconError) -> Seq<char> {
    match e {
        FalconError::OutOfBounds { addr, size } => "Memory access out of bounds at 0x"@ + text::hex8(
            addr,
        ),
    }
}

/// `m` with the fault `e` shown; the step stops.
pub open spec fn fault(m: Machine, e: FalconError) -> (Machine, bool) {
    (machine::with_line(m, fault_text(e)), false)
}

/// `m` with `msg` shown; the step stops.
pub open spec fn stop(m: Machine, msg: Seq<char>) -> (Machine, bool) {
    (machine::with_line(m, msg), false)
}

/// Address `rs1 + imm`, wrapping around.
pub open spec fn address(m: Machine, rs1: u8, imm: i32) -> u32 {
    machine::wrap32(rv(m, rs1) + imm)
}

/// Register write of a load of the value `r` (or its fault).
pub open spec fn load_into<T>(m: Machine, rd: u8, r: Result<T, FalconError>, f: spec_fn(T) -> u32) -> (
    Machine,
    bool,
) {
    match r {
        Ok(v) => set_reg(m, rd, f(v)),
        Err(e) => fault(m, e),
    }
}

/// Memory after a store of `bs` at `a` (or the fault).
pub open spec fn store_into(m: Machine, a: u32, bs: Seq<u8>) -> (Machine, bool) {
    match memory::store_spec(m.mem, a, bs) {
        Ok(mem) => (Machine { mem, ..m }, true),
        Err(e) => fault(m, e),
    }
}

/// Branch to `pc + imm` when `taken`, else fall through.
pub open spec fn branch(m: Machine, pc: u32, taken: bool, imm: i32) -> (Machine, bool) {
    if taken {
        jump(m, machine::wrap32(pc + imm))
    } else {
        (m, true)
    }
}

/// A division whose divisor is zero stops with a message.
pub open spec fn divide(m: Machine, rd: u8, d: u32, v: u32) -> (Machine, bool) {
    if d == 0 {
        stop(m, "Division by zero"@)
    } else {
        set_reg(m, rd, v)
    }
}

/// Effect of an `ECALL` on `m`, whose program counter already points past it;
/// `pc` is the address of the `ECALL`.
pub open spec fn ecall(m: Machine, pc: u32) -> (Machine, bool) {
    let (m2, res) = syscall::syscall_effect(rv(m, 17), m);
    match res {
        Err(e) => fault(m2, e),
        Ok(cont) => if !cont && m2.reading {
            (Machine { pc, ..m2 }, false)
        } else {
            (m2, cont)
        },
    }
}

/// Executes instruction `i`, fetched from `pc`, on `m`, whose program counter
/// already points to the next instruction. Gives the machine after it and
/// whether execution goes on.
pub open spec fn execute(i: Instruction, m: Machine, pc: u32) -> (Machine, bool) {
    match i {
        Instruction::Add { rd, rs1, rs2 } => set_reg(m, rd, machine::wrap32(rv(m, rs1) + rv(m, rs2))),
        Instruction::Sub { rd, rs1, rs2 } => set_reg(m, rd, machine::wrap32(rv(m, rs1) - rv(m, rs2))),
        Instruction::And { rd, rs1, rs2 } => set_reg(m, rd, rv(m, rs1) & rv(m, rs2)),
        Instruction::Or { rd, rs1, rs2 } => set_reg(m, rd, rv(m, rs1) | rv(m, rs2)),
        Instruction::Xor { rd, rs1, rs2 } => set_reg(m, rd, rv(m, rs1) ^ rv(m, rs2)),
        Instruction::Sll { rd, rs1, rs2 } => set_reg(m, rd, rv(m, rs1) << (rv(m, rs2) & 0x1f)),
        Instruction::Srl { rd, rs1, rs2 } => set_reg(m, rd, rv(m, rs1) >> (rv(m, rs2) & 0x1f)),
        Instruction::Sra { rd, rs1, rs2 } => set_reg(
            m,
            rd,
            ((rv(m, rs1) as i32) >> (rv(m, rs2) & 0x1f)) as u32,
        ),
        Instruction::Slt { rd, rs1, rs2 } => set_reg(
            m,
            rd,
            if (rv(m, rs1) as i32) < (rv(m, rs2) as i32) {
                1
            } else {
                0
            },
        ),
        Instruction::Sltu { rd, rs1, rs2 } => set_reg(
            m,
            rd,
            if rv(m, rs1) < rv(m, rs2) {
                1
            } else {
                0
            },
        ),
        Instruction::Mul { rd, rs1, rs2 } => set_reg(m, rd, machine::wrap32(rv(m, rs1) * rv(m, rs2))),
        Instruction::Mulh { rd, rs1, rs2 } => set_reg(m, rd, mulh(rv(m, rs1), rv(m, rs2))),
        Instruction::Mulhsu { rd, rs1, rs2 } => set_reg(m, rd, mulhsu(rv(m, rs1), rv(m, rs2))),
        Instruction::Mulhu { rd, rs1, rs2 } => set_reg(m, rd, mulhu(rv(m, rs1), rv(m, rs2))),
        Instruction::Div { rd, rs1, rs2 } => divide(
            m,
            rd,
            rv(m, rs2),
            div_signed(rv(m, rs1), rv(m, rs2)),
        ),
        Instruction::Divu { rd, rs1, rs2 } => divide(
            m,
            rd,
            rv(m, rs2),
            (rv(m, rs1) as int / rv(m, rs2) as int) as u32,
        ),
        Instruction::Rem { rd, rs1, rs2 } => divide(
            m,
            rd,
            rv(m, rs2),
            rem_signed(rv(m, rs1), rv(m, rs2)),
        ),
        Instruction::Remu { rd, rs1, rs2 } => divide(
            m,
            rd,
            rv(m, rs2),
            (rv(m, rs1) as int % rv(m, rs2) as int) as u32,
        ),
        Instruction::Addi { rd, rs1, imm } => set_reg(m, rd, machine::wrap32(rv(m, rs1) + imm)),
        Instruction::Andi { rd, rs1, imm } => set_reg(m, rd, rv(m, rs1) & (imm as u32)),
        Instruction::Ori { rd, rs1, imm } => set_reg(m, rd, rv(m, rs1) | (imm as u32)),
        Instruction::Xori { rd, rs1, imm } => set_reg(m, rd, rv(m, rs1) ^ (imm as u32)),
        Instruction::Slti { rd, rs1, imm } => set_reg(
            m,
            rd,
            if (rv(m, rs1) as i32) < imm {
                1
            } else {
                0
            },
        ),
        Instruction::Sltiu { rd, rs1, imm } => set_reg(
            m,
            rd,
            if rv(m, rs1) < (imm as u32) {
                1
            } else {
                0
            },
        ),
        Instruction::Slli { rd, rs1, shamt } => set_reg(m, rd, rv(m, rs1) << ((shamt as u32) & 0x1f)),
        Instruction::Srli { rd, rs1, shamt } => set_reg(m, rd, rv(m, rs1) >> ((shamt as u32) & 0x1f)),
        Instruction::Srai { rd, rs1, shamt } => set_reg(
            m,
            rd,
            ((rv(m, rs1) as i32) >> ((shamt as u32) & 0x1f)) as u32,
        ),
        Instruction::Lb { rd, rs1, imm } => load_into(
            m,
            rd,
            memory::load8_spec(m.mem, address(m, rs1, imm)),
            |v: u8| ((v as i8) as i32) as u32,
        ),
        Instruction::Lh { rd, rs1, imm } => load_into(
            m,
            rd,
            memory::load16_spec(m.mem, address(m, rs1, imm)),
            |v: u16| ((v as i16) as i32) as u32,
        ),
        Instruction::Lw { rd, rs1, imm } => load_into(
            m,
            rd,
            memory::load32_spec(m.mem, address(m, rs1, imm)),
            |v: u32| v,
        ),
        Instruction::Lbu { rd, rs1, imm } => load_into(
            m,
            rd,
            memory::load8_spec(m.mem, address(m, rs1, imm)),
            |v: u8| v as u32,
        ),
        Instruction::Lhu { rd, rs1, imm } => load_into(
            m,
            rd,
            memory::load16_spec(m.mem, address(m, rs1, imm)),
            |v: u16| v as u32,
        ),
        Instruction::Sb { rs2, rs1, imm } => store_into(
            m,
            address(m, rs1, imm),
            seq![rv(m, rs2) as u8],
        ),
        Instruction::Sh { rs2, rs1, imm } => store_into(
            m,
            address(m, rs1, imm),
            memory::le_bytes16(rv(m, rs2) as u16),
        ),
        Instruction::Sw { rs2, rs1, imm } => store_into(
            m,
            address(m, rs1, imm),
            memory::le_bytes32(rv(m, rs2)),
        ),
        Instruction::Beq { rs1, rs2, imm } => branch(m, pc, rv(m, rs1) == rv(m, rs2), imm),
        Instruction::Bne { rs1, rs2, imm } => branch(m, pc, rv(m, rs1) != rv(m, rs2), imm),
        Instruction::Blt { rs1, rs2, imm } => branch(
            m,
            pc,
            (rv(m, rs1) as i32) < (rv(m, rs2) as i32),
            imm,
        ),
        Instruction::Bge { rs1, rs2, imm } => branch(
            m,
            pc,
            (rv(m, rs1) as i32) >= (rv(m, rs2) as i32),
            imm,
        ),
        Instruction::Bltu { rs1, rs2, imm } => branch(m, pc, rv(m, rs1) < rv(m, rs2), imm),
        Instruction::Bgeu { rs1, rs2, imm } => branch(m, pc, rv(m, rs1) >= rv(m, rs2), imm),
        Instruction::Jal { rd, imm } => {
            let (m2, _) = set_reg(m, rd, machine::wrap32(pc + 4));
            jump(m2, machine::wrap32(pc + imm))
        },
        Instruction::Jalr { rd, rs1, imm } => {
            let target = address(m, rs1, imm) & !1u32;
            let (m2, _) = set_reg(m, rd, machine::wrap32(pc + 4));
            jump(m2, target)
        },
        Instruction::Lui { rd, imm } => set_reg(m, rd, imm as u32),
        Instruction::Auipc { rd, imm } => set_reg(m, rd, machine::wrap32(pc + imm)),
        Instruction::Ecall => ecall(m, pc),
        Instruction::Ebreak => (m, true),
        Instruction::Halt => stop(m, "HALT at 0x"@ + text::hex8(pc)),
    }
}

/// One fetch-decode-execute step on `m`: the machine after it and whether
/// execution goes on.
pub open spec fn step_effect(m: Machine) -> (Machine, bool) {
    let pc = m.pc;
    match memory::load32_spec(m.mem, pc) {
        Err(e) => fault(m, e),
        Ok(w) => match decoder::decoding(w) {
            None => stop(
                m,
                "Invalid instruction 0x"@ + text::hex8(w) + " at 0x"@ + text::hex8(pc),
            ),
            Some(i) => execute(i, Machine { pc: machine::wrap32(pc + 4), ..m }, pc),
        },
    }
}


// ---------- executing ----------

fn show_fault(console: &mut Console, e: FalconError)
    ensures
        crate::ui::console::texts(final(console).lines@) == crate::ui::console::texts(
            old(console).lines@,
        ).push(fault_text(e)),
        final(console).input@ == old(console).input@,
        final(console).reading == old(console).reading,
        final(console).scroll == old(console).scroll,
        final(console).current == old(console).current,
{
    let msg = fault_message(e);
    console.push_error(string_of(msg.as_slice()));
}

/// The text a memory fault is reported with.
pub fn fault_message(e: FalconError) -> (m: Vec<char>)
    ensures
        m@ == fault_text(e),
{
    match e {
        FalconError::OutOfBounds { addr, size: _ } => {
            let mut msg = chars_of("Memory access out of bounds at 0x");
            push_hex8(&mut msg, addr);
            msg
        },
    }
}

fn low5(b: u32) -> (r: u32)
    ensures
        r == b & 0x1f,
        r < 32,
{
    assert(b & 0x1f < 32) by (bit_vector);
    b & 0x1f
}

fn add_imm(a: u32, imm: i32) -> (r: u32)
    ensures
        r == machine::wrap32(a + imm),
{
    proof {
        lemma_wrap_add_signed(a, imm);
    }
    a.wrapping_add_signed(imm)
}

/// Executes a register-register instruction.
#[verifier::spinoff_prover]
#[verifier::rlimit(60)]
fn exec_register<B: Bus>(i: Instruction, pc: u32, cpu: &mut Cpu, mem: &mut B, console: &mut Console) -> (ok:
    bool)
    requires
        encoder::encodable(i),
        old(cpu).x@.len() == 32,
        i is Add || i is Sub || i is And || i is Or || i is Xor || i is Sll || i is Srl || i is Sra || i is Slt || i is Sltu || i is Mul || i is Mulh || i is Mulhsu || i is Mulhu || i is Div || i is Divu || i is Rem || i is Remu,
    ensures
        execute(i, machine::machine(old(cpu), old(mem), old(console)), pc) == (
            machine::machine(final(cpu), final(mem), final(console)),
            ok,
        ),
        final(cpu).x@.len() == 32,
        final(console).scroll == old(console).scroll,
        final(console).current == old(console).current,
{
    match i {
        Instruction::Add { rd, rs1, rs2 } => {
            proof {
                lemma_wrap_add(cpu.x@[rs1 as int], cpu.x@[rs2 as int]);
                lemma_wrap_add(0, cpu.x@[rs2 as int]);
                lemma_wrap_add(cpu.x@[rs1 as int], 0);
                lemma_wrap_add(0, 0);
            }
            let v = cpu.read(rs1).wrapping_add(cpu.read(rs2));
            cpu.write(rd, v);
        },
        Instruction::Sub { rd, rs1, rs2 } => {
            let a = cpu.read(rs1);
            let b = cpu.read(rs2);
            proof {
                lemma_wrap_add(a, b);
            }
            cpu.write(rd, a.wrapping_sub(b));
        },
        Instruction::And { rd, rs1, rs2 } => {
            let v = cpu.read(rs1) & cpu.read(rs2);
            cpu.write(rd, v);
        },
        Instruction::Or { rd, rs1, rs2 } => {
            let v = cpu.read(rs1) | cpu.read(rs2);
            cpu.write(rd, v);
        },
        Instruction::Xor { rd, rs1, rs2 } => {
            let v = cpu.read(rs1) ^ cpu.read(rs2);
            cpu.write(rd, v);
        },
        Instruction::Sll { rd, rs1, rs2 } => {
            let sh = low5(cpu.read(rs2));
            let v = cpu.read(rs1) << sh;
            cpu.write(rd, v);
        },
        Instruction::Srl { rd, rs1, rs2 } => {
            let sh = low5(cpu.read(rs2));
            let v = cpu.read(rs1) >> sh;
            cpu.write(rd, v);
        },
        Instruction::Sra { rd, rs1, rs2 } => {
            let s = low5(cpu.read(rs2));
            let v = ((cpu.read(rs1) as i32) >> s) as u32;
            cpu.write(rd, v);
        },
        Instruction::Slt { rd, rs1, rs2 } => {
            let v = if (cpu.read(rs1) as i32) < (cpu.read(rs2) as i32) {
                1
            } else {
                0
            };
            cpu.write(rd, v);
        },
        Instruction::Sltu { rd, rs1, rs2 } => {
            let v = if cpu.read(rs1) < cpu.read(rs2) {
                1
            } else {
                0
            };
            cpu.write(rd, v);
        },
        Instruction::Mul { rd, rs1, rs2 } => {
            let a = cpu.read(rs1);
            let b = cpu.read(rs2);
            proof {
                lemma_wrap_add(a, b);
            }
            cpu.write(rd, a.wrapping_mul(b));
        },
        Instruction::Mulh { rd, rs1, rs2 } => {
            let v = mul_high(cpu.read(rs1), cpu.read(rs2));
            cpu.write(rd, v);
        },
        Instruction::Mulhsu { rd, rs1, rs2 } => {
            let v = mul_high_su(cpu.read(rs1), cpu.read(rs2));
            cpu.write(rd, v);
        },
        Instruction::Mulhu { rd, rs1, rs2 } => {
            let v = mul_high_u(cpu.read(rs1), cpu.read(rs2));
            cpu.write(rd, v);
        },
        Instruction::Div { rd, rs1, rs2 } => {
            let den = cpu.read(rs2);
            if den == 0 {
                console.push_error(string_of(chars_of("Division by zero").as_slice()));
                return false;
            }
            let (q, _) = div_rem_signed(cpu.read(rs1), den);
            cpu.write(rd, q);
        },
        Instruction::Divu { rd, rs1, rs2 } => {
            let den = cpu.read(rs2);
            if den == 0 {
                console.push_error(string_of(chars_of("Division by zero").as_slice()));
                return false;
            }
            let v = cpu.read(rs1) / den;
            cpu.write(rd, v);
        },
        Instruction::Rem { rd, rs1, rs2 } => {
            let den = cpu.read(rs2);
            if den == 0 {
                console.push_error(string_of(chars_of("Division by zero").as_slice()));
                return false;
            }
            let (_, r) = div_rem_signed(cpu.read(rs1), den);
            cpu.write(rd, r);
        },
        Instruction::Remu { rd, rs1, rs2 } => {
            let den = cpu.read(rs2);
            if den == 0 {
                console.push_error(string_of(chars_of("Division by zero").as_slice()));
                return false;
            }
            let v = cpu.read(rs1) % den;
            cpu.write(rd, v);
        },
        _ => {},
    }
    true
}

/// Executes a register-immediate or upper-immediate instruction.
#[verifier::spinoff_prover]
#[verifier::rlimit(60)]
fn exec_immediate<B: Bus>(i: Instruction, pc: u32, cpu: &mut Cpu, mem: &mut B, console: &mut Console) -> (ok:
    bool)
    requires
        encoder::encodable(i),
        old(cpu).x@.len() == 32,
        i is Addi || i is Andi || i is Ori || i is Xori || i is Slti || i is Sltiu || i is Slli || i is Srli || i is Srai || i is Lui || i is Auipc,
    ensures
        execute(i, machine::machine(old(cpu), old(mem), old(console)), pc) == (
            machine::machine(final(cpu), final(mem), final(console)),
            ok,
        ),
        final(cpu).x@.len() == 32,
        final(console).scroll == old(console).scroll,
        final(console).current == old(console).current,
{
    match i {
        Instruction::Addi { rd, rs1, imm } => {
            let v = add_imm(cpu.read(rs1), imm);
            cpu.write(rd, v);
        },
        Instruction::Andi { rd, rs1, imm } => {
            let v = cpu.read(rs1) & (imm as u32);
            cpu.write(rd, v);
        },
        Instruction::Ori { rd, rs1, imm } => {
            let v = cpu.read(rs1) | (imm as u32);
            cpu.write(rd, v);
        },
        Instruction::Xori { rd, rs1, imm } => {
            let v = cpu.read(rs1) ^ (imm as u32);
            cpu.write(rd, v);
        },
        Instruction::Slti { rd, rs1, imm } => {
            let v = if (cpu.read(rs1) as i32) < imm {
                1
            } else {
                0
            };
            cpu.write(rd, v);
        },
        Instruction::Sltiu { rd, rs1, imm } => {
            let v = if cpu.read(rs1) < (imm as u32) {
                1
            } else {
                0
            };
            cpu.write(rd, v);
        },
        Instruction::Slli { rd, rs1, shamt } => {
            let v = cpu.read(rs1) << low5(shamt as u32);
            cpu.write(rd, v);
        },
        Instruction::Srli { rd, rs1, shamt } => {
            let v = cpu.read(rs1) >> low5(shamt as u32);
            cpu.write(rd, v);
        },
        Instruction::Srai { rd, rs1, shamt } => {
            let v = ((cpu.read(rs1) as i32) >> low5(shamt as u32)) as u32;
            cpu.write(rd, v);
        },
        Instruction::Lui { rd, imm } => {
            cpu.write(rd, imm as u32);
        },
        Instruction::Auipc { rd, imm } => {
            let v = add_imm(pc, imm);
            cpu.write(rd, v);
        },
        _ => {},
    }
    true
}

/// Executes a load or a store.
#[verifier::spinoff_prover]
#[verifier::rlimit(60)]
fn exec_memory<B: Bus>(i: Instruction, pc: u32, cpu: &mut Cpu, mem: &mut B, console: &mut Console) -> (ok:
    bool)
    requires
        encoder::encodable(i),
        old(cpu).x@.len() == 32,
        i is Lb || i is Lh || i is Lw || i is Lbu || i is Lhu || i is Sb || i is Sh || i is Sw,
    ensures
        execute(i, machine::machine(old(cpu), old(mem), old(console)), pc) == (
            machine::machine(final(cpu), final(mem), final(console)),
            ok,
        ),
        final(cpu).x@.len() == 32,
        final(console).scroll == old(console).scroll,
        final(console).current == old(console).current,
{
    match i {
        Instruction::Lb { rd, rs1, imm } => {
            let a = add_imm(cpu.read(rs1), imm);
            match mem.load8(a) {
                Ok(v) => cpu.write(rd, ((v as i8) as i32) as u32),
                Err(e) => {
                    show_fault(console, e);
                    return false;
                },
            }
        },
        Instruction::Lh { rd, rs1, imm } => {
            let a = add_imm(cpu.read(rs1), imm);
            match mem.load16(a) {
                Ok(v) => cpu.write(rd, ((v as i16) as i32) as u32),
                Err(e) => {
                    show_fault(console, e);
                    return false;
                },
            }
        },
        Instruction::Lw { rd, rs1, imm } => {
            let a = add_imm(cpu.read(rs1), imm);
            match mem.load32(a) {
                Ok(v) => cpu.write(rd, v),
                Err(e) => {
                    show_fault(console, e);
                    return false;
                },
            }
        },
        Instruction::Lbu { rd, rs1, imm } => {
            let a = add_imm(cpu.read(rs1), imm);
            match mem.load8(a) {
                Ok(v) => cpu.write(rd, v as u32),
                Err(e) => {
                    show_fault(console, e);
                    return false;
                },
            }
        },
        Instruction::Lhu { rd, rs1, imm } => {
            let a = add_imm(cpu.read(rs1), imm);
            match mem.load16(a) {
                Ok(v) => cpu.write(rd, v as u32),
                Err(e) => {
                    show_fault(console, e);
                    return false;
                },
            }
        },
        Instruction::Sb { rs2, rs1, imm } => {
            let a = add_imm(cpu.read(rs1), imm);
            match mem.store8(a, cpu.read(rs2) as u8) {
                Ok(()) => {},
                Err(e) => {
                    show_fault(console, e);
                    return false;
                },
            }
        },
        Instruction::Sh { rs2, rs1, imm } => {
            let a = add_imm(cpu.read(rs1), imm);
            match mem.store16(a, cpu.read(rs2) as u16) {
                Ok(()) => {},
                Err(e) => {
                    show_fault(console, e);
                    return false;
                },
            }
        },
        Instruction::Sw { rs2, rs1, imm } => {
            let a = add_imm(cpu.read(rs1), imm);
            match mem.store32(a, cpu.read(rs2)) {
                Ok(()) => {},
                Err(e) => {
                    show_fault(console, e);
                    return false;
                },
            }
        },
        _ => {},
    }
    true
}

/// Whether `i` is a branch, a jump or a system instruction.
pub open spec fn is_control(i: Instruction) -> bool {
    i is Beq || i is Bne || i is Blt || i is Bge || i is Bltu || i is Bgeu || i is Jal || i is Jalr
        || i is Ecall || i is Ebreak || i is Halt
}

/// The program counter advances by four on every instruction that is not a
/// branch, a jump or a system instruction, whatever it computes (a memory
/// fault included).
pub proof fn lemma_step_advances_pc(m: Machine)
    requires
        memory::load32_spec(m.mem, m.pc) is Ok,
        decoder::decoding(memory::load32_spec(m.mem, m.pc)->Ok_0) is Some,
        !is_control(decoder::decoding(memory::load32_spec(m.mem, m.pc)->Ok_0)->Some_0),
    ensures
        step_effect(m).0.pc == machine::wrap32(m.pc + 4),
{
}

/// Executes a branch, a jump or a system instruction.
#[verifier::spinoff_prover]
#[verifier::rlimit(60)]
fn exec_control<B: Bus>(i: Instruction, pc: u32, cpu: &mut Cpu, mem: &mut B, console: &mut Console) -> (ok:
    bool)
    requires
        encoder::encodable(i),
        old(cpu).x@.len() == 32,
        is_control(i),
    ensures
        execute(i, machine::machine(old(cpu), old(mem), old(console)), pc) == (
            machine::machine(final(cpu), final(mem), final(console)),
            ok,
        ),
        final(cpu).x@.len() == 32,
        final(console).scroll == old(console).scroll,
        final(console).current == old(console).current,
{
    match i {
        Instruction::Beq { rs1, rs2, imm } => {
            if cpu.read(rs1) == cpu.read(rs2) {
                cpu.pc = add_imm(pc, imm);
            }
        },
        Instruction::Bne { rs1, rs2, imm } => {
            if cpu.read(rs1) != cpu.read(rs2) {
                cpu.pc = add_imm(pc, imm);
            }
        },
        Instruction::Blt { rs1, rs2, imm } => {
            if (cpu.read(rs1) as i32) < (cpu.read(rs2) as i32) {
                cpu.pc = add_imm(pc, imm);
            }
        },
        Instruction::Bge { rs1, rs2, imm } => {
            if (cpu.read(rs1) as i32) >= (cpu.read(rs2) as i32) {
                cpu.pc = add_imm(pc, imm);
            }
        },
        Instruction::Bltu { rs1, rs2, imm } => {
            if cpu.read(rs1) < cpu.read(rs2) {
                cpu.pc = add_imm(pc, imm);
            }
        },
        Instruction::Bgeu { rs1, rs2, imm } => {
            if cpu.read(rs1) >= cpu.read(rs2) {
                cpu.pc = add_imm(pc, imm);
            }
        },
        Instruction::Jal { rd, imm } => {
            proof {
                lemma_wrap_add(pc, 4);
            }
            cpu.write(rd, pc.wrapping_add(4));
            cpu.pc = add_imm(pc, imm);
        },
        Instruction::Jalr { rd, rs1, imm } => {
            let target = add_imm(cpu.read(rs1), imm) & !1u32;
            proof {
                lemma_wrap_add(pc, 4);
            }
            cpu.write(rd, pc.wrapping_add(4));
            cpu.pc = target;
        },
        Instruction::Ecall => {
            let code = cpu.read(17);
            match handle_syscall(code, cpu, mem, console) {
                Err(e) => {
                    show_fault(console, e);
                    return false;
                },
                Ok(cont) => {
                    if !cont && console.reading {
                        cpu.pc = pc;
                        return false;
                    }
                    return cont;
                },
            }
        },
        Instruction::Ebreak => {},
        Instruction::Halt => {
            let mut msg = chars_of("HALT at 0x");
            push_hex8(&mut msg, pc);
            console.push_error(string_of(msg.as_slice()));
            return false;
        },
        _ => {},
    }
    true
}

/// Executes `i`, fetched from `pc`; the program counter already points past it.
fn execute_instr<B: Bus>(i: Instruction, pc: u32, cpu: &mut Cpu, mem: &mut B, console: &mut Console) -> (ok:
    bool)
    requires
        encoder::encodable(i),
        old(cpu).x@.len() == 32,
    ensures
        execute(i, machine::machine(old(cpu), old(mem), old(console)), pc) == (
            machine::machine(final(cpu), final(mem), final(console)),
            ok,
        ),
        final(cpu).x@.len() == 32,
        final(console).scroll == old(console).scroll,
        final(console).current == old(console).current,
{
    match i {
        Instruction::Add { .. } | Instruction::Sub { .. } | Instruction::And { .. }
        | Instruction::Or { .. } | Instruction::Xor { .. } | Instruction::Sll { .. }
        | Instruction::Srl { .. } | Instruction::Sra { .. } | Instruction::Slt { .. }
        | Instruction::Sltu { .. } | Instruction::Mul { .. } | Instruction::Mulh { .. }
        | Instruction::Mulhsu { .. } | Instruction::Mulhu { .. } | Instruction::Div { .. }
        | Instruction::Divu { .. } | Instruction::Rem { .. } | Instruction::Remu { .. } => {
            exec_register(i, pc, cpu, mem, console)
        },
        Instruction::Addi { .. } | Instruction::Andi { .. } | Instruction::Ori { .. }
        | Instruction::Xori { .. } | Instruction::Slti { .. } | Instruction::Sltiu { .. }
        | Instruction::Slli { .. } | Instruction::Srli { .. } | Instruction::Srai { .. }
        | Instruction::Lui { .. } | Instruction::Auipc { .. } => {
            exec_immediate(i, pc, cpu, mem, console)
        },
        Instruction::Lb { .. } | Instruction::Lh { .. } | Instruction::Lw { .. }
        | Instruction::Lbu { .. } | Instruction::Lhu { .. } | Instruction::Sb { .. }
        | Instruction::Sh { .. } | Instruction::Sw { .. } => exec_memory(i, pc, cpu, mem, console),
        _ => exec_control(i, pc, cpu, mem, console),
    }
}

/// Fetches, decodes and executes one instruction.
///
/// Returns `false` when execution must stop: on `HALT`, on an invalid
/// instruction, a division by zero, a memory fault, an unknown system call,
/// or a read system call with no input queued (then the program counter
/// stays on the `ECALL`, so the step can be taken again once input arrives).
pub fn step<B: Bus>(cpu: &mut Cpu, mem: &mut B, console: &mut Console) -> (ok: bool)
    requires
        old(cpu).x@.len() == 32,
    ensures
        step_effect(machine::machine(old(cpu), old(mem), old(console))) == (
            machine::machine(final(cpu), final(mem), final(console)),
            ok,
        ),
        final(cpu).x@.len() == 32,
        final(console).scroll == old(console).scroll,
        final(console).current == old(console).current,
{
    let pc = cpu.pc;
    let word = match mem.load32(pc) {
        Ok(w) => w,
        Err(e) => {
            show_fault(console, e);
            return false;
        },
    };
    let instr = match decode(word) {
        Ok(i) => i,
        Err(_) => {
            let mut msg = chars_of("Invalid instruction 0x");
            push_hex8(&mut msg, word);
            let at = chars_of(" at 0x");
            let mut k: usize = 0;
            while k < at.len()
                invariant
                    k <= at@.len(),
                    msg@ == "Invalid instruction 0x"@ + text::hex8(word) + at@.subrange(0, k as int),
                decreases at@.len() - k,
            {
                msg.push(at[k]);
                k += 1;
                assert(msg@ =~= "Invalid instruction 0x"@ + text::hex8(word) + at@.subrange(0, k as int));
            }
            assert(at@.subrange(0, k as int) =~= at@);
            push_hex8(&mut msg, pc);
            console.push_error(string_of(msg.as_slice()));
            return false;
        },
    };
    proof {
        decoder::lemma_encode_decode(word);
        lemma_wrap_add(pc, 4);
    }
    cpu.pc = pc.wrapping_add(4);
    execute_instr(instr, pc, cpu, mem, console)
}

/// Running `m` for at most `n` steps: the machine at the end and the
/// number of steps that went on. A step that stops execution is taken but
/// not counted.
pub open spec fn run_effect(m: Machine, n: nat) -> (Machine, nat)
    decreases n,
{
    if n == 0 {
        (m, 0)
    } else {
        let (m2, ok) = step_effect(m);
        if !ok {
            (m2, 0)
        } else {
            let (m3, k) = run_effect(m2, (n - 1) as nat);
            (m3, k + 1)
        }
    }
}

/// Where a conditional branch fetched from `m.pc` leaves the machine: the
/// program counter at `pc + imm` (wrapping) when the branch is taken, else at
/// the next instruction, `pc + 4`; nothing else changes and execution goes on.
pub open spec fn after_branch(m: Machine, imm: i32, taken: bool) -> (Machine, bool) {
    (
        Machine {
            pc: if taken {
                machine::wrap32(m.pc + imm)
            } else {
                machine::wrap32(m.pc + 4)
            },
            ..m
        },
        true,
    )
}

/// A step on a conditional branch compares the two source registers, `x0`
/// reading as zero: `beq` branches when they are equal, `bne` when they
/// differ, `blt` and `bge` when the first is less, or greater or equal, as
/// two's-complement numbers, and `bltu` and `bgeu` likewise as unsigned
/// numbers. Equal values take `bge` and `bgeu` and never `blt` or `bltu`.
pub proof fn lemma_branch_step(m: Machine, w: u32)
    requires
        memory::load32_spec(m.mem, m.pc) == Ok::<u32, FalconError>(w),
        decoder::decoding(w) is Some,
    ensures
        ({
            let a = |r: u8| registers::reg_value(m.x, r as int);
            match decoder::decoding(w)->0 {
                Instruction::Beq { rs1, rs2, imm } => step_effect(m) == after_branch(
                    m,
                    imm,
                    a(rs1) == a(rs2),
                ),
                Instruction::Bne { rs1, rs2, imm } => step_effect(m) == after_branch(
                    m,
                    imm,
                    a(rs1) != a(rs2),
                ),
                Instruction::Blt { rs1, rs2, imm } => step_effect(m) == after_branch(
                    m,
                    imm,
                    machine::signed32(a(rs1)) < machine::signed32(a(rs2)),
                ),
                Instruction::Bge { rs1, rs2, imm } => step_effect(m) == after_branch(
                    m,
                    imm,
                    machine::signed32(a(rs1)) >= machine::signed32(a(rs2)),
                ),
                Instruction::Bltu { rs1, rs2, imm } => step_effect(m) == after_branch(
                    m,
                    imm,
                    (a(rs1) as int) < (a(rs2) as int),
                ),
                Instruction::Bgeu { rs1, rs2, imm } => step_effect(m) == after_branch(
                    m,
                    imm,
                    (a(rs1) as int) >= (a(rs2) as int),
                ),
                _ => true,
            }
        }),
{
    let i = decoder::decoding(w)->0;
    match i {
        Instruction::Blt { rs1, rs2, imm } => {
            machine::lemma_as_i32(registers::reg_value(m.x, rs1 as int));
            machine::lemma_as_i32(registers::reg_value(m.x, rs2 as int));
        },
        Instruction::Bge { rs1, rs2, imm } => {
            machine::lemma_as_i32(registers::reg_value(m.x, rs1 as int));
            machine::lemma_as_i32(registers::reg_value(m.x, rs2 as int));
        },
        _ => {},
    }
}

/// Where an instruction fetched from `m.pc` that writes `v` to register `rd`
/// leaves the machine: `rd` holds `v` (writes to `x0` are dropped), the
/// program counter moves to the next instruction, nothing else changes and
/// execution goes on.
pub open spec fn after_write(m: Machine, rd: u8, v: int) -> (Machine, bool) {
    (
        Machine {
            x: if rd == 0 {
                m.x
            } else {
                m.x.update(rd as int, v as u32)
            },
            pc: machine::wrap32(m.pc + 4),
            ..m
        },
        true,
    )
}

/// `1` when `b` holds, else `0`.
pub open spec fn flag(b: bool) -> int {
    if b {
        1
    } else {
        0
    }
}

/// Reading a 32-bit immediate as an unsigned word wraps it modulo 2^32.
proof fn lemma_imm_as_u32(imm: i32)
    ensures
        (imm as u32) as int == machine::wrap32(imm as int) as int,
{
    if imm >= 0 {
        assert(imm as u32 == imm) by (bit_vector)
            requires
                imm >= 0i32,
        ;
    } else {
        assert((imm as u32) as i64 == (imm as i64) + 0x1_0000_0000i64) by (bit_vector)
            requires
                imm < 0i32,
        ;
    }
}

/// A step on a register-register arithmetic instruction writes to `rd` the
/// result of its two sources, `x0` reading as zero, in the order written:
/// the sum or difference `rs1 - rs2` modulo 2^32, the product modulo 2^32,
/// and for `slt` and `sltu` 1 exactly when `rs1` is less than `rs2`, as
/// two's-complement or as unsigned numbers.
pub proof fn lemma_register_arithmetic_step(m: Machine, w: u32)
    requires
        memory::load32_spec(m.mem, m.pc) == Ok::<u32, FalconError>(w),
        decoder::decoding(w) is Some,
    ensures
        ({
            let a = |r: u8| registers::reg_value(m.x, r as int);
            match decoder::decoding(w)->0 {
                Instruction::Add { rd, rs1, rs2 } => step_effect(m) == after_write(
                    m,
                    rd,
                    (a(rs1) + a(rs2)) % 0x1_0000_0000,
                ),
                Instruction::Sub { rd, rs1, rs2 } => step_effect(m) == after_write(
                    m,
                    rd,
                    (a(rs1) - a(rs2)) % 0x1_0000_0000,
                ),
                Instruction::Mul { rd, rs1, rs2 } => step_effect(m) == after_write(
                    m,
                    rd,
                    (a(rs1) * a(rs2)) % 0x1_0000_0000,
                ),
                Instruction::Slt { rd, rs1, rs2 } => step_effect(m) == after_write(
                    m,
                    rd,
                    flag(machine::signed32(a(rs1)) < machine::signed32(a(rs2))),
                ),
                Instruction::Sltu { rd, rs1, rs2 } => step_effect(m) == after_write(
                    m,
                    rd,
                    flag((a(rs1) as int) < (a(rs2) as int)),
                ),
                _ => true,
            }
        }),
{
    let i = decoder::decoding(w)->0;
    match i {
        Instruction::Slt { rd, rs1, rs2 } => {
            machine::lemma_as_i32(registers::reg_value(m.x, rs1 as int));
            machine::lemma_as_i32(registers::reg_value(m.x, rs2 as int));
        },
        Instruction::Mul { rd, rs1, rs2 } => {
            let x = registers::reg_value(m.x, rs1 as int);
            let y = registers::reg_value(m.x, rs2 as int);
            assert(x * y >= 0) by (nonlinear_arith);
        },
        _ => {},
    }
}

/// A step on an unsigned division or remainder writes `rs1 / rs2` or
/// `rs1 % rs2` to `rd`; with a zero divisor it writes nothing, shows
/// `Division by zero` and stops. Signed division by zero stops the same way.
pub proof fn lemma_unsigned_division_step(m: Machine, w: u32)
    requires
        memory::load32_spec(m.mem, m.pc) == Ok::<u32, FalconError>(w),
        decoder::decoding(w) is Some,
    ensures
        ({
            let a = |r: u8| registers::reg_value(m.x, r as int);
            let stopped = (
                machine::with_line(
                    Machine { pc: machine::wrap32(m.pc + 4), ..m },
                    "Division by zero"@,
                ),
                false,
            );
            match decoder::decoding(w)->0 {
                Instruction::Divu { rd, rs1, rs2 } => step_effect(m) == if a(rs2) == 0 {
                    stopped
                } else {
                    after_write(m, rd, a(rs1) as int / a(rs2) as int)
                },
                Instruction::Remu { rd, rs1, rs2 } => step_effect(m) == if a(rs2) == 0 {
                    stopped
                } else {
                    after_write(m, rd, a(rs1) as int % a(rs2) as int)
                },
                Instruction::Div { rd, rs1, rs2 } => a(rs2) == 0 ==> step_effect(m) == stopped,
                Instruction::Rem { rd, rs1, rs2 } => a(rs2) == 0 ==> step_effect(m) == stopped,
                _ => true,
            }
        }),
{
    let i = decoder::decoding(w)->0;
    match i {
        Instruction::Divu { rd, rs1, rs2 } => {
            let x = registers::reg_value(m.x, rs1 as int);
            let y = registers::reg_value(m.x, rs2 as int);
            if y != 0 {
                assert(0 <= (x as int) / (y as int) <= x) by (nonlinear_arith)
                    requires
                        y > 0,
                ;
            }
        },
        Instruction::Remu { rd, rs1, rs2 } => {
            let x = registers::reg_value(m.x, rs1 as int);
            let y = registers::reg_value(m.x, rs2 as int);
            if y != 0 {
                assert(0 <= (x as int) % (y as int) < y) by (nonlinear_arith)
                    requires
                        y > 0,
                ;
            }
        },
        _ => {},
    }
}

/// A step on an arithmetic instruction with an immediate writes to `rd`:
/// `rs1 + imm` modulo 2^32 for `addi`, and for `slti` and `sltiu` 1 exactly
/// when `rs1` is less than the immediate, as two's-complement numbers or as
/// unsigned words (the immediate sign-extended to 32 bits). `lui` writes its
/// (already shifted) immediate and `auipc` adds it to its own address.
pub proof fn lemma_immediate_arithmetic_step(m: Machine, w: u32)
    requires
        memory::load32_spec(m.mem, m.pc) == Ok::<u32, FalconError>(w),
        decoder::decoding(w) is Some,
    ensures
        ({
            let a = |r: u8| registers::reg_value(m.x, r as int);
            match decoder::decoding(w)->0 {
                Instruction::Addi { rd, rs1, imm } => step_effect(m) == after_write(
                    m,
                    rd,
                    (a(rs1) + imm) % 0x1_0000_0000,
                ),
                Instruction::Slti { rd, rs1, imm } => step_effect(m) == after_write(
                    m,
                    rd,
                    flag(machine::signed32(a(rs1)) < imm),
                ),
                Instruction::Sltiu { rd, rs1, imm } => step_effect(m) == after_write(
                    m,
                    rd,
                    flag((a(rs1) as int) < (imm as int) % 0x1_0000_0000),
                ),
                Instruction::Lui { rd, imm } => step_effect(m) == after_write(
                    m,
                    rd,
                    (imm as int) % 0x1_0000_0000,
                ),
                Instruction::Auipc { rd, imm } => step_effect(m) == after_write(
                    m,
                    rd,
                    (m.pc + imm) % 0x1_0000_0000,
                ),
                _ => true,
            }
        }),
{
    let i = decoder::decoding(w)->0;
    match i {
        Instruction::Slti { rd, rs1, imm } => {
            machine::lemma_as_i32(registers::reg_value(m.x, rs1 as int));
        },
        Instruction::Sltiu { rd, rs1, imm } => {
            lemma_imm_as_u32(imm);
        },
        Instruction::Lui { rd, imm } => {
            lemma_imm_as_u32(imm);
        },
        _ => {},
    }
}

/// A step on a jump writes the address of the next instruction, `pc + 4`,
/// to `rd` (unless `rd` is `x0`) and jumps: `jal` to `pc + imm`, `jalr` to
/// `rs1 + imm` with the lowest bit cleared, `rs1` read before `rd` is
/// written.
pub proof fn lemma_jump_step(m: Machine, w: u32)
    requires
        memory::load32_spec(m.mem, m.pc) == Ok::<u32, FalconError>(w),
        decoder::decoding(w) is Some,
    ensures
        ({
            let a = |r: u8| registers::reg_value(m.x, r as int);
            let link = |rd: u8|
                if rd == 0 {
                    m.x
                } else {
                    m.x.update(rd as int, machine::wrap32(m.pc + 4))
                };
            match decoder::decoding(w)->0 {
                Instruction::Jal { rd, imm } => step_effect(m) == (
                    Machine { x: link(rd), pc: machine::wrap32(m.pc + imm), ..m },
                    true,
                ),
                Instruction::Jalr { rd, rs1, imm } => {
                    let t = machine::wrap32(a(rs1) + imm);
                    step_effect(m) == (
                        Machine { x: link(rd), pc: (t - t % 2) as u32, ..m },
                        true,
                    )
                },
                _ => true,
            }
        }),
{
    let i = decoder::decoding(w)->0;
    match i {
        Instruction::Jalr { rd, rs1, imm } => {
            let t = machine::wrap32(registers::reg_value(m.x, rs1 as int) + imm);
            assert(t & !1u32 == t - t % 2) by (bit_vector);
        },
        _ => {},
    }
}

/// The little-endian number the `n` bytes of `mem` from `a` on spell.
pub open spec fn le_value(mem: Seq<u8>, a: int, n: nat) -> int
    decreases n,
{
    if n == 0 {
        0
    } else {
        mem[a] as int + 256 * le_value(mem, a + 1, (n - 1) as nat)
    }
}

/// `v` read as a two's-complement number of `bits` bits and extended to 32
/// bits, as an unsigned word.
pub open spec fn sign_extended(v: int, bits: nat) -> int {
    let half = if bits == 8 {
        0x80int
    } else {
        0x8000int
    };
    if v < half {
        v
    } else {
        v + 0x1_0000_0000 - 2 * half
    }
}

/// A step on a load whose bytes lie inside memory writes to `rd` the
/// little-endian value of the bytes at `rs1 + imm`: `lb` and `lh`
/// sign-extend their byte or half word, `lbu` and `lhu` zero-extend it, and
/// `lw` takes the whole word. A load that reaches past the end of memory
/// stops execution and writes nothing.
pub proof fn lemma_load_step(m: Machine, w: u32)
    requires
        memory::load32_spec(m.mem, m.pc) == Ok::<u32, FalconError>(w),
        decoder::decoding(w) is Some,
    ensures
        ({
            let ad = |rs1: u8, imm: i32| (registers::reg_value(m.x, rs1 as int) + imm) % 0x1_0000_0000;
            match decoder::decoding(w)->0 {
                Instruction::Lb { rd, rs1, imm } => if ad(rs1, imm) + 1 <= m.mem.len() {
                    step_effect(m) == after_write(m, rd, sign_extended(le_value(m.mem, ad(rs1, imm), 1), 8))
                } else {
                    !step_effect(m).1 && step_effect(m).0.x == m.x
                },
                Instruction::Lbu { rd, rs1, imm } => if ad(rs1, imm) + 1 <= m.mem.len() {
                    step_effect(m) == after_write(m, rd, le_value(m.mem, ad(rs1, imm), 1))
                } else {
                    !step_effect(m).1 && step_effect(m).0.x == m.x
                },
                Instruction::Lh { rd, rs1, imm } => if ad(rs1, imm) + 2 <= m.mem.len() {
                    step_effect(m) == after_write(m, rd, sign_extended(le_value(m.mem, ad(rs1, imm), 2), 16))
                } else {
                    !step_effect(m).1 && step_effect(m).0.x == m.x
                },
                Instruction::Lhu { rd, rs1, imm } => if ad(rs1, imm) + 2 <= m.mem.len() {
                    step_effect(m) == after_write(m, rd, le_value(m.mem, ad(rs1, imm), 2))
                } else {
                    !step_effect(m).1 && step_effect(m).0.x == m.x
                },
                Instruction::Lw { rd, rs1, imm } => if ad(rs1, imm) + 4 <= m.mem.len() {
                    step_effect(m) == after_write(m, rd, le_value(m.mem, ad(rs1, imm), 4))
                } else {
                    !step_effect(m).1 && step_effect(m).0.x == m.x
                },
                _ => true,
            }
        }),
{
    reveal_with_fuel(le_value, 5);
    let i = decoder::decoding(w)->0;
    match i {
        Instruction::Lb { rd, rs1, imm } => {
            let a = machine::wrap32(registers::reg_value(m.x, rs1 as int) + imm);
            if a as int + 1 <= m.mem.len() {
                let b = m.mem[a as int];
                assert((b < 0x80u8 ==> ((b as i8) as i32) as u32 == b as u32) && (b >= 0x80u8 ==> ((b
                    as i8) as i32) as u32 == (b as u32) + 0xFFFF_FF00u32)) by (bit_vector);
            }
        },
        Instruction::Lh { rd, rs1, imm } => {
            let a = machine::wrap32(registers::reg_value(m.x, rs1 as int) + imm);
            if a as int + 2 <= m.mem.len() {
                let b0 = m.mem[a as int];
                let b1 = m.mem[a + 1];
                assert(memory::le16(b0, b1) == b0 as u16 + 256 * (b1 as u16)) by (bit_vector);
                let v = memory::le16(b0, b1);
                assert((v < 0x8000u16 ==> ((v as i16) as i32) as u32 == v as u32) && (v >= 0x8000u16
                    ==> ((v as i16) as i32) as u32 == (v as u32) + 0xFFFF_0000u32)) by (bit_vector);
            }
        },
        Instruction::Lhu { rd, rs1, imm } => {
            let a = machine::wrap32(registers::reg_value(m.x, rs1 as int) + imm);
            if a as int + 2 <= m.mem.len() {
                let b0 = m.mem[a as int];
                let b1 = m.mem[a + 1];
                assert(memory::le16(b0, b1) == b0 as u16 + 256 * (b1 as u16)) by (bit_vector);
            }
        },
        Instruction::Lw { rd, rs1, imm } => {
            let a = machine::wrap32(registers::reg_value(m.x, rs1 as int) + imm);
            if a as int + 4 <= m.mem.len() {
                let b0 = m.mem[a as int];
                let b1 = m.mem[a + 1];
                let b2 = m.mem[a + 2];
                let b3 = m.mem[a + 3];
                assert(memory::le32(b0, b1, b2, b3) == b0 as u32 + 256 * (b1 as u32 + 256 * (b2 as u32
                    + 256 * (b3 as u32)))) by (bit_vector);
            }
        },
        _ => {},
    }
}

/// `m2` is `m` after a store that went on: only the memory changed (keeping
/// its size) and the program counter moved to the next instruction.
pub open spec fn stored_and_went_on(m: Machine, r: (Machine, bool)) -> bool {
    &&& r.1
    &&& r.0 == (Machine { mem: r.0.mem, pc: machine::wrap32(m.pc + 4), ..m })
    &&& r.0.mem.len() == m.mem.len()
}

/// A step on a store whose bytes fit in memory writes the low bytes of `rs2`
/// from `rs1 + imm` on, least significant first (one for `sb`, two for
/// `sh`, four for `sw`), and changes no other byte and no register. A store
/// that reaches past the end of memory stops execution and writes nothing.
pub proof fn lemma_store_step(m: Machine, w: u32)
    requires
        memory::load32_spec(m.mem, m.pc) == Ok::<u32, FalconError>(w),
        decoder::decoding(w) is Some,
    ensures
        ({
            let ad = |rs1: u8, imm: i32| (registers::reg_value(m.x, rs1 as int) + imm) % 0x1_0000_0000;
            let v = |rs2: u8| registers::reg_value(m.x, rs2 as int) as int;
            let r = step_effect(m);
            let kept = |a: int, n: int|
                forall|i: int| 0 <= i < m.mem.len() && !(a <= i < a + n) ==> #[trigger] r.0.mem[i] == m.mem[i];
            match decoder::decoding(w)->0 {
                Instruction::Sb { rs2, rs1, imm } => if ad(rs1, imm) + 1 <= m.mem.len() {
                    &&& stored_and_went_on(m, r)
                    &&& r.0.mem[ad(rs1, imm)] == v(rs2) % 256
                    &&& kept(ad(rs1, imm), 1)
                } else {
                    !r.1 && r.0.mem == m.mem
                },
                Instruction::Sh { rs2, rs1, imm } => if ad(rs1, imm) + 2 <= m.mem.len() {
                    &&& stored_and_went_on(m, r)
                    &&& r.0.mem[ad(rs1, imm)] == v(rs2) % 256
                    &&& r.0.mem[ad(rs1, imm) + 1] == (v(rs2) / 0x100) % 256
                    &&& kept(ad(rs1, imm), 2)
                } else {
                    !r.1 && r.0.mem == m.mem
                },
                Instruction::Sw { rs2, rs1, imm } => if ad(rs1, imm) + 4 <= m.mem.len() {
                    &&& stored_and_went_on(m, r)
                    &&& r.0.mem[ad(rs1, imm)] == v(rs2) % 256
                    &&& r.0.mem[ad(rs1, imm) + 1] == (v(rs2) / 0x100) % 256
                    &&& r.0.mem[ad(rs1, imm) + 2] == (v(rs2) / 0x1_0000) % 256
                    &&& r.0.mem[ad(rs1, imm) + 3] == (v(rs2) / 0x100_0000) % 256
                    &&& kept(ad(rs1, imm), 4)
                } else {
                    !r.1 && r.0.mem == m.mem
                },
                _ => true,
            }
        }),
{
    let i = decoder::decoding(w)->0;
    match i {
        Instruction::Sb { rs2, rs1, imm } => {
            let x = registers::reg_value(m.x, rs2 as int);
            assert(x as u8 == x % 256) by (bit_vector);
        },
        Instruction::Sh { rs2, rs1, imm } => {
            let x = registers::reg_value(m.x, rs2 as int);
            let h = x as u16;
            assert((h & 0xff) as u8 == x % 256 && (h >> 8u16) as u8 == (x / 256) % 256) by (bit_vector)
                requires
                    h == x as u16,
            ;
        },
        Instruction::Sw { rs2, rs1, imm } => {
            let x = registers::reg_value(m.x, rs2 as int);
            assert((x & 0xff) as u8 == x % 256 && ((x >> 8u32) & 0xff) as u8 == (x / 0x100) % 256 && ((x
                >> 16u32) & 0xff) as u8 == (x / 0x1_0000) % 256 && (x >> 24u32) as u8 == (x / 0x100_0000)
                % 256) by (bit_vector);
        },
        _ => {},
    }
}

/// A step on a logical right shift writes to `rd` the unsigned value of
/// `rs1` divided by 2 to the power of the shift amount, rounded down: the
/// low five bits of `rs2` for `srl`, the immediate `shamt` for `srli`.
pub proof fn lemma_logical_shift_right_step(m: Machine, w: u32)
    requires
        memory::load32_spec(m.mem, m.pc) == Ok::<u32, FalconError>(w),
        decoder::decoding(w) is Some,
    ensures
        ({
            let a = |r: u8| registers::reg_value(m.x, r as int);
            match decoder::decoding(w)->0 {
                Instruction::Srl { rd, rs1, rs2 } => step_effect(m) == after_write(
                    m,
                    rd,
                    a(rs1) as int / vstd::arithmetic::power2::pow2((a(rs2) % 32) as nat) as int,
                ),
                Instruction::Srli { rd, rs1, shamt } => shamt < 32 ==> step_effect(m) == after_write(
                    m,
                    rd,
                    a(rs1) as int / vstd::arithmetic::power2::pow2(shamt as nat) as int,
                ),
                _ => true,
            }
        }),
{
    let i = decoder::decoding(w)->0;
    match i {
        Instruction::Srl { rd, rs1, rs2 } => {
            let x = registers::reg_value(m.x, rs1 as int);
            let y = registers::reg_value(m.x, rs2 as int);
            let s = y & 0x1f;
            assert(s == y % 32 && s < 32) by (bit_vector)
                requires
                    s == y & 0x1f,
            ;
            vstd::bits::lemma_u32_shr_is_div(x, s);
        },
        Instruction::Srli { rd, rs1, shamt } => {
            let x = registers::reg_value(m.x, rs1 as int);
            let s = (shamt as u32) & 0x1f;
            if shamt < 32 {
                assert(s == shamt as u32) by (bit_vector)
                    requires
                        s == (shamt as u32) & 0x1f,
                        shamt < 32,
                ;
                vstd::bits::lemma_u32_shr_is_div(x, s);
            }
        },
        _ => {},
    }
}

/// `m` after `k` steps in a row, whatever each step reports.
pub open spec fn steps_effect(m: Machine, k: nat) -> Machine
    decreases k,
{
    if k == 0 {
        m
    } else {
        steps_effect(step_effect(m).0, (k - 1) as nat)
    }
}

/// A run of at most `n` steps is that many single steps in a row: it counts
/// `r <= n` steps, each of the first `r` steps reports that execution goes
/// on, and when `r < n` one more step was taken and stopped execution. The
/// machine at the end is the machine after `r + 1` steps, or `n` when the
/// run used them all; in particular a run of no steps changes nothing.
pub proof fn lemma_run_is_repeated_steps(m: Machine, n: nat)
    ensures
        ({
            let (mf, r) = run_effect(m, n);
            &&& r <= n
            &&& forall|j: nat| j < r ==> (#[trigger] step_effect(steps_effect(m, j))).1
            &&& r < n ==> !step_effect(steps_effect(m, r)).1
            &&& mf == steps_effect(
                m,
                if r < n {
                    r + 1
                } else {
                    n
                },
            )
            &&& n == 0 ==> r == 0 && mf == m
        }),
    decreases n,
{
    if n > 0 {
        let (m2, ok) = step_effect(m);
        if ok {
            lemma_run_is_repeated_steps(m2, (n - 1) as nat);
            let (mf, r) = run_effect(m, n);
            let (mf2, r2) = run_effect(m2, (n - 1) as nat);
            assert(r == r2 + 1 && mf == mf2);
            assert forall|j: nat| j < r implies (#[trigger] step_effect(steps_effect(m, j))).1 by {
                if j > 0 {
                    assert(steps_effect(m, j) == steps_effect(m2, (j - 1) as nat));
                    assert(step_effect(steps_effect(m2, (j - 1) as nat)).1);
                }
            }
            assert(steps_effect(m, r) == steps_effect(m2, r2));
            if r < n {
                assert(steps_effect(m, r + 1) == steps_effect(m2, r2 + 1));
            } else {
                assert(steps_effect(m, n) == steps_effect(m2, (n - 1) as nat));
            }
        } else {
            assert(steps_effect(m, 1) == steps_effect(m2, 0));
        }
    }
}

/// Steps until a step stops execution or `max_steps` steps have gone on;
/// returns the number of steps that went on.
pub fn run<B: Bus>(cpu: &mut Cpu, mem: &mut B, console: &mut Console, max_steps: usize) -> (steps:
    usize)
    requires
        old(cpu).x@.len() == 32,
    ensures
        run_effect(machine::machine(old(cpu), old(mem), old(console)), max_steps as nat) == (
            machine::machine(final(cpu), final(mem), final(console)),
            steps as nat,
        ),
        steps <= max_steps,
        final(cpu).x@.len() == 32,
        final(console).scroll == old(console).scroll,
        final(console).current == old(console).current,
{
    let ghost m0 = machine::machine(&*cpu, &*mem, &*console);
    let mut steps: usize = 0;
    while steps < max_steps
        invariant_except_break
            steps < max_steps ==> ({
                let (mf, k) = run_effect(machine::machine(&*cpu, &*mem, &*console), (max_steps - steps) as nat);
                run_effect(m0, max_steps as nat) == (mf, (steps + k) as nat)
            }),
        invariant
            steps <= max_steps,
            cpu.x@.len() == 32,
            console.scroll == old(console).scroll,
            console.current == old(console).current,
            steps == max_steps ==> run_effect(m0, max_steps as nat) == (machine::machine(&*cpu, &*mem, &*console), steps as nat),
        ensures
            run_effect(m0, max_steps as nat) == (machine::machine(&*cpu, &*mem, &*console), steps as nat),
        decreases max_steps - steps,
    {
        let ghost before = machine::machine(&*cpu, &*mem, &*console);
        let ok = step(cpu, mem, console);
        if !ok {
            break;
        }
        steps += 1;
        proof {
            if steps < max_steps {
                assert(run_effect(before, (max_steps - steps + 1) as nat) == ({
                    let (m3, k) = run_effect(machine::machine(&*cpu, &*mem, &*console), (max_steps - steps) as nat);
                    (m3, k + 1)
                }));
            } else {
                assert(run_effect(machine::machine(&*cpu, &*mem, &*console), 0) == (machine::machine(&*cpu, &*mem, &*console), 0nat));
            }
        }
    }
    steps
}

} // verus!
