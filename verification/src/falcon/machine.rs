//! The abstract state of the emulated machine, as the contracts of the
//! emulator speak of it.
use vstd::prelude::*;
use crate::falcon::memory::Bus;
use crate::falcon::registers::Cpu;
use crate::ui::console::{self, Console};

verus! {

/// Everything an emulation step reads or changes: registers, program
/// counter, program output, memory, console lines, queued input and
/// whether the console waits for input.
pub struct Machine {
    pub x: Seq<u32>,
    pub pc: u32,
    pub stdout: Seq<u8>,
    pub mem: Seq<u8>,
    pub lines: Seq<Seq<char>>,
    pub input: Seq<Seq<char>>,
    pub reading: bool,
}

/// The machine made of a CPU, a memory and a console.
pub open spec fn machine<B: Bus>(cpu: &Cpu, mem: &B, con: &Console) -> Machine {
    Machine {
        x: cpu.x@,
        pc: cpu.pc,
        stdout: cpu.stdout@,
        mem: mem.bytes(),
        lines: console::texts(con.lines@),
        input: con.queued(),
        reading: con.reading,
    }
}

/// `m` with `msg` shown as a new console line.
pub open spec fn with_line(m: Machine, msg: Seq<char>) -> Machine {
    Machine { lines: m.lines.push(msg), ..m }
}

/// The bytes of an ASCII text.
pub open spec fn ascii_bytes(s: Seq<char>) -> Seq<u8> {
    s.map_values(|c: char| c as u8)
}

/// `v` reduced modulo 2^32.
pub open spec fn wrap32(v: int) -> u32 {
    (v % 0x1_0000_0000) as u32
}

/// The two's-complement value of the 32-bit word `v`: `v` itself below
/// 2^31, otherwise `v - 2^32`.
pub open spec fn signed32(v: u32) -> int {
    if v < 0x8000_0000 {
        v as int
    } else {
        v - 0x1_0000_0000
    }
}

/// Reading a word as `i32` gives its two's-complement value.
pub proof fn lemma_as_i32(v: u32)
    ensures
        (v as i32) as int == signed32(v),
{
    if v < 0x8000_0000 {
        assert((v as i32) == v) by (bit_vector)
            requires
                v < 0x8000_0000u32,
        ;
    } else {
        assert((v as i32) as i64 == (v as i64) - 0x1_0000_0000i64) by (bit_vector)
            requires
                v >= 0x8000_0000u32,
        ;
    }
}

/// Wrapping twice is wrapping once.
pub proof fn lemma_wrap32_add(a: int, b: int)
    ensures
        wrap32(wrap32(a) + b) == wrap32(a + b),
{
    vstd::arithmetic::div_mod::lemma_add_mod_noop_right(b, a, 0x1_0000_0000);
}

} // verus!
