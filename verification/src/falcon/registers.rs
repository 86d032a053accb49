//! The register file of the emulated RV32 hart.
use vstd::prelude::*;

verus! {

/// Value of register `r` in the register file `x`: `x0` always reads 0.
pub open spec fn reg_value(x: Seq<u32>, r: int) -> u32 {
    if r == 0 {
        0
    } else {
        x[r]
    }
}

/// Register file after writing `v` to register `r`: writes to `x0` are dropped.
pub open spec fn reg_write(x: Seq<u32>, r: int, v: u32) -> Seq<u32> {
    if r == 0 {
        x
    } else {
        x.update(r, v)
    }
}

/// CPU state: 32 general-purpose registers, the program counter, and the
/// bytes the program has written to its standard output.
pub struct Cpu {
    pub x: [u32; 32],
    pub pc: u32,
    pub stdout: Vec<u8>,
}

impl Cpu {
    /// Reads register `r`; `x0` reads as zero.
    pub fn read(&self, r: u8) -> (v: u32)
        requires
            r < 32,
        ensures
            v == reg_value(self.x@, r as int),
    {
        if r == 0 {
            0
        } else {
            self.x[r as usize]
        }
    }

    /// Writes `v` to register `r`; writes to `x0` are ignored.
    pub fn write(&mut self, r: u8, v: u32)
        requires
            r < 32,
        ensures
            final(self).x@ == reg_write(old(self).x@, r as int, v),
            final(self).pc == old(self).pc,
            final(self).stdout@ == old(self).stdout@,
    {
        if r != 0 {
            self.x[r as usize] = v;
        }
    }
}

impl Default for Cpu {
    fn default() -> (c: Self)
        ensures
            c.x@ == Seq::new(32, |i: int| 0u32),
            c.pc == 0,
            c.stdout@ == Seq::<u8>::empty(),
    {
        let c = Cpu { x: [0u32; 32], pc: 0, stdout: Vec::new() };
        assert(c.x@ =~= Seq::new(32, |i: int| 0u32));
        c
    }
}

/// Reading a register gives back the last value written to it, unless it is `x0`,
/// which always reads as zero; other registers keep their values.
pub proof fn lemma_read_after_write(x: Seq<u32>, r: int, s: int, v: u32)
    requires
        0 <= r < 32,
        0 <= s < 32,
        x.len() == 32,
    ensures
        reg_value(reg_write(x, r, v), s) == if s == 0 {
            0
        } else if s == r {
            v
        } else {
            reg_value(x, s)
        },
        reg_write(x, r, v).len() == 32,
{
}

/// One register of the architecture model, holding a word.
#[derive(Clone, Copy, Debug, PartialEq, Eq, Structural)]
pub struct Register {
    pub value: u32,
}

impl Register {
    /// A register holding zero.
    pub fn new() -> (r: Self)
        ensures
            r.value == 0,
    {
        Register { value: 0 }
    }

    /// A register holding `value`.
    pub fn valued(value: u32) -> (r: Self)
        ensures
            r.value == value,
    {
        Register { value }
    }
}

} // verus!
