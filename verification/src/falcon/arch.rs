//! The architecture model: named registers, a program counter, stack
//! pointer and zero register, a memory, and the bounds of its segments.
use vstd::prelude::*;
use crate::falcon::memory::{Memory, MEMORY_SIZE};
use crate::falcon::registers::Register;

verus! {

/// Start and end of the data and text segments, and the stack pointer.
#[derive(Debug, Clone)]
pub struct MemorySegmentsPointer {
    pub data_section_start_pointer: u64,
    pub data_section_end_pointer: u64,
    pub text_section_start_pointer: u64,
    pub text_section_end_pointer: u64,
    pub stack_pointer: u64,
}

impl Default for MemorySegmentsPointer {
    fn default() -> (p: Self)
        ensures
            p.data_section_start_pointer == 0,
            p.data_section_end_pointer == 0,
            p.text_section_start_pointer == 0,
            p.text_section_end_pointer == 0,
            p.stack_pointer == 0,
    {
        MemorySegmentsPointer {
            data_section_start_pointer: 0,
            data_section_end_pointer: 0,
            text_section_start_pointer: 0,
            text_section_end_pointer: 0,
            stack_pointer: 0,
        }
    }
}

/// The architecture model's state.
#[derive(Clone)]
pub struct FalconArch {
    pub registers: [Register; 20],
    pub pc: Register,
    pub sp: Register,
    pub zero: Register,
    pub memory: Memory,
    pub segments_pointer: MemorySegmentsPointer,
}

impl FalconArch {
    /// All registers zero, a zeroed memory, and no segments.
    pub fn new() -> (a: Self)
        ensures
            forall|i: int| 0 <= i < 20 ==> (#[trigger] a.registers@[i]).value == 0,
            a.pc.value == 0,
            a.sp.value == 0,
            a.zero.value == 0,
            a.memory@ == Seq::new(MEMORY_SIZE as nat, |i: int| 0u8),
            a.segments_pointer.data_section_start_pointer == 0,
            a.segments_pointer.data_section_end_pointer == 0,
            a.segments_pointer.text_section_start_pointer == 0,
            a.segments_pointer.text_section_end_pointer == 0,
            a.segments_pointer.stack_pointer == 0,
    {
        FalconArch {
            registers: [Register::new(); 20],
            pc: Register::valued(0),
            sp: Register::valued(0),
            zero: Register::valued(0),
            memory: Memory::new(),
            segments_pointer: MemorySegmentsPointer::default(),
        }
    }
}

} // verus!
