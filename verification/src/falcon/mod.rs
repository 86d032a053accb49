pub mod arch;
pub mod bits;
pub mod instruction;
pub mod encoder;
pub mod decoder;
pub mod errors;
pub mod registers;
pub mod memory;
pub mod machine;
pub mod syscall;
pub mod program;

pub use instruction::Instruction;
pub use memory::{Bus, Ram};
pub use registers::Cpu;
pub mod exec;
pub mod assembler;
