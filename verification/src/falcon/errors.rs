//! Errors raised by the emulated machine.
use vstd::prelude::*;

verus! {

/// A fault of the emulated machine.
#[derive(Clone, Copy, Debug, PartialEq, Eq, Structural)]
pub enum FalconError {
    /// An access of `size` bytes at `addr` reaches past the end of memory.
    OutOfBounds { addr: u32, size: u32 },
}

} // verus!
