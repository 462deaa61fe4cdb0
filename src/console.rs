//! The console interface that generic kernel code calls and a board binds.
use vstd::prelude::*;

verus! {

/// Console input and output. A board binds one implementation; the kernel
/// calls it through the implementing type, so every call is a direct one.
pub trait ConsoleIf {
    /// Writes the given bytes to the console.
    fn write_bytes(bytes: &[u8]);

    /// Reads whatever input is waiting into `bytes`, without waiting for
    /// more, and returns how many bytes were read.
    fn read_bytes(bytes: &mut [u8]) -> usize;
}

} // verus!
