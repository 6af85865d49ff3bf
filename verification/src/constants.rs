//! The sizes of the machine's two memories.

use vstd::prelude::*;

verus! {

/// The last address of the data memory that a variable can have.
pub const MEMORY_SIZE: u16 = 16383;

/// How many instructions the instruction memory holds.
pub const ROM_SIZE: usize = 32767;

/// The address of the first variable.
pub const FIRST_VARIABLE: u16 = 16;

} // verus!
