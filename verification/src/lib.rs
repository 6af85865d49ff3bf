//! A two-pass assembler for the Hack machine language.
//!
//! The assembler turns the text of a program into the 16-bit words that
//! the machine executes:
//!
//! 1. [`parsing`] reads the text into instructions and labels;
//! 2. [`assembler_context`] registers every label in the
//!    [`symbol_table`], then encodes the instructions in their order,
//!    resolving symbols and allocating variables on the way;
//! 3. [`instructions`] holds the bit layout of the words.
//!
//! [`hack_int`] keeps numbers within the range of an address,
//! [`program_line`] is the cursor with which a line is read, and [`text`]
//! holds what is said of characters and sequences of them.
//!
//! [`Assembler`] drives the run. Every executable function is verified
//! against a contract over the sequence of characters of the text; the
//! contract of [`Assembler::assemble`] is [`assembler::assemble_spec`].

pub mod assembler;
pub mod assembler_context;
pub mod constants;
pub mod hack_int;
pub mod instructions;
pub mod parsing;
pub mod program_line;
pub mod symbol_table;
pub mod text;

pub use assembler::Assembler;
