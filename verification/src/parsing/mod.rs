//! From a source text to instructions and labels.

pub mod a_instruction;
pub mod c_instruction;
pub mod label;
pub mod notation;
pub mod parser;
pub mod symbol;

pub use parser::parse_str;

use crate::hack_int::ParseHackIntError;
use crate::instructions::{AInstruction, AValueView, CInstruction, CInstructionView};
use vstd::prelude::*;

verus! {

/// One instruction of a program, as the parser found it: no symbol is
/// resolved yet.
#[derive(Debug, PartialEq, Eq)]
pub enum ParsedInstruction {
    AInstruction(AInstruction),
    CInstruction(CInstruction),
}

/// Why a text is no program.
#[derive(Debug, PartialEq, Eq)]
pub enum ParseError {
    /// The number of an A-instruction is out of range.
    ParseHackIntError(ParseHackIntError),
    /// A line is neither an instruction nor a label, a comment or blank,
    /// or an instruction or label is not followed by a line break. Holds
    /// the line.
    UnrecognizedLine(String),
}

/// A [`ParsedInstruction`] as contracts see it.
pub enum ParsedInstructionView {
    AInstruction(AValueView),
    CInstruction(CInstructionView),
}

/// A [`ParseError`] as contracts see it.
pub enum ParseErrorView {
    ParseHackIntError(ParseHackIntError),
    UnrecognizedLine(Seq<char>),
}

/// What a parser has made of the start of a text: a value, and the text
/// that is left behind it.
pub struct Parsed<T> {
    pub value: T,
    pub rest: Seq<char>,
}

impl View for ParsedInstruction {
    type V = ParsedInstructionView;

    open spec fn view(&self) -> ParsedInstructionView {
        match self {
            ParsedInstruction::AInstruction(instruction) => ParsedInstructionView::AInstruction(
                instruction@,
            ),
            ParsedInstruction::CInstruction(instruction) => ParsedInstructionView::CInstruction(
                instruction@,
            ),
        }
    }
}

impl View for ParseError {
    type V = ParseErrorView;

    open spec fn view(&self) -> ParseErrorView {
        match self {
            ParseError::ParseHackIntError(e) => ParseErrorView::ParseHackIntError(*e),
            ParseError::UnrecognizedLine(text) => ParseErrorView::UnrecognizedLine(text@),
        }
    }
}

impl ParsedInstructionView {
    /// Whether the instruction can be encoded: a number within the bound,
    /// or a computation that the machine knows.
    pub open spec fn is_encodable(self) -> bool {
        match self {
            ParsedInstructionView::AInstruction(_) => true,
            ParsedInstructionView::CInstruction(instruction) => instruction.computation.is_legal(),
        }
    }
}

} // verus!
