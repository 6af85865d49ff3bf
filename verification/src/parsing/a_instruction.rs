//! A-instruction lines: `@` and a number or a symbol.

use super::symbol::{digits, digits_spec, symbol, symbol_spec};
use super::{ParseError, ParseErrorView, ParsedInstruction};
use crate::hack_int::{parse_spec, HackInt, ParseHackIntError};
use crate::instructions::{AInstruction, AValue, AValueView};
use crate::program_line::ProgramLine;
use crate::text::{is_comment_or_empty, is_digit};
use vstd::prelude::*;

verus! {

/// What a line that begins with `@` holds. A digit behind the `@` begins a
/// number, which reaches as far as the digits do; anything else must
/// begin a symbol. Nothing but a comment may follow. A number that is out
/// of range is an error of its own, and is looked at only when the line is
/// well formed. `rest` is the line without the white
/// space before it, `text` the whole line.
pub open spec fn a_instruction_spec(rest: Seq<char>, text: Seq<char>) -> Result<
    AValueView,
    ParseErrorView,
> {
    if rest.len() > 0 && rest[0] == '@' {
        let value = rest.skip(1);
        if value.len() > 0 && is_digit(value[0]) {
            let number = digits_spec(value);
            if is_comment_or_empty(number.rest) {
                match parse_spec(number.value) {
                    Ok(n) => Ok(AValueView::Literal(n)),
                    Err(e) => Err(ParseErrorView::ParseHackIntError(e)),
                }
            } else {
                Err(ParseErrorView::UnrecognizedLine(text))
            }
        } else {
            match symbol_spec(value) {
                Some(name) => if is_comment_or_empty(name.rest) {
                    Ok(AValueView::Symbol(name.value))
                } else {
                    Err(ParseErrorView::UnrecognizedLine(text))
                },
                None => Err(ParseErrorView::UnrecognizedLine(text)),
            }
        }
    } else {
        Err(ParseErrorView::UnrecognizedLine(text))
    }
}

/// Reads an A-instruction line.
pub fn a_instruction(line: ProgramLine) -> (result: Result<ParsedInstruction, ParseError>)
    ensures
        match result {
            Ok(instruction) => instruction@ is AInstruction && a_instruction_spec(
                line@,
                line.line_text(),
            ) == Ok::<AValueView, ParseErrorView>(instruction@->AInstruction_0),
            Err(e) => a_instruction_spec(line@, line.line_text()) == Err::<
                AValueView,
                ParseErrorView,
            >(e@),
        },
{
    let mut line = line;
    if line.peek() != Some('@') {
        return Err(ParseError::UnrecognizedLine(line.line()));
    }
    line.advance(1);
    let begins_number = match line.peek() {
        Some(c) => '0' <= c && c <= '9',
        None => false,
    };
    let value = if begins_number {
        let number = digits(&mut line);
        if !line.rest_is_comment_or_empty() {
            return Err(ParseError::UnrecognizedLine(line.line()));
        }
        match HackInt::parse(number.as_str()) {
            Ok(n) => AValue::Literal(n),
            Err(e) => {
                return Err(ParseError::ParseHackIntError(e));
            },
        }
    } else {
        match symbol(&mut line) {
            Some(name) => {
                if !line.rest_is_comment_or_empty() {
                    return Err(ParseError::UnrecognizedLine(line.line()));
                }
                AValue::Symbol(name)
            },
            None => {
                return Err(ParseError::UnrecognizedLine(line.line()));
            },
        }
    };
    Ok(ParsedInstruction::AInstruction(AInstruction { value }))
}

} // verus!
