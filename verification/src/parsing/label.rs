//! Label lines: `(` name `)`.

use super::symbol::{symbol, symbol_spec};
use super::{ParseError, ParseErrorView};
use crate::instructions::Label;
use crate::program_line::ProgramLine;
use crate::text::is_comment_or_empty;
use vstd::prelude::*;

verus! {

/// What a line that begins with `(` holds: the name between the brackets,
/// where a symbol stands there, the bracket is closed and nothing but a
/// comment follows. `rest` is the line without the white space before it,
/// `text` the whole line.
pub open spec fn label_spec(rest: Seq<char>, text: Seq<char>) -> Result<Seq<char>, ParseErrorView> {
    if rest.len() > 0 && rest[0] == '(' {
        match symbol_spec(rest.skip(1)) {
            Some(name) => if name.rest.len() > 0 && name.rest[0] == ')' && is_comment_or_empty(
                name.rest.skip(1),
            ) {
                Ok(name.value)
            } else {
                Err(ParseErrorView::UnrecognizedLine(text))
            },
            None => Err(ParseErrorView::UnrecognizedLine(text)),
        }
    } else {
        Err(ParseErrorView::UnrecognizedLine(text))
    }
}

/// Reads a label line.
pub fn label(line: ProgramLine) -> (result: Result<Label, ParseError>)
    ensures
        match result {
            Ok(label) => label_spec(line@, line.line_text()) == Ok::<Seq<char>, ParseErrorView>(
                label@,
            ),
            Err(e) => label_spec(line@, line.line_text()) == Err::<Seq<char>, ParseErrorView>(e@),
        },
{
    let mut line = line;
    if line.peek() != Some('(') {
        return Err(ParseError::UnrecognizedLine(line.line()));
    }
    line.advance(1);
    let name = match symbol(&mut line) {
        Some(name) => name,
        None => {
            return Err(ParseError::UnrecognizedLine(line.line()));
        },
    };
    if line.peek() != Some(')') {
        return Err(ParseError::UnrecognizedLine(line.line()));
    }
    line.advance(1);
    if !line.rest_is_comment_or_empty() {
        return Err(ParseError::UnrecognizedLine(line.line()));
    }
    Ok(Label { name })
}

} // verus!
