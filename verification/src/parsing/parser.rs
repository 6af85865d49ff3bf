//! The parser: from a source text to instructions and labels.
//!
//! A text is a sequence of lines, each closed by a line break. A line
//! holds one instruction or one label, or nothing; white space before and
//! behind it and a comment behind it are skipped. What follows the last
//! line break may hold white space and a comment, and nothing else. The
//! parser resolves no symbol.

use super::a_instruction::{a_instruction, a_instruction_spec};
use super::c_instruction::{c_instruction, c_instruction_spec};
use super::label::{label, label_spec};
use super::notation::{label_text, law_written_label_is_read};
use super::symbol::{digits_spec, is_symbol, is_symbol_char};
use super::{ParseError, ParseErrorView, ParsedInstruction, ParsedInstructionView};
use crate::hack_int::{law_digits_write_a_number, ParseHackIntError, HACK_INT_MAX};
use crate::instructions::{AValueView, Label};
use crate::program_line::{line_type_of, LineType, ProgramLine};
use crate::text::{
    copy_range, is_comment_or_empty, is_digit, is_whitespace, lemma_prefix_len, lemma_prefix_len_properties,
    prefix_len, to_chars, trim_start,
};
use vstd::prelude::*;

verus! {

/// What the parser makes of a text: the instructions in their order, and
/// the labels in theirs, each with the number of the instruction that
/// follows it.
#[derive(Debug, PartialEq, Eq)]
pub struct ParserOutput {
    pub instructions: Vec<ParsedInstruction>,
    pub labels: Vec<(Label, usize)>,
}

/// A [`ParserOutput`] as contracts see it.
pub struct ParserOutputView {
    pub instructions: Seq<ParsedInstructionView>,
    pub labels: Seq<(Seq<char>, int)>,
}

/// A list of instructions as contracts see it.
pub open spec fn instructions_view(instructions: Seq<ParsedInstruction>) -> Seq<
    ParsedInstructionView,
> {
    Seq::new(instructions.len(), |i: int| instructions[i]@)
}

/// A list of labels as contracts see it.
pub open spec fn labels_view(labels: Seq<(Label, usize)>) -> Seq<(Seq<char>, int)> {
    Seq::new(labels.len(), |i: int| (labels[i].0@, labels[i].1 as int))
}

impl View for ParserOutput {
    type V = ParserOutputView;

    open spec fn view(&self) -> ParserOutputView {
        ParserOutputView {
            instructions: instructions_view(self.instructions@),
            labels: labels_view(self.labels@),
        }
    }
}

impl ParserOutputView {
    /// Whether every instruction can be encoded.
    pub open spec fn is_encodable(self) -> bool {
        forall|i: int|
            0 <= i < self.instructions.len() ==> (#[trigger] self.instructions[i]).is_encodable()
    }
}

impl ParserOutputView {
    /// Whether every number is an address: the number of every
    /// A-instruction lies within the bound, and no label holds less than
    /// zero.
    pub open spec fn has_addresses(self) -> bool {
        &&& forall|i: int|
            0 <= i < self.instructions.len() ==> (#[trigger] self.instructions[i]
                matches ParsedInstructionView::AInstruction(AValueView::Literal(number))
                ==> 0 <= number <= HACK_INT_MAX)
        &&& forall|i: int| 0 <= i < self.labels.len() ==> 0 <= (#[trigger] self.labels[i]).1
    }
}

/// What one line holds.
pub enum LineView {
    Blank,
    Instruction(ParsedInstructionView),
    Label(Seq<char>),
}

/// What a line holds, judged by its first character that is no white
/// space. `rest` is the line without the white space before it, `text`
/// the whole line.
pub open spec fn line_spec(rest: Seq<char>, text: Seq<char>) -> Result<LineView, ParseErrorView> {
    match line_type_of(rest) {
        LineType::Other => Ok(LineView::Blank),
        LineType::AInstruction => match a_instruction_spec(rest, text) {
            Ok(value) => Ok(LineView::Instruction(ParsedInstructionView::AInstruction(value))),
            Err(e) => Err(e),
        },
        LineType::CInstruction => match c_instruction_spec(rest, text) {
            Ok(instruction) => Ok(
                LineView::Instruction(ParsedInstructionView::CInstruction(instruction)),
            ),
            Err(e) => Err(e),
        },
        LineType::Label => match label_spec(rest, text) {
            Ok(name) => Ok(LineView::Label(name)),
            Err(e) => Err(e),
        },
    }
}

/// A parser between two lines, as contracts see it: what it has found,
/// and the error of the first number that was out of range.
pub struct ParserView {
    pub output: ParserOutputView,
    pub number_error: Option<ParseHackIntError>,
}

impl ParserView {
    /// A parser that has read nothing.
    pub open spec fn initial() -> ParserView {
        ParserView {
            output: ParserOutputView { instructions: Seq::empty(), labels: Seq::empty() },
            number_error: None,
        }
    }

    /// The parser that has found one more instruction.
    pub open spec fn with_instruction(self, instruction: ParsedInstructionView) -> ParserView {
        ParserView {
            output: ParserOutputView {
                instructions: self.output.instructions.push(instruction),
                labels: self.output.labels,
            },
            number_error: self.number_error,
        }
    }

    /// The parser that has found one more label: it names the instruction
    /// that comes next, whose number is that of the instructions found.
    pub open spec fn with_label(self, name: Seq<char>) -> ParserView {
        ParserView {
            output: ParserOutputView {
                instructions: self.output.instructions,
                labels: self.output.labels.push((name, self.output.instructions.len() as int)),
            },
            number_error: self.number_error,
        }
    }

    /// The parser that has met a number that is out of range: the error
    /// of the first one is kept.
    pub open spec fn with_number_error(self, e: ParseHackIntError) -> ParserView {
        ParserView {
            output: self.output,
            number_error: if self.number_error is None {
                Some(e)
            } else {
                self.number_error
            },
        }
    }

    /// The parser after one more line. A line that holds nothing changes
    /// nothing. An instruction or a label is appended, and must be closed
    /// by a line break. A line that is well formed but for its number is
    /// noted and passed over, so that a line that is not well formed comes
    /// first wherever it stands.
    pub open spec fn feed_line(self, rest: Seq<char>, text: Seq<char>, terminated: bool) -> Result<
        ParserView,
        ParseErrorView,
    > {
        match line_spec(rest, text) {
            Ok(LineView::Blank) => Ok(self),
            Err(ParseErrorView::UnrecognizedLine(line)) => Err(
                ParseErrorView::UnrecognizedLine(line),
            ),
            Ok(LineView::Instruction(instruction)) => if terminated {
                Ok(self.with_instruction(instruction))
            } else {
                Err(ParseErrorView::UnrecognizedLine(text))
            },
            Ok(LineView::Label(name)) => if terminated {
                Ok(self.with_label(name))
            } else {
                Err(ParseErrorView::UnrecognizedLine(text))
            },
            Err(ParseErrorView::ParseHackIntError(e)) => if terminated {
                Ok(self.with_number_error(e))
            } else {
                Err(ParseErrorView::UnrecognizedLine(text))
            },
        }
    }

    /// What the parser has found, unless a number was out of range.
    pub open spec fn finish(self) -> Result<ParserOutputView, ParseErrorView> {
        match self.number_error {
            Some(e) => Err(ParseErrorView::ParseHackIntError(e)),
            None => Ok(self.output),
        }
    }
}

/// Where the line that begins at `start` ends: at the next line break, or
/// at the end of the text.
pub open spec fn line_end(text: Seq<char>, start: int) -> int {
    start + prefix_len(text.skip(start), |c: char| c != '\n')
}

/// The parser that has read the lines of `text` from the position `start`
/// on, when it was in the state `state` before them. A line break closes
/// a line; what follows the last one is a line that is not closed.
pub open spec fn read_from(text: Seq<char>, start: int, state: ParserView) -> Result<
    ParserView,
    ParseErrorView,
>
    decreases text.len() - start,
{
    if 0 <= start <= text.len() {
        let end = line_end(text, start);
        let line = text.subrange(start, end);
        let terminated = end < text.len();
        match state.feed_line(trim_start(line), line, terminated) {
            Ok(next) => if terminated {
                read_from(text, end + 1, next)
            } else {
                Ok(next)
            },
            Err(e) => Err(e),
        }
    } else {
        Ok(state)
    }
}

/// What the parser makes of a text.
pub open spec fn parse_text(text: Seq<char>) -> Result<ParserOutputView, ParseErrorView> {
    match read_from(text, 0, ParserView::initial()) {
        Ok(state) => state.finish(),
        Err(e) => Err(e),
    }
}

/// The parser, fed line by line.
pub struct HackParser {
    instructions: Vec<ParsedInstruction>,
    labels: Vec<(Label, usize)>,
    number_error: Option<ParseHackIntError>,
}

impl View for HackParser {
    type V = ParserView;

    closed spec fn view(&self) -> ParserView {
        ParserView {
            output: ParserOutputView {
                instructions: instructions_view(self.instructions@),
                labels: labels_view(self.labels@),
            },
            number_error: self.number_error,
        }
    }
}

impl HackParser {
    /// A parser that has read nothing.
    pub fn new() -> (result: Self)
        ensures
            result@ == ParserView::initial(),
    {
        let result = HackParser {
            instructions: Vec::new(),
            labels: Vec::new(),
            number_error: None,
        };
        assert(instructions_view(result.instructions@) =~= Seq::empty());
        assert(labels_view(result.labels@) =~= Seq::empty());
        result
    }

    /// Reads one line. `terminated` says whether a line break follows it.
    /// Fails, and changes nothing, where the line is not well formed.
    pub fn feed_line(&mut self, line: ProgramLine, terminated: bool) -> (result: Result<
        (),
        ParseError,
    >)
        ensures
            match result {
                Ok(()) => old(self)@.feed_line(line@, line.line_text(), terminated) == Ok::<
                    ParserView,
                    ParseErrorView,
                >(final(self)@),
                Err(e) => old(self)@.feed_line(line@, line.line_text(), terminated) == Err::<
                    ParserView,
                    ParseErrorView,
                >(e@) && final(self)@ == old(self)@,
            },
    {
        let kind = line.line_type();
        if kind == LineType::Other {
            return Ok(());
        }
        let text = line.line();
        match kind {
            LineType::AInstruction => {
                match a_instruction(line) {
                    Ok(instruction) => {
                        if !terminated {
                            return Err(ParseError::UnrecognizedLine(text));
                        }
                        self.push_instruction(instruction);
                        Ok(())
                    },
                    Err(ParseError::ParseHackIntError(e)) => {
                        if !terminated {
                            return Err(ParseError::UnrecognizedLine(text));
                        }
                        if self.number_error.is_none() {
                            self.number_error = Some(e);
                        }
                        Ok(())
                    },
                    Err(e) => Err(e),
                }
            },
            LineType::CInstruction => {
                match c_instruction(line) {
                    Ok(instruction) => {
                        if !terminated {
                            return Err(ParseError::UnrecognizedLine(text));
                        }
                        self.push_instruction(instruction);
                        Ok(())
                    },
                    Err(e) => Err(e),
                }
            },
            _ => {
                match label(line) {
                    Ok(label) => {
                        if !terminated {
                            return Err(ParseError::UnrecognizedLine(text));
                        }
                        let ghost before = labels_view(self.labels@);
                        let index = self.instructions.len();
                        let ghost name = label@;
                        self.labels.push((label, index));
                        assert(labels_view(self.labels@) =~= before.push((name, index as int)));
                        Ok(())
                    },
                    Err(e) => Err(e),
                }
            },
        }
    }

    /// Appends an instruction to those found.
    fn push_instruction(&mut self, instruction: ParsedInstruction)
        ensures
            final(self)@ == old(self)@.with_instruction(instruction@),
    {
        let ghost before = instructions_view(self.instructions@);
        let ghost pushed = instruction@;
        self.instructions.push(instruction);
        assert(instructions_view(self.instructions@) =~= before.push(pushed));
    }

    /// What the parser has found. Fails where a number was out of range.
    pub fn finish(self) -> (result: Result<ParserOutput, ParseError>)
        ensures
            match result {
                Ok(output) => self@.finish() == Ok::<ParserOutputView, ParseErrorView>(output@),
                Err(e) => self@.finish() == Err::<ParserOutputView, ParseErrorView>(e@),
            },
    {
        match self.number_error {
            Some(e) => Err(ParseError::ParseHackIntError(e)),
            None => Ok(ParserOutput { instructions: self.instructions, labels: self.labels }),
        }
    }
}

/// Parses a source text: its instructions and labels, or the first line
/// that is not well formed, or else the first number that is out of
/// range. Every instruction that is found can be encoded.
pub fn parse_str(input: &str) -> (result: Result<ParserOutput, ParseError>)
    ensures
        match result {
            Ok(output) => parse_text(input@) == Ok::<ParserOutputView, ParseErrorView>(output@)
                && output@.is_encodable(),
            Err(e) => parse_text(input@) == Err::<ParserOutputView, ParseErrorView>(e@),
        },
{
    let text = to_chars(input);
    let mut parser = HackParser::new();
    let mut start: usize = 0;
    loop
        invariant
            start <= text.len(),
            text@ == input@,
            read_from(input@, 0, ParserView::initial()) == read_from(
                text@,
                start as int,
                parser@,
            ),
        decreases text.len() - start,
    {
        let mut end: usize = start;
        while end < text.len() && text[end] != '\n'
            invariant
                start <= end <= text.len(),
                forall|i: int| start <= i < end ==> text@[i] != '\n',
            decreases text.len() - end,
        {
            end += 1;
        }
        proof {
            let rest = text@.skip(start as int);
            assert forall|i: int| 0 <= i < end - start implies #[trigger] rest[i] != '\n' by {
                assert(rest[i] == text@[start + i]);
            }
            lemma_prefix_len(rest, |c: char| c != '\n', end - start);
        }
        let line = ProgramLine::new(copy_range(&text, start, end));
        let terminated = end < text.len();
        match parser.feed_line(line, terminated) {
            Ok(()) => {},
            Err(e) => {
                return Err(e);
            },
        }
        if !terminated {
            proof {
                lemma_parsed_is_encodable(input@);
            }
            return parser.finish();
        }
        start = end + 1;
    }
}

/// A line that is well formed holds, if an instruction, one that can be
/// encoded.
pub proof fn lemma_line_is_encodable(rest: Seq<char>, text: Seq<char>)
    ensures
        line_spec(rest, text) matches Ok(LineView::Instruction(instruction))
            ==> instruction.is_encodable(),
{
}

/// Whatever the parser makes of a text, every instruction of it can be
/// encoded.
pub proof fn lemma_parsed_is_encodable(text: Seq<char>)
    ensures
        parse_text(text) matches Ok(output) ==> output.is_encodable(),
{
    lemma_read_is_encodable(text, 0, ParserView::initial());
}

/// Reading on from a state whose instructions can be encoded leads to a
/// state whose instructions can be encoded.
pub proof fn lemma_read_is_encodable(text: Seq<char>, start: int, state: ParserView)
    requires
        state.output.is_encodable(),
    ensures
        read_from(text, start, state) matches Ok(after) ==> after.output.is_encodable(),
    decreases text.len() - start,
{
    if 0 <= start <= text.len() {
        let end = line_end(text, start);
        let line = text.subrange(start, end);
        let terminated = end < text.len();
        lemma_line_is_encodable(trim_start(line), line);
        match state.feed_line(trim_start(line), line, terminated) {
            Ok(next) => {
                assert(next.output.is_encodable());
                if terminated {
                    lemma_read_is_encodable(text, end + 1, next);
                }
            },
            Err(e) => {},
        }
    }
}

/// A line in a text that ends with a line break ends where it ends in
/// that text alone, whatever follows the text.
pub proof fn lemma_line_end_in_prefix(before: Seq<char>, rest: Seq<char>, start: int)
    requires
        0 <= start < before.len(),
        before.last() == '\n',
    ensures
        line_end(before + rest, start) == line_end(before, start),
        line_end(before, start) < before.len(),
        before[line_end(before, start)] == '\n',
{
    let p = |c: char| c != '\n';
    let tail = before.skip(start);
    let n = prefix_len(tail, p) as int;
    lemma_prefix_len_properties(tail, p);
    if n == tail.len() {
        assert(p(tail[n - 1]));
        assert(tail[n - 1] == before.last());
    }
    let longer = (before + rest).skip(start);
    assert forall|i: int| 0 <= i < n implies p(#[trigger] longer[i]) by {
        assert(longer[i] == tail[i]);
    }
    assert(longer[n] == tail[n]);
    lemma_prefix_len(longer, p, n);
    assert(tail[n] == before[start + n]);
}

/// To read a text that ends with a line break, and what follows it, is to
/// read the text and then to read on behind it.
pub proof fn lemma_read_concat(before: Seq<char>, rest: Seq<char>, start: int, state: ParserView)
    requires
        0 <= start <= before.len(),
        before.len() == 0 || before.last() == '\n',
    ensures
        read_from(before + rest, start, state) == match read_from(before, start, state) {
            Ok(after) => read_from(before + rest, before.len() as int, after),
            Err(e) => Err(e),
        },
    decreases before.len() - start,
{
    let text = before + rest;
    if start == before.len() {
        let p = |c: char| c != '\n';
        assert(before.skip(start).len() == 0);
        assert(prefix_len(before.skip(start), p) == 0);
        let line = before.subrange(start, start);
        assert(line.len() == 0);
        assert(prefix_len(line, |c: char| is_whitespace(c)) == 0);
        assert(trim_start(line) =~= line);
        assert(read_from(before, start, state) == Ok::<ParserView, ParseErrorView>(state));
    } else {
        lemma_line_end_in_prefix(before, rest, start);
        let end = line_end(before, start);
        assert(text.subrange(start, end) =~= before.subrange(start, end));
        let line = before.subrange(start, end);
        match state.feed_line(trim_start(line), line, true) {
            Ok(next) => {
                lemma_read_concat(before, rest, end + 1, next);
            },
            Err(e) => {},
        }
    }
}

/// Reading on loses nothing: what the parser had found stands first in
/// what it has found afterwards.
pub proof fn lemma_read_extends(text: Seq<char>, start: int, state: ParserView)
    ensures
        read_from(text, start, state) matches Ok(after) ==> {
            &&& state.output.labels.len() <= after.output.labels.len()
            &&& after.output.labels.take(state.output.labels.len() as int)
                == state.output.labels
            &&& state.output.instructions.len() <= after.output.instructions.len()
            &&& after.output.instructions.take(state.output.instructions.len() as int)
                == state.output.instructions
        },
    decreases text.len() - start,
{
    assert(state.output.labels.take(state.output.labels.len() as int) =~= state.output.labels);
    assert(state.output.instructions.take(state.output.instructions.len() as int)
        =~= state.output.instructions);
    if 0 <= start <= text.len() {
        let end = line_end(text, start);
        let line = text.subrange(start, end);
        let terminated = end < text.len();
        match state.feed_line(trim_start(line), line, terminated) {
            Ok(next) => {
                assert(next.output.labels.take(state.output.labels.len() as int)
                    =~= state.output.labels);
                assert(next.output.instructions.take(state.output.instructions.len() as int)
                    =~= state.output.instructions);
                if terminated {
                    lemma_read_extends(text, end + 1, next);
                    match read_from(text, end + 1, next) {
                        Ok(after) => {
                            assert(after.output.labels.take(state.output.labels.len() as int)
                                =~= after.output.labels.take(
                                next.output.labels.len() as int,
                            ).take(state.output.labels.len() as int));
                            assert(after.output.instructions.take(
                                state.output.instructions.len() as int,
                            ) =~= after.output.instructions.take(
                                next.output.instructions.len() as int,
                            ).take(state.output.instructions.len() as int));
                        },
                        Err(e) => {},
                    }
                }
            },
            Err(e) => {},
        }
    }
}

/// The line that writes a label holds that label.
pub proof fn lemma_label_line(name: Seq<char>)
    requires
        is_symbol(name),
    ensures
        trim_start(label_text(name)) == label_text(name),
        line_spec(label_text(name), label_text(name)) == Ok::<LineView, ParseErrorView>(
            LineView::Label(name),
        ),
{
    let line = label_text(name);
    assert(line[0] == '(');
    assert(prefix_len(line, |c: char| is_whitespace(c)) == 0);
    assert(trim_start(line) =~= line);
    assert(line + Seq::<char>::empty() =~= line);
    assert(is_comment_or_empty(Seq::<char>::empty())) by {
        assert(prefix_len(Seq::<char>::empty(), |c: char| is_whitespace(c)) == 0);
    }
    law_written_label_is_read(name, Seq::empty(), line);
}

/// A label holds the number of the instructions that stand before its
/// line: none before the first instruction, `k` behind `k` instructions,
/// however many labels stand there with it, and whatever follows.
pub proof fn law_label_holds_the_number_of_instructions_before_it(
    before: Seq<char>,
    name: Seq<char>,
    after: Seq<char>,
)
    requires
        before.len() == 0 || before.last() == '\n',
        parse_text(before) is Ok,
        is_symbol(name),
    ensures
        ({
            let found = parse_text(before)->Ok_0;
            let text = before + label_text(name) + seq!['\n'] + after;
            parse_text(text) matches Ok(output) ==> {
                &&& found.labels.len() < output.labels.len()
                &&& output.labels[found.labels.len() as int] == (
                    name,
                    found.instructions.len() as int,
                )
                &&& output.labels.take(found.labels.len() as int) == found.labels
                &&& output.instructions.take(found.instructions.len() as int)
                    == found.instructions
            }
        }),
{
    let line = label_text(name);
    let text = before + line + seq!['\n'] + after;
    let initial = ParserView::initial();
    let p = |c: char| c != '\n';
    // The text before the label is read as it is read alone.
    lemma_read_concat(before, line + seq!['\n'] + after, 0, initial);
    assert(before + (line + seq!['\n'] + after) =~= text);
    let middle = read_from(before, 0, initial)->Ok_0;
    // The next line is the label's.
    let start = before.len() as int;
    let tail = text.skip(start);
    assert forall|i: int| 0 <= i < line.len() implies p(#[trigger] tail[i]) by {
        assert(tail[i] == line[i]);
        if 0 < i < line.len() - 1 {
            assert(line[i] == name[i - 1]);
            assert(is_symbol_char(name[i - 1]));
        }
    }
    assert(tail[line.len() as int] == '\n');
    lemma_prefix_len(tail, p, line.len() as int);
    let end = line_end(text, start);
    assert(text.subrange(start, end) =~= line);
    lemma_label_line(name);
    let next = middle.feed_line(line, line, true)->Ok_0;
    assert(next.output.labels[middle.output.labels.len() as int] == (
        name,
        middle.output.instructions.len() as int,
    ));
    assert(next.output.labels.take(middle.output.labels.len() as int)
        =~= middle.output.labels);
    // What follows only adds to what was found.
    lemma_read_extends(text, end + 1, next);
    match read_from(text, end + 1, next) {
        Ok(last) => {
            let at = middle.output.labels.len() as int;
            assert(last.output.labels.take(next.output.labels.len() as int)[at]
                == last.output.labels[at]);
            assert(last.output.labels.take(middle.output.labels.len() as int)
                =~= last.output.labels.take(next.output.labels.len() as int).take(
                middle.output.labels.len() as int,
            ));
        },
        Err(e) => {},
    }
}

/// The number of an A-instruction that is read lies within the bound.
pub proof fn lemma_line_number_is_address(rest: Seq<char>, text: Seq<char>)
    ensures
        line_spec(rest, text) matches Ok(
            LineView::Instruction(ParsedInstructionView::AInstruction(AValueView::Literal(number))),
        ) ==> 0 <= number <= HACK_INT_MAX,
{
    if line_spec(rest, text) matches Ok(
        LineView::Instruction(ParsedInstructionView::AInstruction(AValueView::Literal(number))),
    ) {
        let value = rest.skip(1);
        lemma_prefix_len_properties(value, |c: char| is_digit(c));
        let digits = digits_spec(value).value;
        assert forall|i: int| 0 <= i < digits.len() implies is_digit(#[trigger] digits[i]) by {
            assert(digits[i] == value[i]);
        }
        law_digits_write_a_number(digits);
    }
}

/// Reading on from a state whose numbers are addresses leads to a state
/// whose numbers are addresses.
pub proof fn lemma_read_has_addresses(text: Seq<char>, start: int, state: ParserView)
    requires
        state.output.has_addresses(),
    ensures
        read_from(text, start, state) matches Ok(after) ==> after.output.has_addresses(),
    decreases text.len() - start,
{
    if 0 <= start <= text.len() {
        let end = line_end(text, start);
        let line = text.subrange(start, end);
        let terminated = end < text.len();
        lemma_line_number_is_address(trim_start(line), line);
        match state.feed_line(trim_start(line), line, terminated) {
            Ok(next) => {
                assert(next.output.has_addresses());
                if terminated {
                    lemma_read_has_addresses(text, end + 1, next);
                }
            },
            Err(e) => {},
        }
    }
}

/// Whatever the parser makes of a text, the number of every A-instruction
/// lies within the bound, and no label holds less than zero.
pub proof fn lemma_parsed_has_addresses(text: Seq<char>)
    ensures
        parse_text(text) matches Ok(output) ==> output.has_addresses(),
{
    lemma_read_has_addresses(text, 0, ParserView::initial());
}

} // verus!
