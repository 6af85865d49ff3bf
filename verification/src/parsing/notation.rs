//! The notation of instructions and labels, and that the parser reads
//! exactly it.
//!
//! A C-instruction is written `dest=comp;jump`: the letters of the
//! destinations and `=` where there are destinations, the computation,
//! and `;` and the mnemonic where there is a jump. An A-instruction is
//! written `@` and a symbol or decimal digits, a label `(`, a symbol and
//! `)`. The letters of registers and jumps may be small as well as
//! capital. The parser reads an instruction or a label from a line if and
//! only if the line begins with what writes it and goes on with nothing
//! but a comment.

use super::c_instruction::{
    binary_spec, c_comp_spec, c_dest_spec, c_instruction_spec, c_jump_spec, register_spec,
    unary_spec,
};
use super::a_instruction::a_instruction_spec;
use super::label::label_spec;
use super::symbol::{
    digits_spec, is_symbol, is_symbol_char, lemma_read_symbol_is_symbol, lemma_symbol_is_read,
    symbol_spec,
};
use super::{ParseErrorView, Parsed};
use crate::hack_int::{
    all_digits, decimal_value, law_digits_write_a_number, parse_spec, ParseHackIntError,
    HACK_INT_MAX,
};
use crate::instructions::{AValueView, CInstructionView, Computation, JumpType, Register};
use crate::text::{
    capitals, is_comment_or_empty, is_digit, is_whitespace, lemma_prefix_len,
    lemma_prefix_len_properties, prefix_len, trim_start,
};
use vstd::prelude::*;

verus! {

/// The letter that names a register.
pub open spec fn register_letter(register: Register) -> char {
    match register {
        Register::A => 'A',
        Register::M => 'M',
        Register::D => 'D',
    }
}

/// The sign of a computation on two registers, and the two registers.
pub open spec fn operation_parts(computation: Computation) -> Option<(char, Register, Register)> {
    match computation {
        Computation::Add(left, right) => Some(('+', left, right)),
        Computation::Sub(left, right) => Some(('-', left, right)),
        Computation::And(left, right) => Some(('&', left, right)),
        Computation::Or(left, right) => Some(('|', left, right)),
        _ => None,
    }
}

/// What writes a computation that the machine knows.
pub open spec fn computation_text(computation: Computation) -> Seq<char> {
    match computation {
        Computation::Literal(value) => if value == 0 {
            seq!['0']
        } else if value == 1 {
            seq!['1']
        } else {
            seq!['-', '1']
        },
        Computation::Identity(register) => seq![register_letter(register)],
        Computation::Not(register) => seq!['!', register_letter(register)],
        Computation::Neg(register) => seq!['-', register_letter(register)],
        Computation::Inc(register) => seq![register_letter(register), '+', '1'],
        Computation::Dec(register) => seq![register_letter(register), '-', '1'],
        _ => {
            let (sign, left, right) = operation_parts(computation)->0;
            seq![register_letter(left), sign, register_letter(right)]
        },
    }
}

/// What writes a jump: `;` and the mnemonic.
pub open spec fn jump_text(jump: JumpType) -> Seq<char> {
    match jump {
        JumpType::Jmp => seq![';', 'J', 'M', 'P'],
        JumpType::Jgt => seq![';', 'J', 'G', 'T'],
        JumpType::Jeq => seq![';', 'J', 'E', 'Q'],
        JumpType::Jlt => seq![';', 'J', 'L', 'T'],
        JumpType::Jge => seq![';', 'J', 'G', 'E'],
        JumpType::Jle => seq![';', 'J', 'L', 'E'],
        JumpType::Jne => seq![';', 'J', 'N', 'E'],
    }
}

/// What writes a list of destinations: their letters and `=`.
pub open spec fn destination_text(destinations: Seq<Register>) -> Seq<char> {
    Seq::new(destinations.len(), |i: int| register_letter(destinations[i])) + seq!['=']
}

/// What writes a C-instruction.
pub open spec fn c_instruction_text(instruction: CInstructionView) -> Seq<char> {
    (match instruction.destination {
        Some(destinations) => destination_text(destinations),
        None => Seq::empty(),
    }) + computation_text(instruction.computation) + (match instruction.jump {
        Some(jump) => jump_text(jump),
        None => Seq::empty(),
    })
}

/// Whether a C-instruction can be written: the machine knows its
/// computation, and it has one to three destinations or none.
pub open spec fn is_writable(instruction: CInstructionView) -> bool {
    &&& instruction.computation.is_legal()
    &&& instruction.destination matches Some(destinations) ==> 1 <= destinations.len() <= 3
}

/// Whether `rest` can stand behind an instruction: it is empty, or begins
/// with white space or with a comment.
pub open spec fn is_trailer(rest: Seq<char>) -> bool {
    rest.len() == 0 || is_whitespace(rest[0]) || (rest.len() >= 2 && rest[0] == '/' && rest[1]
        == '/')
}

/// Nothing but a comment is left in a text exactly when it can stand
/// behind an instruction and nothing but a comment is left in it.
pub proof fn lemma_comment_is_trailer(rest: Seq<char>)
    ensures
        is_comment_or_empty(rest) ==> is_trailer(rest),
{
    if rest.len() > 0 && !is_whitespace(rest[0]) {
        assert(prefix_len(rest, |c: char| is_whitespace(c)) == 0);
        assert(trim_start(rest) =~= rest);
    }
}

/// Whether `rest` begins with `text`, its letters capital or small, and
/// goes on with `behind`.
pub open spec fn is_written_as(rest: Seq<char>, text: Seq<char>, behind: Seq<char>) -> bool {
    &&& text.len() <= rest.len()
    &&& capitals(rest.take(text.len() as int)) =~= text
    &&& rest.skip(text.len() as int) =~= behind
}

/// What is written in two parts is written as the two together.
pub proof fn lemma_written_in_parts(
    rest: Seq<char>,
    first: Seq<char>,
    middle: Seq<char>,
    second: Seq<char>,
    behind: Seq<char>,
)
    requires
        is_written_as(rest, first, middle),
        is_written_as(middle, second, behind),
    ensures
        is_written_as(rest, first + second, behind),
{
    let both = first + second;
    let start = rest.take(both.len() as int);
    assert forall|i: int| 0 <= i < both.len() implies capitals(start)[i] == both[i] by {
        if i < first.len() {
            assert(capitals(rest.take(first.len() as int))[i] == first[i]);
        } else {
            assert(middle[i - first.len()] == rest[i]);
            assert(capitals(middle.take(second.len() as int))[i - first.len()] == second[i
                - first.len()]);
        }
    }
}

/// The destinations that are read are written at the start of the text.
pub proof fn lemma_destination_is_written(rest: Seq<char>)
    ensures
        c_dest_spec(rest) matches Some(parsed) ==> {
            &&& 1 <= parsed.value.len() <= 3
            &&& is_written_as(rest, destination_text(parsed.value), parsed.rest)
        },
{
}

/// What writes destinations is read as these destinations.
pub proof fn lemma_destination_is_read(destinations: Seq<Register>, rest: Seq<char>)
    requires
        1 <= destinations.len() <= 3,
    ensures
        c_dest_spec(destination_text(destinations) + rest) == Some(
            Parsed { value: destinations, rest },
        ),
{
    let text = destination_text(destinations) + rest;
    let n = destinations.len() as int;
    assert forall|i: int| 0 <= i < n implies register_spec(#[trigger] text[i]) == Some(
        destinations[i],
    ) by {
        assert(text[i] == register_letter(destinations[i]));
    }
    assert(text[n] == '=');
    assert(text[0] == register_letter(destinations[0]));
    if n >= 2 {
        assert(text[1] == register_letter(destinations[1]));
    }
    if n >= 3 {
        assert(text[2] == register_letter(destinations[2]));
    }
    let parsed = c_dest_spec(text)->0;
    assert(parsed.value =~= destinations);
    assert(parsed.rest =~= rest);
}

/// The computation that is read is one that the machine knows, and is
/// written at the start of the text.
pub proof fn lemma_computation_is_written(rest: Seq<char>)
    ensures
        c_comp_spec(rest) matches Some(parsed) ==> {
            &&& parsed.value.is_legal()
            &&& is_written_as(rest, computation_text(parsed.value), parsed.rest)
        },
{
}

/// Whether `rest` can stand behind a computation: it is empty, begins a
/// jump with `;`, or can stand behind an instruction.
pub open spec fn ends_computation(rest: Seq<char>) -> bool {
    rest.len() == 0 || rest[0] == ';' || is_trailer(rest)
}

/// The characters of a text that begins with a computation.
proof fn lemma_computation_characters(computation: Computation, rest: Seq<char>)
    requires
        computation.is_legal(),
    ensures
        ({
            let written = computation_text(computation);
            let text = written + rest;
            &&& 1 <= written.len() <= 3
            &&& text.len() == written.len() + rest.len()
            &&& text[0] == written[0]
            &&& written.len() >= 2 ==> text[1] == written[1]
            &&& written.len() >= 3 ==> text[2] == written[2]
            &&& rest.len() > 0 ==> text[written.len() as int] == rest[0]
            &&& text.skip(written.len() as int) == rest
        }),
{
    let written = computation_text(computation);
    let text = written + rest;
    assert(text.skip(written.len() as int) =~= rest);
}

/// What writes a computation begins with no destinations, where no sign
/// or letter follows it.
pub proof fn lemma_computation_is_no_destination(computation: Computation, rest: Seq<char>)
    requires
        computation.is_legal(),
        ends_computation(rest),
    ensures
        c_dest_spec(computation_text(computation) + rest) is None,
{
    lemma_computation_characters(computation, rest);
}

/// What writes a computation on two registers is read as this
/// computation.
proof fn lemma_binary_is_read(computation: Computation, rest: Seq<char>)
    requires
        computation.is_legal(),
        operation_parts(computation) is Some,
    ensures
        binary_spec(computation_text(computation) + rest) == Some(
            Parsed { value: computation, rest },
        ),
{
    lemma_computation_characters(computation, rest);
}

/// What writes a computation on one register is read as this
/// computation, where no sign or letter follows it.
proof fn lemma_unary_is_read(computation: Computation, rest: Seq<char>)
    requires
        computation.is_legal(),
        ends_computation(rest),
        computation is Not || computation is Neg || computation is Inc || computation is Dec,
    ensures
        binary_spec(computation_text(computation) + rest) is None,
        unary_spec(computation_text(computation) + rest) == Some(
            Parsed { value: computation, rest },
        ),
{
    lemma_computation_characters(computation, rest);
}

/// What writes a constant or a register alone is read as this
/// computation, where no sign or letter follows it.
proof fn lemma_constant_is_read(computation: Computation, rest: Seq<char>)
    requires
        computation.is_legal(),
        ends_computation(rest),
        computation is Literal || computation is Identity,
    ensures
        binary_spec(computation_text(computation) + rest) is None,
        unary_spec(computation_text(computation) + rest) is None,
        c_comp_spec(computation_text(computation) + rest) == Some(
            Parsed { value: computation, rest },
        ),
{
    lemma_computation_characters(computation, rest);
}

/// What writes a computation is read as this computation, where no sign
/// or letter follows it that would make it another.
pub proof fn lemma_computation_is_read(computation: Computation, rest: Seq<char>)
    requires
        computation.is_legal(),
        ends_computation(rest),
    ensures
        c_comp_spec(computation_text(computation) + rest) == Some(
            Parsed { value: computation, rest },
        ),
{
    match computation {
        Computation::Literal(_) | Computation::Identity(_) => {
            lemma_constant_is_read(computation, rest);
        },
        Computation::Not(_) | Computation::Neg(_) | Computation::Inc(_) | Computation::Dec(_) => {
            lemma_unary_is_read(computation, rest);
        },
        _ => {
            lemma_binary_is_read(computation, rest);
        },
    }
}

/// The jump that is read is written at the start of the text.
pub proof fn lemma_jump_is_written(rest: Seq<char>)
    ensures
        c_jump_spec(rest) matches Some(parsed) ==> is_written_as(
            rest,
            jump_text(parsed.value),
            parsed.rest,
        ),
{
}

/// What writes a jump is read as this jump, and what can stand behind an
/// instruction is read as none.
pub proof fn lemma_jump_is_read(jump: JumpType, rest: Seq<char>)
    ensures
        c_jump_spec(jump_text(jump) + rest) == Some(Parsed { value: jump, rest }),
        is_trailer(rest) ==> c_jump_spec(rest) is None,
{
    let written = jump_text(jump);
    let text = written + rest;
    assert(text[0] == written[0]);
    assert(text[1] == written[1]);
    assert(text[2] == written[2]);
    assert(text[3] == written[3]);
    assert(text.skip(4) =~= rest);
}

/// A line is read as the instruction of its three parts.
proof fn lemma_whole_is_read(
    line: Seq<char>,
    text: Seq<char>,
    behind_destination: Seq<char>,
    behind_computation: Seq<char>,
    trailer: Seq<char>,
    instruction: CInstructionView,
)
    requires
        c_dest_spec(line) == (match instruction.destination {
            Some(destinations) => Some(Parsed { value: destinations, rest: behind_destination }),
            None => None,
        }),
        instruction.destination is None ==> behind_destination == line,
        c_comp_spec(behind_destination) == Some(
            Parsed { value: instruction.computation, rest: behind_computation },
        ),
        c_jump_spec(behind_computation) == (match instruction.jump {
            Some(jump) => Some(Parsed { value: jump, rest: trailer }),
            None => None,
        }),
        instruction.jump is None ==> trailer == behind_computation,
        is_comment_or_empty(trailer),
    ensures
        c_instruction_spec(line, text) == Ok::<CInstructionView, ParseErrorView>(instruction),
{
}

/// What writes a C-instruction, with nothing but a comment behind it, is
/// read as this instruction.
pub proof fn law_written_instruction_is_read(
    instruction: CInstructionView,
    trailer: Seq<char>,
    text: Seq<char>,
)
    requires
        is_writable(instruction),
        is_comment_or_empty(trailer),
    ensures
        c_instruction_spec(c_instruction_text(instruction) + trailer, text) == Ok::<
            CInstructionView,
            ParseErrorView,
        >(instruction),
{
    lemma_comment_is_trailer(trailer);
    let computation = computation_text(instruction.computation);
    let jump = match instruction.jump {
        Some(jump) => jump_text(jump),
        None => Seq::empty(),
    };
    let line = c_instruction_text(instruction) + trailer;
    let behind_computation = jump + trailer;
    let behind_destination = computation + behind_computation;
    match instruction.jump {
        Some(j) => {
            lemma_jump_is_read(j, trailer);
            assert(behind_computation[0] == ';');
        },
        None => {
            lemma_jump_is_read(JumpType::Jmp, trailer);
            assert(behind_computation =~= trailer);
        },
    }
    lemma_computation_is_read(instruction.computation, behind_computation);
    lemma_computation_is_no_destination(instruction.computation, behind_computation);
    match instruction.destination {
        Some(destinations) => {
            lemma_destination_is_read(destinations, behind_destination);
            assert(line =~= destination_text(destinations) + behind_destination);
        },
        None => {
            assert(line =~= behind_destination);
        },
    }
    lemma_whole_is_read(
        line,
        text,
        behind_destination,
        behind_computation,
        trailer,
        instruction,
    );
}

/// A line from which a C-instruction is read begins with what writes the
/// instruction, its letters capital or small, and goes on with nothing
/// but a comment.
pub proof fn law_read_instruction_is_written(rest: Seq<char>, text: Seq<char>)
    ensures
        c_instruction_spec(rest, text) matches Ok(instruction) ==> {
            &&& is_writable(instruction)
            &&& is_written_as(
                rest,
                c_instruction_text(instruction),
                rest.skip(c_instruction_text(instruction).len() as int),
            )
            &&& is_comment_or_empty(rest.skip(c_instruction_text(instruction).len() as int))
        },
{
    if let Ok(instruction) = c_instruction_spec(rest, text) {
        let destination = c_dest_spec(rest);
        let behind_destination = match destination {
            Some(parsed) => parsed.rest,
            None => rest,
        };
        let computation = c_comp_spec(behind_destination);
        let behind_computation = computation->0.rest;
        let jump = c_jump_spec(behind_computation);
        let trailer = match jump {
            Some(parsed) => parsed.rest,
            None => behind_computation,
        };
        let written_destination = match instruction.destination {
            Some(destinations) => destination_text(destinations),
            None => Seq::empty(),
        };
        let written_jump = match instruction.jump {
            Some(jump) => jump_text(jump),
            None => Seq::empty(),
        };
        lemma_destination_is_written(rest);
        lemma_computation_is_written(behind_destination);
        lemma_jump_is_written(behind_computation);
        assert(is_written_as(rest, written_destination, behind_destination));
        assert(is_written_as(behind_computation, written_jump, trailer));
        lemma_written_in_parts(
            rest,
            written_destination,
            behind_destination,
            computation_text(instruction.computation),
            behind_computation,
        );
        lemma_written_in_parts(
            rest,
            written_destination + computation_text(instruction.computation),
            behind_computation,
            written_jump,
            trailer,
        );
    }
}

/// What writes a label: the name between brackets.
pub open spec fn label_text(name: Seq<char>) -> Seq<char> {
    seq!['('] + name + seq![')']
}

/// What writes an A-instruction that loads a symbol or a number written
/// with the digits `value`.
pub open spec fn a_instruction_text(value: Seq<char>) -> Seq<char> {
    seq!['@'] + value
}

/// What can stand behind an instruction cannot stand in a symbol or in a
/// number.
pub proof fn lemma_trailer_ends_a_word(rest: Seq<char>)
    requires
        is_trailer(rest),
    ensures
        rest.len() == 0 || (!is_symbol_char(rest[0]) && !is_digit(rest[0])),
{
}

/// What writes a label, with nothing but a comment behind it, is read as
/// this label.
pub proof fn law_written_label_is_read(name: Seq<char>, trailer: Seq<char>, text: Seq<char>)
    requires
        is_symbol(name),
        is_comment_or_empty(trailer),
    ensures
        label_spec(label_text(name) + trailer, text) == Ok::<Seq<char>, ParseErrorView>(name),
{
    let line = label_text(name) + trailer;
    let behind_name = seq![')'] + trailer;
    assert(line[0] == '(');
    assert(line.skip(1) =~= name + behind_name);
    assert(behind_name[0] == ')');
    lemma_symbol_is_read(name, behind_name);
    assert(behind_name.skip(1) =~= trailer);
}

/// A line from which a label is read begins with what writes the label
/// and goes on with nothing but a comment.
pub proof fn law_read_label_is_written(rest: Seq<char>, text: Seq<char>)
    ensures
        label_spec(rest, text) matches Ok(name) ==> {
            &&& is_symbol(name)
            &&& label_text(name).len() <= rest.len()
            &&& rest.take(label_text(name).len() as int) == label_text(name)
            &&& is_comment_or_empty(rest.skip(label_text(name).len() as int))
        },
{
    if let Ok(name) = label_spec(rest, text) {
        lemma_read_symbol_is_symbol(rest.skip(1));
        let behind_name = symbol_spec(rest.skip(1))->0.rest;
        let written = label_text(name);
        assert(rest =~= seq!['('] + rest.skip(1));
        assert(behind_name =~= seq![')'] + behind_name.skip(1));
        assert(rest =~= written + behind_name.skip(1));
        assert(rest.take(written.len() as int) =~= written);
        assert(rest.skip(written.len() as int) =~= behind_name.skip(1));
    }
}

/// What writes an A-instruction with a symbol, with nothing but a comment
/// behind it, is read as the instruction that loads this symbol.
pub proof fn law_written_symbol_is_read(name: Seq<char>, trailer: Seq<char>, text: Seq<char>)
    requires
        is_symbol(name),
        is_comment_or_empty(trailer),
    ensures
        a_instruction_spec(a_instruction_text(name) + trailer, text) == Ok::<
            AValueView,
            ParseErrorView,
        >(AValueView::Symbol(name)),
{
    let line = a_instruction_text(name) + trailer;
    lemma_comment_is_trailer(trailer);
    lemma_trailer_ends_a_word(trailer);
    assert(line[0] == '@');
    assert(line.skip(1) =~= name + trailer);
    assert((name + trailer)[0] == name[0]);
    lemma_symbol_is_read(name, trailer);
}

/// What writes an A-instruction with a number, with nothing but a comment
/// behind it, is read as the instruction that loads this number, where
/// the number lies within the bound, and as the range error where it does
/// not.
pub proof fn law_written_number_is_read(digits: Seq<char>, trailer: Seq<char>, text: Seq<char>)
    requires
        digits.len() > 0,
        all_digits(digits),
        is_comment_or_empty(trailer),
    ensures
        a_instruction_spec(a_instruction_text(digits) + trailer, text) == if decimal_value(digits)
            > HACK_INT_MAX {
            Err::<AValueView, ParseErrorView>(
                ParseErrorView::ParseHackIntError(ParseHackIntError::SizeExceeded),
            )
        } else {
            Ok::<AValueView, ParseErrorView>(AValueView::Literal(decimal_value(digits)))
        },
{
    let line = a_instruction_text(digits) + trailer;
    let value = digits + trailer;
    lemma_comment_is_trailer(trailer);
    lemma_trailer_ends_a_word(trailer);
    law_digits_write_a_number(digits);
    assert(line[0] == '@');
    assert(line.skip(1) =~= value);
    assert forall|i: int| 0 <= i < digits.len() implies is_digit(#[trigger] value[i]) by {
        assert(value[i] == digits[i]);
    }
    if trailer.len() > 0 {
        assert(value[digits.len() as int] == trailer[0]);
    }
    lemma_prefix_len(value, |c: char| is_digit(c), digits.len() as int);
    assert(value.take(digits.len() as int) =~= digits);
    assert(value.skip(digits.len() as int) =~= trailer);
    assert(is_digit(value[0]));
}

/// A line from which an A-instruction is read begins with `@` and a
/// symbol, or with `@` and the digits of the number, and goes on with
/// nothing but a comment.
pub proof fn law_read_a_instruction_is_written(rest: Seq<char>, text: Seq<char>)
    ensures
        a_instruction_spec(rest, text) matches Ok(AValueView::Symbol(name)) ==> {
            &&& is_symbol(name)
            &&& a_instruction_text(name).len() <= rest.len()
            &&& rest.take(a_instruction_text(name).len() as int) == a_instruction_text(name)
            &&& is_comment_or_empty(rest.skip(a_instruction_text(name).len() as int))
        },
        a_instruction_spec(rest, text) matches Ok(AValueView::Literal(number)) ==> {
            let digits = digits_spec(rest.skip(1)).value;
            &&& digits.len() > 0
            &&& all_digits(digits)
            &&& parse_spec(digits) == Ok::<int, ParseHackIntError>(number)
            &&& a_instruction_text(digits).len() <= rest.len()
            &&& rest.take(a_instruction_text(digits).len() as int) == a_instruction_text(digits)
            &&& is_comment_or_empty(rest.skip(a_instruction_text(digits).len() as int))
        },
{
    match a_instruction_spec(rest, text) {
        Ok(AValueView::Symbol(name)) => {
            lemma_read_symbol_is_symbol(rest.skip(1));
            let trailer = symbol_spec(rest.skip(1))->0.rest;
            let written = a_instruction_text(name);
            assert(rest =~= seq!['@'] + rest.skip(1));
            assert(rest =~= written + trailer);
            assert(rest.take(written.len() as int) =~= written);
            assert(rest.skip(written.len() as int) =~= trailer);
        },
        Ok(AValueView::Literal(number)) => {
            let value = rest.skip(1);
            let parsed = digits_spec(value);
            lemma_prefix_len_properties(value, |c: char| is_digit(c));
            let written = a_instruction_text(parsed.value);
            assert(rest =~= seq!['@'] + value);
            assert(value =~= parsed.value + parsed.rest);
            assert(rest =~= written + parsed.rest);
            assert(rest.take(written.len() as int) =~= written);
            assert(rest.skip(written.len() as int) =~= parsed.rest);
            assert(is_digit(value[0]));
        },
        Err(e) => {},
    }
}

} // verus!
