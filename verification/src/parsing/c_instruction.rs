//! C-instruction lines: `dest=comp;jump`, of which `dest=` and `;jump`
//! may be left out. The letters of registers and jumps may be capital or
//! small.

use super::{ParseError, ParseErrorView, Parsed, ParsedInstruction};
use crate::instructions::{CInstruction, CInstructionView, Computation, JumpType, Register};
use crate::program_line::ProgramLine;
use crate::text::{capital, is_comment_or_empty, is_letter};
use vstd::prelude::*;

verus! {

/// The register that the letter `c` names, capital or small.
pub open spec fn register_spec(c: char) -> Option<Register> {
    if capital(c) == 'A' {
        Some(Register::A)
    } else if capital(c) == 'M' {
        Some(Register::M)
    } else if capital(c) == 'D' {
        Some(Register::D)
    } else {
        None
    }
}

/// The destinations with which `rest` begins: one to three register
/// letters, in any combination, and `=` behind them.
pub open spec fn c_dest_spec(rest: Seq<char>) -> Option<Parsed<Seq<Register>>> {
    if rest.len() >= 2 && register_spec(rest[0]) is Some && rest[1] == '=' {
        Some(Parsed { value: seq![register_spec(rest[0])->0], rest: rest.skip(2) })
    } else if rest.len() >= 3 && register_spec(rest[0]) is Some && register_spec(rest[1]) is Some
        && rest[2] == '=' {
        Some(
            Parsed {
                value: seq![register_spec(rest[0])->0, register_spec(rest[1])->0],
                rest: rest.skip(3),
            },
        )
    } else if rest.len() >= 4 && register_spec(rest[0]) is Some && register_spec(rest[1]) is Some
        && register_spec(rest[2]) is Some && rest[3] == '=' {
        Some(
            Parsed {
                value: seq![
                    register_spec(rest[0])->0,
                    register_spec(rest[1])->0,
                    register_spec(rest[2])->0,
                ],
                rest: rest.skip(4),
            },
        )
    } else {
        None
    }
}

/// The constant with which `rest` begins: `-1`, `0` or `1`.
pub open spec fn constant_spec(rest: Seq<char>) -> Option<Parsed<Computation>> {
    if rest.len() >= 2 && rest[0] == '-' && rest[1] == '1' {
        Some(Parsed { value: Computation::Literal(-1i8), rest: rest.skip(2) })
    } else if rest.len() >= 1 && rest[0] == '0' {
        Some(Parsed { value: Computation::Literal(0), rest: rest.skip(1) })
    } else if rest.len() >= 1 && rest[0] == '1' {
        Some(Parsed { value: Computation::Literal(1), rest: rest.skip(1) })
    } else {
        None
    }
}

/// The computation on one register with which `rest` begins: a register
/// and `+1` or `-1` behind it, or `!` or `-` and a register behind it.
pub open spec fn unary_spec(rest: Seq<char>) -> Option<Parsed<Computation>> {
    if rest.len() >= 3 && register_spec(rest[0]) is Some && rest[1] == '+' && rest[2] == '1' {
        Some(Parsed { value: Computation::Inc(register_spec(rest[0])->0), rest: rest.skip(3) })
    } else if rest.len() >= 3 && register_spec(rest[0]) is Some && rest[1] == '-' && rest[2]
        == '1' {
        Some(Parsed { value: Computation::Dec(register_spec(rest[0])->0), rest: rest.skip(3) })
    } else if rest.len() >= 2 && rest[0] == '!' && register_spec(rest[1]) is Some {
        Some(Parsed { value: Computation::Not(register_spec(rest[1])->0), rest: rest.skip(2) })
    } else if rest.len() >= 2 && rest[0] == '-' && register_spec(rest[1]) is Some {
        Some(Parsed { value: Computation::Neg(register_spec(rest[1])->0), rest: rest.skip(2) })
    } else {
        None
    }
}

/// The computation that the operator `op` makes of two registers.
pub open spec fn operation_spec(op: char, left: Register, right: Register) -> Option<Computation> {
    if op == '+' {
        Some(Computation::Add(left, right))
    } else if op == '-' {
        Some(Computation::Sub(left, right))
    } else if op == '|' {
        Some(Computation::Or(left, right))
    } else if op == '&' {
        Some(Computation::And(left, right))
    } else {
        None
    }
}

/// The computation on two registers with which `rest` begins: a register,
/// one of `+`, `-`, `|`, `&` and a register, where the machine knows the
/// computation that they make. The order of the two registers is kept.
pub open spec fn binary_spec(rest: Seq<char>) -> Option<Parsed<Computation>> {
    if rest.len() >= 3 && register_spec(rest[0]) is Some && register_spec(rest[2]) is Some {
        match operation_spec(rest[1], register_spec(rest[0])->0, register_spec(rest[2])->0) {
            Some(computation) => if computation.is_legal() {
                Some(Parsed { value: computation, rest: rest.skip(3) })
            } else {
                None
            },
            None => None,
        }
    } else {
        None
    }
}

/// The computation with which `rest` begins: the longest text there that
/// writes one. A computation on two registers comes before one on one
/// register, that before a constant, and that before a register alone.
pub open spec fn c_comp_spec(rest: Seq<char>) -> Option<Parsed<Computation>> {
    if binary_spec(rest) is Some {
        binary_spec(rest)
    } else if unary_spec(rest) is Some {
        unary_spec(rest)
    } else if constant_spec(rest) is Some {
        constant_spec(rest)
    } else if rest.len() >= 1 && register_spec(rest[0]) is Some {
        Some(Parsed { value: Computation::Identity(register_spec(rest[0])->0), rest: rest.skip(1) })
    } else {
        None
    }
}

/// The jump that three letters name, each of them capital or small.
pub open spec fn jump_spec(first: char, second: char, third: char) -> Option<JumpType> {
    let second = capital(second);
    let third = capital(third);
    if capital(first) != 'J' {
        None
    } else if second == 'M' && third == 'P' {
        Some(JumpType::Jmp)
    } else if second == 'G' && third == 'T' {
        Some(JumpType::Jgt)
    } else if second == 'E' && third == 'Q' {
        Some(JumpType::Jeq)
    } else if second == 'L' && third == 'T' {
        Some(JumpType::Jlt)
    } else if second == 'G' && third == 'E' {
        Some(JumpType::Jge)
    } else if second == 'L' && third == 'E' {
        Some(JumpType::Jle)
    } else if second == 'N' && third == 'E' {
        Some(JumpType::Jne)
    } else {
        None
    }
}

/// The jump with which `rest` begins: `;` and one of the seven mnemonics.
pub open spec fn c_jump_spec(rest: Seq<char>) -> Option<Parsed<JumpType>> {
    if rest.len() >= 4 && rest[0] == ';' {
        match jump_spec(rest[1], rest[2], rest[3]) {
            Some(jump) => Some(Parsed { value: jump, rest: rest.skip(4) }),
            None => None,
        }
    } else {
        None
    }
}

/// What a line holds that begins neither a comment nor with `@` or `(`:
/// destinations, if the line begins with some, a computation, a jump
/// where `;` follows, and nothing but a comment behind them. `rest` is the
/// line without the white space before it, `text` the whole line.
pub open spec fn c_instruction_spec(rest: Seq<char>, text: Seq<char>) -> Result<
    CInstructionView,
    ParseErrorView,
> {
    let destination = c_dest_spec(rest);
    let after_destination = match destination {
        Some(parsed) => parsed.rest,
        None => rest,
    };
    match c_comp_spec(after_destination) {
        Some(computation) => {
            let jump = c_jump_spec(computation.rest);
            let after_jump = match jump {
                Some(parsed) => parsed.rest,
                None => computation.rest,
            };
            if is_comment_or_empty(after_jump) {
                Ok(
                    CInstructionView {
                        destination: match destination {
                            Some(parsed) => Some(parsed.value),
                            None => None,
                        },
                        computation: computation.value,
                        jump: match jump {
                            Some(parsed) => Some(parsed.value),
                            None => None,
                        },
                    },
                )
            } else {
                Err(ParseErrorView::UnrecognizedLine(text))
            }
        },
        None => Err(ParseErrorView::UnrecognizedLine(text)),
    }
}

/// The register that the letter `c` names, capital or small.
pub fn register(c: char) -> (result: Option<Register>)
    ensures
        result == register_spec(c),
{
    if is_letter(c, 'A') {
        Some(Register::A)
    } else if is_letter(c, 'M') {
        Some(Register::M)
    } else if is_letter(c, 'D') {
        Some(Register::D)
    } else {
        None
    }
}

/// The register that the character at `offset` names, if there is one.
fn register_at(line: &ProgramLine, offset: usize) -> (result: Option<Register>)
    ensures
        result == if offset < line@.len() {
            register_spec(line@[offset as int])
        } else {
            None
        },
{
    match line.peek_at(offset) {
        Some(c) => register(c),
        None => None,
    }
}

/// Reads the destinations with which the rest of `line` begins, and the
/// `=` behind them. Reads nothing where there are none.
pub fn c_dest(line: &mut ProgramLine) -> (result: Option<Vec<Register>>)
    ensures
        final(line).line_text() == old(line).line_text(),
        match result {
            Some(registers) => c_dest_spec(old(line)@) == Some(
                Parsed { value: registers@, rest: final(line)@ },
            ),
            None => c_dest_spec(old(line)@) is None && final(line)@ == old(line)@,
        },
{
    let mut registers: Vec<Register> = Vec::new();
    let mut n: usize = 0;
    while n < 3
        invariant
            n <= 3,
            n <= line@.len(),
            line@ == old(line)@,
            line.line_text() == old(line).line_text(),
            registers@.len() == n,
            forall|i: int| 0 <= i < n ==> register_spec(#[trigger] line@[i]) == Some(registers@[i]),
        ensures
            n < line@.len() && register_spec(line@[n as int]) is Some ==> n == 3,
        decreases 3 - n,
    {
        match register_at(line, n) {
            Some(r) => {
                registers.push(r);
            },
            None => {
                break;
            },
        }
        n += 1;
    }
    if n >= 1 && line.peek_at(n) == Some('=') {
        proof {
            let parsed = c_dest_spec(line@);
            assert(parsed is Some);
            assert(parsed->0.value =~= registers@);
        }
        line.advance(n + 1);
        Some(registers)
    } else {
        None
    }
}

/// Reads the constant with which the rest of `line` begins. Reads nothing
/// where it begins with none.
pub fn constant(line: &mut ProgramLine) -> (result: Option<Computation>)
    ensures
        final(line).line_text() == old(line).line_text(),
        match result {
            Some(computation) => constant_spec(old(line)@) == Some(
                Parsed { value: computation, rest: final(line)@ },
            ),
            None => constant_spec(old(line)@) is None && final(line)@ == old(line)@,
        },
{
    let first = line.peek();
    if first == Some('-') && line.peek_at(1) == Some('1') {
        line.advance(2);
        Some(Computation::Literal(-1))
    } else if first == Some('0') {
        line.advance(1);
        Some(Computation::Literal(0))
    } else if first == Some('1') {
        line.advance(1);
        Some(Computation::Literal(1))
    } else {
        None
    }
}

/// Reads the computation on one register with which the rest of `line`
/// begins. Reads nothing where it begins with none.
pub fn unary(line: &mut ProgramLine) -> (result: Option<Computation>)
    ensures
        final(line).line_text() == old(line).line_text(),
        match result {
            Some(computation) => unary_spec(old(line)@) == Some(
                Parsed { value: computation, rest: final(line)@ },
            ),
            None => unary_spec(old(line)@) is None && final(line)@ == old(line)@,
        },
{
    if let Some(operand) = register_at(line, 0) {
        // An operator behind the register, as in `D+1` or `M-1`.
        if line.peek_at(2) == Some('1') {
            let op = line.peek_at(1);
            if op == Some('+') {
                line.advance(3);
                return Some(Computation::Inc(operand));
            } else if op == Some('-') {
                line.advance(3);
                return Some(Computation::Dec(operand));
            }
        }
        None
    } else if let Some(operand) = register_at(line, 1) {
        // An operator before the register, as in `!D` or `-M`.
        let op = line.peek();
        if op == Some('!') {
            line.advance(2);
            Some(Computation::Not(operand))
        } else if op == Some('-') {
            line.advance(2);
            Some(Computation::Neg(operand))
        } else {
            None
        }
    } else {
        None
    }
}

/// Reads the computation on two registers with which the rest of `line`
/// begins. Reads nothing where it begins with none.
pub fn binary(line: &mut ProgramLine) -> (result: Option<Computation>)
    ensures
        final(line).line_text() == old(line).line_text(),
        match result {
            Some(computation) => binary_spec(old(line)@) == Some(
                Parsed { value: computation, rest: final(line)@ },
            ),
            None => binary_spec(old(line)@) is None && final(line)@ == old(line)@,
        },
{
    let reg1 = match register_at(line, 0) {
        Some(r) => r,
        None => {
            return None;
        },
    };
    let reg2 = match register_at(line, 2) {
        Some(r) => r,
        None => {
            return None;
        },
    };
    let op = line.peek_at(1);
    let computation = if op == Some('+') {
        Computation::Add(reg1, reg2)
    } else if op == Some('-') {
        Computation::Sub(reg1, reg2)
    } else if op == Some('|') {
        Computation::Or(reg1, reg2)
    } else if op == Some('&') {
        Computation::And(reg1, reg2)
    } else {
        return None;
    };
    if computation.encode().is_some() {
        line.advance(3);
        Some(computation)
    } else {
        None
    }
}

/// Reads the computation with which the rest of `line` begins. Reads
/// nothing where it begins with none.
pub fn c_comp(line: &mut ProgramLine) -> (result: Option<Computation>)
    ensures
        final(line).line_text() == old(line).line_text(),
        match result {
            Some(computation) => computation.is_legal() && c_comp_spec(old(line)@) == Some(
                Parsed { value: computation, rest: final(line)@ },
            ),
            None => c_comp_spec(old(line)@) is None && final(line)@ == old(line)@,
        },
{
    if let Some(computation) = binary(line) {
        return Some(computation);
    }
    if let Some(computation) = unary(line) {
        return Some(computation);
    }
    if let Some(computation) = constant(line) {
        return Some(computation);
    }
    match register_at(line, 0) {
        Some(r) => {
            line.advance(1);
            Some(Computation::Identity(r))
        },
        None => None,
    }
}

/// Reads the jump with which the rest of `line` begins, and the `;` before
/// it. Reads nothing where it begins with none.
pub fn c_jump(line: &mut ProgramLine) -> (result: Option<JumpType>)
    ensures
        final(line).line_text() == old(line).line_text(),
        match result {
            Some(jump) => c_jump_spec(old(line)@) == Some(
                Parsed { value: jump, rest: final(line)@ },
            ),
            None => c_jump_spec(old(line)@) is None && final(line)@ == old(line)@,
        },
{
    if line.peek() != Some(';') {
        return None;
    }
    let (first, second, third) = match (line.peek_at(1), line.peek_at(2), line.peek_at(3)) {
        (Some(first), Some(second), Some(third)) => (first, second, third),
        _ => {
            return None;
        },
    };
    if !is_letter(first, 'J') {
        return None;
    }
    let jump = if is_letter(second, 'M') && is_letter(third, 'P') {
        JumpType::Jmp
    } else if is_letter(second, 'G') && is_letter(third, 'T') {
        JumpType::Jgt
    } else if is_letter(second, 'E') && is_letter(third, 'Q') {
        JumpType::Jeq
    } else if is_letter(second, 'L') && is_letter(third, 'T') {
        JumpType::Jlt
    } else if is_letter(second, 'G') && is_letter(third, 'E') {
        JumpType::Jge
    } else if is_letter(second, 'L') && is_letter(third, 'E') {
        JumpType::Jle
    } else if is_letter(second, 'N') && is_letter(third, 'E') {
        JumpType::Jne
    } else {
        return None;
    };
    line.advance(4);
    Some(jump)
}

/// Reads a C-instruction line.
pub fn c_instruction(line: ProgramLine) -> (result: Result<ParsedInstruction, ParseError>)
    ensures
        match result {
            Ok(instruction) => instruction@ is CInstruction && instruction@.is_encodable()
                && c_instruction_spec(line@, line.line_text()) == Ok::<
                CInstructionView,
                ParseErrorView,
            >(instruction@->CInstruction_0),
            Err(e) => c_instruction_spec(line@, line.line_text()) == Err::<
                CInstructionView,
                ParseErrorView,
            >(e@),
        },
{
    let mut line = line;
    let destination = c_dest(&mut line);
    let computation = match c_comp(&mut line) {
        Some(computation) => computation,
        None => {
            return Err(ParseError::UnrecognizedLine(line.line()));
        },
    };
    let jump = c_jump(&mut line);
    if !line.rest_is_comment_or_empty() {
        return Err(ParseError::UnrecognizedLine(line.line()));
    }
    Ok(ParsedInstruction::CInstruction(CInstruction { destination, computation, jump }))
}

} // verus!
