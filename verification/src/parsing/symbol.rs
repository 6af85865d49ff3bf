//! Symbol names: a letter, then letters, digits and `_`, `.`, `$`, `:`.

use super::Parsed;
use crate::program_line::ProgramLine;
use crate::text::{is_digit, lemma_prefix_len, lemma_prefix_len_properties, prefix_len};
use vstd::prelude::*;

verus! {

/// Whether a symbol can begin with `c`: the letters `a` to `z` and `A` to
/// `Z`.
pub open spec fn is_symbol_start(c: char) -> bool {
    ('a' <= c <= 'z') || ('A' <= c <= 'Z')
}

/// Whether `c` can stand in a symbol.
pub open spec fn is_symbol_char(c: char) -> bool {
    is_symbol_start(c) || is_digit(c) || c == '_' || c == '.' || c == '$' || c == ':'
}

/// The symbol with which `rest` begins, if it begins with one: all the
/// characters up to the first that cannot stand in a symbol.
pub open spec fn symbol_spec(rest: Seq<char>) -> Option<Parsed<Seq<char>>> {
    if rest.len() > 0 && is_symbol_start(rest[0]) {
        let n = prefix_len(rest, |c: char| is_symbol_char(c)) as int;
        Some(Parsed { value: rest.take(n), rest: rest.skip(n) })
    } else {
        None
    }
}

/// Whether `name` is a symbol: a letter, then letters, digits and `_`,
/// `.`, `$`, `:`.
pub open spec fn is_symbol(name: Seq<char>) -> bool {
    &&& name.len() > 0
    &&& is_symbol_start(name[0])
    &&& forall|i: int| 0 <= i < name.len() ==> is_symbol_char(#[trigger] name[i])
}

/// A symbol is read from a text that begins with it, up to a character
/// that cannot stand in a symbol.
pub proof fn lemma_symbol_is_read(name: Seq<char>, rest: Seq<char>)
    requires
        is_symbol(name),
        rest.len() == 0 || !is_symbol_char(rest[0]),
    ensures
        symbol_spec(name + rest) == Some(Parsed { value: name, rest }),
{
    let text = name + rest;
    assert forall|i: int| 0 <= i < name.len() implies is_symbol_char(#[trigger] text[i]) by {
        assert(text[i] == name[i]);
    }
    if rest.len() > 0 {
        assert(text[name.len() as int] == rest[0]);
    }
    lemma_prefix_len(text, |c: char| is_symbol_char(c), name.len() as int);
    assert(text[0] == name[0]);
    assert(text.take(name.len() as int) =~= name);
    assert(text.skip(name.len() as int) =~= rest);
}

/// What is read as a symbol is a symbol, stands at the start of the text,
/// and ends before a character that cannot stand in a symbol.
pub proof fn lemma_read_symbol_is_symbol(rest: Seq<char>)
    ensures
        symbol_spec(rest) matches Some(parsed) ==> {
            &&& is_symbol(parsed.value)
            &&& rest == parsed.value + parsed.rest
            &&& parsed.rest.len() == 0 || !is_symbol_char(parsed.rest[0])
        },
{
    if let Some(parsed) = symbol_spec(rest) {
        lemma_prefix_len_properties(rest, |c: char| is_symbol_char(c));
        assert(rest =~= parsed.value + parsed.rest);
    }
}

/// The digits with which `rest` begins, and what is left behind them.
pub open spec fn digits_spec(rest: Seq<char>) -> Parsed<Seq<char>> {
    let n = prefix_len(rest, |c: char| is_digit(c)) as int;
    Parsed { value: rest.take(n), rest: rest.skip(n) }
}

/// Whether a symbol can begin with `c`.
pub fn char_is_symbol_start(c: char) -> (result: bool)
    ensures
        result == is_symbol_start(c),
{
    ('a' <= c && c <= 'z') || ('A' <= c && c <= 'Z')
}

/// Whether `c` can stand in a symbol.
pub fn char_is_symbol_char(c: char) -> (result: bool)
    ensures
        result == is_symbol_char(c),
{
    char_is_symbol_start(c) || ('0' <= c && c <= '9') || c == '_' || c == '.' || c == '$' || c
        == ':'
}

/// Reads the symbol with which the rest of `line` begins. Reads nothing
/// where it begins with none.
pub fn symbol(line: &mut ProgramLine) -> (result: Option<String>)
    ensures
        final(line).line_text() == old(line).line_text(),
        match result {
            Some(name) => symbol_spec(old(line)@) == Some(
                Parsed { value: name@, rest: final(line)@ },
            ),
            None => symbol_spec(old(line)@) is None && final(line)@ == old(line)@,
        },
{
    match line.peek() {
        Some(c) => {
            if !char_is_symbol_start(c) {
                return None;
            }
        },
        None => {
            return None;
        },
    }
    let mut n: usize = 0;
    loop
        invariant
            n <= line@.len(),
            forall|i: int| 0 <= i < n ==> is_symbol_char(#[trigger] line@[i]),
        ensures
            n < line@.len() ==> !is_symbol_char(line@[n as int]),
        decreases line@.len() - n,
    {
        match line.peek_at(n) {
            Some(c) => {
                if !char_is_symbol_char(c) {
                    break;
                }
            },
            None => {
                break;
            },
        }
        n += 1;
    }
    proof {
        lemma_prefix_len(line@, |c: char| is_symbol_char(c), n as int);
    }
    Some(line.take(n))
}

/// Reads the digits with which the rest of `line` begins.
pub fn digits(line: &mut ProgramLine) -> (result: String)
    ensures
        final(line).line_text() == old(line).line_text(),
        digits_spec(old(line)@) == (Parsed { value: result@, rest: final(line)@ }),
{
    let mut n: usize = 0;
    loop
        invariant
            n <= line@.len(),
            forall|i: int| 0 <= i < n ==> is_digit(#[trigger] line@[i]),
        ensures
            n < line@.len() ==> !is_digit(line@[n as int]),
        decreases line@.len() - n,
    {
        match line.peek_at(n) {
            Some(c) => {
                if !('0' <= c && c <= '9') {
                    break;
                }
            },
            None => {
                break;
            },
        }
        n += 1;
    }
    proof {
        lemma_prefix_len(line@, |c: char| is_digit(c), n as int);
    }
    line.take(n)
}

} // verus!
