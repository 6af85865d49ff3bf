//! The state of one assembly run: the symbol table and the words written
//! so far.
//!
//! A run has two phases. First every label is registered, then the
//! instructions are fed in their order. A label can so be used before the
//! line that defines it, and a name that is no label by then is a variable.

use crate::constants::ROM_SIZE;
use crate::hack_int::{HackInt, HACK_INT_MAX};
use crate::instructions::{c_word, AValueView, Label};
use crate::parsing::{ParseError, ParseErrorView, ParsedInstruction, ParsedInstructionView};
use crate::symbol_table::{
    SymbolTable, SymbolTableGetError, SymbolTableGetErrorView, SymbolTableSetError,
    SymbolTableSetErrorView, SymbolTableView,
};
use vstd::prelude::*;

verus! {

/// The state of one assembly run.
pub struct AssemblerContext {
    symbol_table: SymbolTable,
    output: Vec<u16>,
}

/// Why a run was given up.
#[derive(Debug, PartialEq, Eq)]
pub enum AssemblerError {
    /// Every address that a variable can have is taken.
    TooManyVariables,
    /// The instruction memory is full.
    TooManyInstructions,
    /// A label is a built-in symbol or is defined twice.
    SymbolTableSetError(SymbolTableSetError),
    /// The text is no program.
    ParseError(ParseError),
}

/// An [`AssemblerError`] as contracts see it.
pub enum AssemblerErrorView {
    TooManyVariables,
    TooManyInstructions,
    SymbolTableSetError(SymbolTableSetErrorView),
    ParseError(ParseErrorView),
}

impl View for AssemblerError {
    type V = AssemblerErrorView;

    open spec fn view(&self) -> AssemblerErrorView {
        match self {
            AssemblerError::TooManyVariables => AssemblerErrorView::TooManyVariables,
            AssemblerError::TooManyInstructions => AssemblerErrorView::TooManyInstructions,
            AssemblerError::SymbolTableSetError(e) => AssemblerErrorView::SymbolTableSetError(e@),
            AssemblerError::ParseError(e) => AssemblerErrorView::ParseError(e@),
        }
    }
}

/// The state of a run as contracts see it.
pub struct ContextView {
    pub table: SymbolTableView,
    pub output: Seq<u16>,
}

/// What a step of a run leaves behind: the state after it, and what it
/// returns. A step that fails may still have changed the state.
pub struct Step<T> {
    pub context: ContextView,
    pub result: Result<T, AssemblerErrorView>,
}

impl ContextView {
    /// The state in which a run begins.
    pub open spec fn initial() -> ContextView {
        ContextView { table: SymbolTableView::initial(), output: Seq::empty() }
    }

    /// Registers a label for the instruction number `address`. An address
    /// above the bound means more instructions than the memory holds.
    pub open spec fn register_label(self, name: Seq<char>, address: int) -> Step<()> {
        if address > HACK_INT_MAX {
            Step { context: self, result: Err(AssemblerErrorView::TooManyInstructions) }
        } else {
            match self.table.set(name, address) {
                Ok(table) => Step {
                    context: ContextView { table, output: self.output },
                    result: Ok(()),
                },
                Err(e) => Step {
                    context: self,
                    result: Err(AssemblerErrorView::SymbolTableSetError(e)),
                },
            }
        }
    }

    /// Appends a word, unless the instruction memory is full.
    pub open spec fn push_instruction(self, bits: u16) -> Step<()> {
        if self.output.len() >= ROM_SIZE {
            Step { context: self, result: Err(AssemblerErrorView::TooManyInstructions) }
        } else {
            Step {
                context: ContextView { table: self.table, output: self.output.push(bits) },
                result: Ok(()),
            }
        }
    }

    /// The address of `name`. A name that has none is a new variable: it
    /// gets the next free address, unless none is left.
    pub open spec fn get_or_create_variable(self, name: Seq<char>) -> Step<int> {
        match self.table.get(name) {
            Some(value) => Step { context: self, result: Ok(value) },
            None => if self.table.has_room() {
                Step {
                    context: ContextView {
                        table: SymbolTableView {
                            user: self.table.user.insert(name, self.table.cursor),
                            cursor: self.table.cursor + 1,
                        },
                        output: self.output,
                    },
                    result: Ok(self.table.cursor),
                }
            } else {
                Step { context: self, result: Err(AssemblerErrorView::TooManyVariables) }
            },
        }
    }

    /// The value that an A-instruction loads.
    pub open spec fn a_value(self, value: AValueView) -> Step<int> {
        match value {
            AValueView::Symbol(name) => self.get_or_create_variable(name),
            AValueView::Literal(number) => Step { context: self, result: Ok(number) },
        }
    }

    /// Encodes one instruction and appends its word.
    pub open spec fn feed_instruction(self, instruction: ParsedInstructionView) -> Step<()> {
        match instruction {
            ParsedInstructionView::AInstruction(value) => {
                let loaded = self.a_value(value);
                match loaded.result {
                    Ok(number) => loaded.context.push_instruction(number as u16),
                    Err(e) => Step { context: loaded.context, result: Err(e) },
                }
            },
            ParsedInstructionView::CInstruction(instruction) => self.push_instruction(
                c_word(instruction) as u16,
            ),
        }
    }
}

/// What a call that returns nothing has returned, as contracts see it.
pub open spec fn unit_result(result: Result<(), AssemblerError>) -> Result<(), AssemblerErrorView> {
    match result {
        Ok(()) => Ok(()),
        Err(e) => Err(e@),
    }
}

/// What a call that returns a word has returned, as contracts see it.
pub open spec fn word_result(result: Result<u16, AssemblerError>) -> Result<
    int,
    AssemblerErrorView,
> {
    match result {
        Ok(word) => Ok(word as int),
        Err(e) => Err(e@),
    }
}

impl View for AssemblerContext {
    type V = ContextView;

    closed spec fn view(&self) -> ContextView {
        ContextView { table: self.symbol_table@, output: self.output@ }
    }
}

impl AssemblerContext {
    /// The state in which a run begins: no symbol but the built-in ones,
    /// and no word.
    pub fn new() -> (result: Self)
        ensures
            result@ == ContextView::initial(),
    {
        Self { symbol_table: SymbolTable::new(), output: Vec::new() }
    }

    /// The words written so far.
    pub fn output(&self) -> (result: &Vec<u16>)
        ensures
            result@ == self@.output,
    {
        &self.output
    }

    /// Sets a symbol in the table of this run.
    fn set_symbol(&mut self, name: &str, value: HackInt) -> (result: Result<
        (),
        SymbolTableSetError,
    >)
        ensures
            final(self)@.output == old(self)@.output,
            match result {
                Ok(()) => old(self)@.table.set(name@, value@) == Ok::<
                    SymbolTableView,
                    SymbolTableSetErrorView,
                >(final(self)@.table),
                Err(e) => old(self)@.table.set(name@, value@) == Err::<
                    SymbolTableView,
                    SymbolTableSetErrorView,
                >(e@) && final(self)@ == old(self)@,
            },
    {
        self.symbol_table.set(name, value)
    }

    /// The value of a symbol in the table of this run.
    fn get_symbol(&self, name: &str) -> (result: Result<HackInt, SymbolTableGetError>)
        ensures
            match result {
                Ok(value) => self@.table.get(name@) == Some(value@),
                Err(e) => self@.table.get(name@) is None && e@
                    == SymbolTableGetErrorView::NotDefined(name@),
            },
    {
        self.symbol_table.get(name)
    }

    /// Registers `label` for the instruction number `address`. Fails, and
    /// changes nothing, where the address lies above the bound or the name
    /// is taken.
    pub fn register_label(&mut self, label: Label, address: usize) -> (result: Result<
        (),
        AssemblerError,
    >)
        ensures
            old(self)@.register_label(label@, address as int) == (Step {
                context: final(self)@,
                result: unit_result(result),
            }),
    {
        if address > HACK_INT_MAX as usize {
            return Err(AssemblerError::TooManyInstructions);
        }
        let address = HackInt::new_unchecked(address as u16);
        match self.set_symbol(label.name.as_str(), address) {
            Ok(()) => Ok(()),
            Err(e) => Err(AssemblerError::SymbolTableSetError(e)),
        }
    }

    /// Appends a word. Fails, and changes nothing, where the instruction
    /// memory is full.
    fn push_instruction(&mut self, bits: u16) -> (result: Result<(), AssemblerError>)
        ensures
            old(self)@.push_instruction(bits) == (Step {
                context: final(self)@,
                result: unit_result(result),
            }),
    {
        if self.output.len() >= ROM_SIZE {
            return Err(AssemblerError::TooManyInstructions);
        }
        self.output.push(bits);
        Ok(())
    }

    /// Encodes `instr` and appends its word. A symbol that has no value
    /// yet becomes a variable. Fails where no address is left for a new
    /// variable, or no room for the word.
    pub fn feed_instruction(&mut self, instr: ParsedInstruction) -> (result: Result<
        (),
        AssemblerError,
    >)
        requires
            instr@.is_encodable(),
        ensures
            old(self)@.feed_instruction(instr@) == (Step {
                context: final(self)@,
                result: unit_result(result),
            }),
    {
        match instr {
            ParsedInstruction::AInstruction(i) => {
                match i.to_u16(self) {
                    Ok(bits) => self.push_instruction(bits),
                    Err(e) => Err(e),
                }
            },
            ParsedInstruction::CInstruction(i) => self.push_instruction(i.to_u16()),
        }
    }

    /// The address of the symbol `name`. A name that has no value yet is a
    /// new variable: it gets the next free address and keeps it. Fails,
    /// and changes nothing, where no address is left.
    pub fn get_or_create_variable(&mut self, name: &str) -> (result: Result<u16, AssemblerError>)
        ensures
            old(self)@.get_or_create_variable(name@) == (Step {
                context: final(self)@,
                result: word_result(result),
            }),
            result matches Ok(address) ==> address <= HACK_INT_MAX,
    {
        if let Ok(value) = self.get_symbol(name) {
            return Ok(value.value());
        }
        let address = match self.symbol_table.allocate_variable() {
            Ok(address) => address,
            Err(_) => {
                return Err(AssemblerError::TooManyVariables);
            },
        };
        match self.set_symbol(name, address) {
            Ok(()) => Ok(address.value()),
            Err(e) => Err(AssemblerError::SymbolTableSetError(e)),
        }
    }

    /// The words written, in the order of their instructions.
    pub fn into_output(self) -> (result: Vec<u16>)
        ensures
            result@ == self@.output,
    {
        self.output
    }
}

impl Default for AssemblerContext {
    fn default() -> (result: Self)
        ensures
            result@ == ContextView::initial(),
    {
        Self::new()
    }
}

} // verus!
