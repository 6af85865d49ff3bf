//! The symbol table: names and the addresses they stand for.
//!
//! A table holds the built-in symbols, which are fixed, the symbols that a
//! program defines, each of which is set once, and the address that the
//! next variable will get.

use crate::constants::{FIRST_VARIABLE, MEMORY_SIZE};
use crate::hack_int::{HackInt, ParseHackIntError};
use crate::text::to_chars;
use vstd::hash_map::StringHashMap;
use vstd::prelude::*;

verus! {

/// Why a symbol has no value.
#[derive(Debug, PartialEq, Eq)]
pub enum SymbolTableGetError {
    /// Neither built in nor defined by the program.
    NotDefined(String),
}

/// Why a symbol was not given a value.
#[derive(Debug, PartialEq, Eq)]
pub enum SymbolTableSetError {
    /// The name is a built-in symbol.
    RedefinedBuiltIn(String),
    /// The program has defined the name already.
    Redefined(String),
}

/// Why no variable was allocated.
#[derive(Clone, Copy, Debug, PartialEq, Eq, Structural)]
pub enum SymbolTableAllocateError {
    /// Every address that a variable can have is taken.
    OutOfMemory,
}

/// A [`SymbolTableGetError`] as contracts see it.
pub enum SymbolTableGetErrorView {
    NotDefined(Seq<char>),
}

/// A [`SymbolTableSetError`] as contracts see it.
pub enum SymbolTableSetErrorView {
    RedefinedBuiltIn(Seq<char>),
    Redefined(Seq<char>),
}

impl View for SymbolTableGetError {
    type V = SymbolTableGetErrorView;

    open spec fn view(&self) -> SymbolTableGetErrorView {
        match self {
            SymbolTableGetError::NotDefined(name) => SymbolTableGetErrorView::NotDefined(name@),
        }
    }
}

impl View for SymbolTableSetError {
    type V = SymbolTableSetErrorView;

    open spec fn view(&self) -> SymbolTableSetErrorView {
        match self {
            SymbolTableSetError::RedefinedBuiltIn(name) => SymbolTableSetErrorView::RedefinedBuiltIn(
                name@,
            ),
            SymbolTableSetError::Redefined(name) => SymbolTableSetErrorView::Redefined(name@),
        }
    }
}

/// The value of a built-in symbol, and `None` for every other name.
///
/// | Symbol        | Value    |
/// |---------------|----------|
/// | `R0` … `R15`  | 0 … 15   |
/// | `SP`          | 0        |
/// | `LCL`         | 1        |
/// | `ARG`         | 2        |
/// | `THIS`        | 3        |
/// | `THAT`        | 4        |
/// | `SCREEN`      | 16384    |
/// | `KBD`         | 24576    |
pub open spec fn built_in(name: Seq<char>) -> Option<int> {
    if name == "R0"@ {
        Some(0)
    } else if name == "R1"@ {
        Some(1)
    } else if name == "R2"@ {
        Some(2)
    } else if name == "R3"@ {
        Some(3)
    } else if name == "R4"@ {
        Some(4)
    } else if name == "R5"@ {
        Some(5)
    } else if name == "R6"@ {
        Some(6)
    } else if name == "R7"@ {
        Some(7)
    } else if name == "R8"@ {
        Some(8)
    } else if name == "R9"@ {
        Some(9)
    } else if name == "R10"@ {
        Some(10)
    } else if name == "R11"@ {
        Some(11)
    } else if name == "R12"@ {
        Some(12)
    } else if name == "R13"@ {
        Some(13)
    } else if name == "R14"@ {
        Some(14)
    } else if name == "R15"@ {
        Some(15)
    } else if name == "SCREEN"@ {
        Some(16384)
    } else if name == "KBD"@ {
        Some(24576)
    } else if name == "SP"@ {
        Some(0)
    } else if name == "LCL"@ {
        Some(1)
    } else if name == "ARG"@ {
        Some(2)
    } else if name == "THIS"@ {
        Some(3)
    } else if name == "THAT"@ {
        Some(4)
    } else {
        None
    }
}

/// Whether `name`, as a sequence of characters, is the text `literal`.
fn is_text(name: &Vec<char>, literal: &str) -> (result: bool)
    ensures
        result == (name@ == literal@),
{
    broadcast use vstd::string::axiom_spec_iter;

    let mut i: usize = 0;
    for c in it: literal.chars()
        invariant
            it.seq() == literal@,
            i == it.index(),
            i <= name.len(),
            forall|j: int| 0 <= j < i ==> name@[j] == literal@[j],
    {
        if i >= name.len() || name[i] != c {
            assert(name@.len() != literal@.len() || name@[i as int] != literal@[i as int]);
            return false;
        }
        i += 1;
    }
    if i == name.len() {
        assert(name@ =~= literal@);
        true
    } else {
        false
    }
}

/// The value of the built-in symbol `name`, if it is one.
pub fn built_in_value(name: &str) -> (result: Option<HackInt>)
    ensures
        match result {
            Some(value) => built_in(name@) == Some(value@),
            None => built_in(name@) is None,
        },
{
    let chars = to_chars(name);
    let value: u16 = if is_text(&chars, "R0") {
        0
    } else if is_text(&chars, "R1") {
        1
    } else if is_text(&chars, "R2") {
        2
    } else if is_text(&chars, "R3") {
        3
    } else if is_text(&chars, "R4") {
        4
    } else if is_text(&chars, "R5") {
        5
    } else if is_text(&chars, "R6") {
        6
    } else if is_text(&chars, "R7") {
        7
    } else if is_text(&chars, "R8") {
        8
    } else if is_text(&chars, "R9") {
        9
    } else if is_text(&chars, "R10") {
        10
    } else if is_text(&chars, "R11") {
        11
    } else if is_text(&chars, "R12") {
        12
    } else if is_text(&chars, "R13") {
        13
    } else if is_text(&chars, "R14") {
        14
    } else if is_text(&chars, "R15") {
        15
    } else if is_text(&chars, "SCREEN") {
        16384
    } else if is_text(&chars, "KBD") {
        24576
    } else if is_text(&chars, "SP") {
        0
    } else if is_text(&chars, "LCL") {
        1
    } else if is_text(&chars, "ARG") {
        2
    } else if is_text(&chars, "THIS") {
        3
    } else if is_text(&chars, "THAT") {
        4
    } else {
        return None;
    };
    Some(HackInt::new_unchecked(value))
}

/// A symbol table as contracts see it: the symbols that the program has
/// defined, and the address that the next variable will get.
pub struct SymbolTableView {
    pub user: Map<Seq<char>, int>,
    pub cursor: int,
}

impl SymbolTableView {
    /// The table of a run that has defined nothing yet.
    pub open spec fn initial() -> SymbolTableView {
        SymbolTableView { user: Map::empty(), cursor: FIRST_VARIABLE as int }
    }

    /// The value of `name`: a built-in symbol has its fixed value, whatever
    /// the program has defined; any other name has the value it was set
    /// to, if it was.
    pub open spec fn get(self, name: Seq<char>) -> Option<int> {
        match built_in(name) {
            Some(value) => Some(value),
            None => if self.user.contains_key(name) {
                Some(self.user[name])
            } else {
                None
            },
        }
    }

    /// The table after `name` was set to `value`, or why it cannot be: a
    /// built-in symbol is never set, and no name is set twice.
    pub open spec fn set(self, name: Seq<char>, value: int) -> Result<
        SymbolTableView,
        SymbolTableSetErrorView,
    > {
        if built_in(name) is Some {
            Err(SymbolTableSetErrorView::RedefinedBuiltIn(name))
        } else if self.user.contains_key(name) {
            Err(SymbolTableSetErrorView::Redefined(name))
        } else {
            Ok(SymbolTableView { user: self.user.insert(name, value), cursor: self.cursor })
        }
    }

    /// Whether an address is left for one more variable.
    pub open spec fn has_room(self) -> bool {
        self.cursor <= MEMORY_SIZE
    }

    /// The table after one variable was allocated.
    pub open spec fn advanced(self) -> SymbolTableView {
        SymbolTableView { user: self.user, cursor: self.cursor + 1 }
    }
}

/// How the names of the built-in symbols begin, and how long they are.
proof fn lemma_built_in_names()
    ensures
        "R0"@.len() == 2 && "R0"@[0] == 'R' && "R0"@[1] == '0',
        "R1"@.len() == 2 && "R1"@[0] == 'R' && "R1"@[1] == '1',
        "R2"@.len() == 2 && "R2"@[0] == 'R' && "R2"@[1] == '2',
        "R3"@.len() == 2 && "R3"@[0] == 'R' && "R3"@[1] == '3',
        "R4"@.len() == 2 && "R4"@[0] == 'R' && "R4"@[1] == '4',
        "R5"@.len() == 2 && "R5"@[0] == 'R' && "R5"@[1] == '5',
        "R6"@.len() == 2 && "R6"@[0] == 'R' && "R6"@[1] == '6',
        "R7"@.len() == 2 && "R7"@[0] == 'R' && "R7"@[1] == '7',
        "R8"@.len() == 2 && "R8"@[0] == 'R' && "R8"@[1] == '8',
        "R9"@.len() == 2 && "R9"@[0] == 'R' && "R9"@[1] == '9',
        "R10"@.len() == 3 && "R10"@[0] == 'R' && "R10"@[1] == '1' && "R10"@[2] == '0',
        "R11"@.len() == 3 && "R11"@[0] == 'R' && "R11"@[1] == '1' && "R11"@[2] == '1',
        "R12"@.len() == 3 && "R12"@[0] == 'R' && "R12"@[1] == '1' && "R12"@[2] == '2',
        "R13"@.len() == 3 && "R13"@[0] == 'R' && "R13"@[1] == '1' && "R13"@[2] == '3',
        "R14"@.len() == 3 && "R14"@[0] == 'R' && "R14"@[1] == '1' && "R14"@[2] == '4',
        "R15"@.len() == 3 && "R15"@[0] == 'R' && "R15"@[1] == '1' && "R15"@[2] == '5',
        "SP"@.len() == 2 && "SP"@[0] == 'S' && "SP"@[1] == 'P',
        "LCL"@.len() == 3 && "LCL"@[0] == 'L' && "LCL"@[1] == 'C' && "LCL"@[2] == 'L',
        "ARG"@.len() == 3 && "ARG"@[0] == 'A' && "ARG"@[1] == 'R' && "ARG"@[2] == 'G',
        "THIS"@.len() == 4 && "THIS"@[0] == 'T' && "THIS"@[1] == 'H' && "THIS"@[2] == 'I',
        "THAT"@.len() == 4 && "THAT"@[0] == 'T' && "THAT"@[1] == 'H' && "THAT"@[2] == 'A',
        "SCREEN"@.len() == 6 && "SCREEN"@[0] == 'S' && "SCREEN"@[1] == 'C' && "SCREEN"@[2] == 'R',
        "KBD"@.len() == 3 && "KBD"@[0] == 'K' && "KBD"@[1] == 'B' && "KBD"@[2] == 'D',
{
    reveal_strlit("R0");
    reveal_strlit("R1");
    reveal_strlit("R2");
    reveal_strlit("R3");
    reveal_strlit("R4");
    reveal_strlit("R5");
    reveal_strlit("R6");
    reveal_strlit("R7");
    reveal_strlit("R8");
    reveal_strlit("R9");
    reveal_strlit("R10");
    reveal_strlit("R11");
    reveal_strlit("R12");
    reveal_strlit("R13");
    reveal_strlit("R14");
    reveal_strlit("R15");
    reveal_strlit("SP");
    reveal_strlit("LCL");
    reveal_strlit("ARG");
    reveal_strlit("THIS");
    reveal_strlit("THAT");
    reveal_strlit("SCREEN");
    reveal_strlit("KBD");
}

/// The built-in symbols have the values of the table above: no name of
/// the table hides another.
pub proof fn law_built_in_table()
    ensures
        built_in("R0"@) == Some(0int),
        built_in("R1"@) == Some(1int),
        built_in("R2"@) == Some(2int),
        built_in("R3"@) == Some(3int),
        built_in("R4"@) == Some(4int),
        built_in("R5"@) == Some(5int),
        built_in("R6"@) == Some(6int),
        built_in("R7"@) == Some(7int),
        built_in("R8"@) == Some(8int),
        built_in("R9"@) == Some(9int),
        built_in("R10"@) == Some(10int),
        built_in("R11"@) == Some(11int),
        built_in("R12"@) == Some(12int),
        built_in("R13"@) == Some(13int),
        built_in("R14"@) == Some(14int),
        built_in("R15"@) == Some(15int),
        built_in("SP"@) == Some(0int),
        built_in("LCL"@) == Some(1int),
        built_in("ARG"@) == Some(2int),
        built_in("THIS"@) == Some(3int),
        built_in("THAT"@) == Some(4int),
        built_in("SCREEN"@) == Some(16384int),
        built_in("KBD"@) == Some(24576int),
{
    lemma_built_in_names();
}

/// A built-in symbol has two to six characters and begins with one of the
/// capital letters `R`, `S`, `L`, `A`, `T`, `K`: no other name is built
/// in. Its value is an address.
pub proof fn law_built_in_names_and_values(name: Seq<char>)
    ensures
        built_in(name) matches Some(value) ==> {
            &&& 2 <= name.len() <= 6
            &&& name[0] == 'R' || name[0] == 'S' || name[0] == 'L' || name[0] == 'A' || name[0]
                == 'T' || name[0] == 'K'
            &&& 0 <= value <= 24576
        },
{
    lemma_built_in_names();
}

/// A built-in symbol has its fixed value in every table, whatever the
/// program has defined, and no table lets it be set.
pub proof fn law_built_in_symbols_are_fixed(table: SymbolTableView, name: Seq<char>, value: int)
    requires
        built_in(name) is Some,
    ensures
        table.get(name) == built_in(name),
        table.set(name, value) == Err::<SymbolTableView, SymbolTableSetErrorView>(
            SymbolTableSetErrorView::RedefinedBuiltIn(name),
        ),
{
}

/// A name that is neither built in nor set has no value. Once it is set,
/// it has the value it was set to, and cannot be set again, to whatever
/// value.
pub proof fn law_symbols_are_set_once(
    table: SymbolTableView,
    name: Seq<char>,
    value: int,
    other: int,
)
    requires
        built_in(name) is None,
        !table.user.contains_key(name),
    ensures
        table.get(name) is None,
        table.set(name, value) is Ok,
        table.set(name, value)->Ok_0.get(name) == Some(value),
        table.set(name, value)->Ok_0.set(name, other) == Err::<
            SymbolTableView,
            SymbolTableSetErrorView,
        >(SymbolTableSetErrorView::Redefined(name)),
        table.set(name, value)->Ok_0.cursor == table.cursor,
{
}

/// Setting one name leaves the value of every other name as it was.
pub proof fn law_set_keeps_other_symbols(
    table: SymbolTableView,
    name: Seq<char>,
    value: int,
    other: Seq<char>,
)
    requires
        other != name,
    ensures
        table.set(name, value) matches Ok(after) ==> after.get(other) == table.get(other),
{
}

/// The symbol table stores and resolves symbols (labels and variables) to
/// their addresses.
///
/// The built-in symbols of [`built_in`] are part of every table and cannot
/// be redefined. Every other symbol can be set once. Names are case
/// sensitive.
pub struct SymbolTable {
    table: StringHashMap<HackInt>,
    variable_index: VariableIndex,
}

/// The address that the next variable will get. It starts at 16, moves up
/// by one with each variable, and stops one behind the last address of the
/// data memory.
struct VariableIndex {
    next: HackInt,
}

impl VariableIndex {
    /// The address lies among those a variable can have, or one behind
    /// them.
    #[verifier::type_invariant]
    closed spec fn in_range(self) -> bool {
        FIRST_VARIABLE <= self.next@ <= MEMORY_SIZE + 1
    }

    /// The address as a number.
    closed spec fn address(&self) -> int {
        self.next@
    }

    /// The address of the first variable.
    fn new() -> (result: Self)
        ensures
            result.address() == FIRST_VARIABLE,
    {
        VariableIndex { next: HackInt::new_unchecked(FIRST_VARIABLE) }
    }

    /// The address.
    fn get(&self) -> (result: HackInt)
        ensures
            result@ == self.address(),
            FIRST_VARIABLE <= self.address() <= MEMORY_SIZE + 1,
    {
        proof {
            use_type_invariant(self);
        }
        self.next
    }

    /// Moves the address up by one, unless it stands behind the last one
    /// already.
    fn increment(&mut self) -> (result: Result<(), ParseHackIntError>)
        ensures
            match result {
                Ok(()) => old(self).address() <= MEMORY_SIZE
                    && final(self).address() == old(self).address() + 1,
                Err(e) => old(self).address() > MEMORY_SIZE && e == ParseHackIntError::SizeExceeded
                    && final(self).address() == old(self).address(),
            },
    {
        proof {
            use_type_invariant(&*self);
        }
        let index: u16 = self.next.value();
        if index > MEMORY_SIZE {
            return Err(ParseHackIntError::SizeExceeded);
        }
        self.next = HackInt::new_unchecked(index + 1);
        Ok(())
    }
}

impl View for SymbolTable {
    type V = SymbolTableView;

    closed spec fn view(&self) -> SymbolTableView {
        SymbolTableView {
            user: self.table@.map_values(|value: HackInt| value@),
            cursor: self.variable_index.address(),
        }
    }
}

impl SymbolTable {
    /// A table that holds the built-in symbols and nothing else. The first
    /// variable will get the address 16.
    pub fn new() -> (result: Self)
        ensures
            result@ == SymbolTableView::initial(),
    {
        let result = Self {
            table: StringHashMap::new(),
            variable_index: VariableIndex::new(),
        };
        assert(result@.user =~= Map::<Seq<char>, int>::empty());
        result
    }

    /// Sets the symbol `name` to `value`, creating it. A built-in symbol
    /// and a symbol that is set already keep their value, and the call
    /// fails.
    pub fn set(&mut self, name: &str, value: HackInt) -> (result: Result<(), SymbolTableSetError>)
        ensures
            match result {
                Ok(()) => old(self)@.set(name@, value@) == Ok::<
                    SymbolTableView,
                    SymbolTableSetErrorView,
                >(final(self)@),
                Err(e) => old(self)@.set(name@, value@) == Err::<
                    SymbolTableView,
                    SymbolTableSetErrorView,
                >(e@) && final(self)@ == old(self)@,
            },
    {
        if built_in_value(name).is_some() {
            return Err(SymbolTableSetError::RedefinedBuiltIn(name.to_owned()));
        }
        if self.table.contains_key(name) {
            return Err(SymbolTableSetError::Redefined(name.to_owned()));
        }
        self.table.insert(name.to_owned(), value);
        assert(final(self)@.user =~= old(self)@.user.insert(name@, value@));
        Ok(())
    }

    /// The value of the symbol `name`. Built-in symbols come first.
    pub fn get(&self, name: &str) -> (result: Result<HackInt, SymbolTableGetError>)
        ensures
            match result {
                Ok(value) => self@.get(name@) == Some(value@),
                Err(e) => self@.get(name@) is None && e@ == SymbolTableGetErrorView::NotDefined(
                    name@,
                ),
            },
    {
        if let Some(value) = built_in_value(name) {
            return Ok(value);
        }
        if let Some(value) = self.table.get(name) {
            return Ok(*value);
        }
        Err(SymbolTableGetError::NotDefined(name.to_owned()))
    }

    /// The address that the next variable will get: one behind the last
    /// address of the data memory when all are taken.
    pub fn get_variable_index(&self) -> (result: HackInt)
        ensures
            result@ == self@.cursor,
            FIRST_VARIABLE <= self@.cursor <= MEMORY_SIZE + 1,
    {
        self.variable_index.get()
    }

    /// Moves the next variable's address up by one. Fails, and moves
    /// nothing, when all addresses are taken.
    pub fn increment_variable_index(&mut self) -> (result: Result<(), ParseHackIntError>)
        ensures
            match result {
                Ok(()) => old(self)@.has_room() && final(self)@ == old(self)@.advanced(),
                Err(e) => !old(self)@.has_room() && e == ParseHackIntError::SizeExceeded
                    && final(self)@ == old(self)@,
            },
    {
        self.variable_index.increment()
    }

    /// Hands out the address of the next variable and moves on by one.
    /// Fails, and changes nothing, when all addresses are taken.
    pub fn allocate_variable(&mut self) -> (result: Result<HackInt, SymbolTableAllocateError>)
        ensures
            match result {
                Ok(address) => old(self)@.has_room() && address@ == old(self)@.cursor
                    && final(self)@ == old(self)@.advanced(),
                Err(e) => !old(self)@.has_room() && final(self)@ == old(self)@,
            },
    {
        let address = self.get_variable_index();
        match self.increment_variable_index() {
            Ok(()) => Ok(address),
            Err(_) => Err(SymbolTableAllocateError::OutOfMemory),
        }
    }
}

impl Default for SymbolTable {
    fn default() -> (result: Self)
        ensures
            result@ == SymbolTableView::initial(),
    {
        Self::new()
    }
}

} // verus!
