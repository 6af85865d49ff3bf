//! The instructions of a program and the words that encode them.
//!
//! A C-instruction is the word `111a cccc ccdd djjj`: seven bits for the
//! computation, three for the destination, three for the jump. An
//! A-instruction is its 15-bit value under a leading zero.

use crate::assembler_context::{word_result, AssemblerContext, AssemblerError, Step};
use crate::hack_int::{HackInt, HACK_INT_MAX};
use vstd::pervasive::unreached;
use vstd::prelude::*;

verus! {

/// One of the three registers.
#[derive(Clone, Copy, Debug, PartialEq, Eq, Structural)]
pub enum Register {
    D,
    M,
    A,
}

/// When to jump.
#[derive(Clone, Copy, Debug, PartialEq, Eq, Structural)]
pub enum JumpType {
    Jmp,
    Jgt,
    Jeq,
    Jlt,
    Jge,
    Jle,
    Jne,
}

/// What to compute. The machine knows 28 computations; see
/// [`Computation::code`] for which values of this type stand for one.
#[derive(Clone, Copy, Debug, PartialEq, Eq, Structural)]
pub enum Computation {
    Literal(i8),
    Identity(Register),
    Not(Register),
    Neg(Register),
    Inc(Register),
    Dec(Register),
    Add(Register, Register),
    Sub(Register, Register),
    And(Register, Register),
    Or(Register, Register),
}

/// An instruction that computes, and may store and jump.
#[derive(Debug, PartialEq, Eq)]
pub struct CInstruction {
    pub destination: Option<Vec<Register>>,
    pub computation: Computation,
    pub jump: Option<JumpType>,
}

/// What an A-instruction loads: a name still to be resolved, or a number.
#[derive(Debug, PartialEq, Eq)]
pub enum AValue {
    Symbol(String),
    Literal(HackInt),
}

/// An instruction that loads a value into the address register.
#[derive(Debug, PartialEq, Eq)]
pub struct AInstruction {
    pub value: AValue,
}

/// A name for the instruction that follows it.
#[derive(Debug, PartialEq, Eq)]
pub struct Label {
    pub name: String,
}

/// A C-instruction as contracts see it.
pub struct CInstructionView {
    pub destination: Option<Seq<Register>>,
    pub computation: Computation,
    pub jump: Option<JumpType>,
}

/// An A-instruction's value as contracts see it.
pub enum AValueView {
    Symbol(Seq<char>),
    Literal(int),
}

impl View for CInstruction {
    type V = CInstructionView;

    open spec fn view(&self) -> CInstructionView {
        CInstructionView {
            destination: match self.destination {
                Some(registers) => Some(registers@),
                None => None,
            },
            computation: self.computation,
            jump: self.jump,
        }
    }
}

impl View for AValue {
    type V = AValueView;

    open spec fn view(&self) -> AValueView {
        match self {
            AValue::Symbol(name) => AValueView::Symbol(name@),
            AValue::Literal(value) => AValueView::Literal(value@),
        }
    }
}

impl View for AInstruction {
    type V = AValueView;

    open spec fn view(&self) -> AValueView {
        self.value@
    }
}

impl View for Label {
    type V = Seq<char>;

    open spec fn view(&self) -> Seq<char> {
        self.name@
    }
}

/// The register that stands beside `D` in a pair of two different
/// registers of which one is `D`; `None` for every other pair. `A` and `M`
/// are never combined.
pub open spec fn partner_of_d(left: Register, right: Register) -> Option<Register> {
    match (left, right) {
        (Register::D, Register::A) | (Register::A, Register::D) => Some(Register::A),
        (Register::D, Register::M) | (Register::M, Register::D) => Some(Register::M),
        _ => None,
    }
}

/// The three bits of a jump.
pub open spec fn jump_code(jump: JumpType) -> int {
    match jump {
        JumpType::Jgt => 0b001,
        JumpType::Jeq => 0b010,
        JumpType::Jge => 0b011,
        JumpType::Jlt => 0b100,
        JumpType::Jne => 0b101,
        JumpType::Jle => 0b110,
        JumpType::Jmp => 0b111,
    }
}

/// The three bits of a set of destinations: one bit for each register that
/// occurs, in whatever order and however often.
pub open spec fn dest_code(destinations: Seq<Register>) -> int {
    (if destinations.contains(Register::A) {
        0b100int
    } else {
        0
    }) + (if destinations.contains(Register::D) {
        0b010int
    } else {
        0
    }) + (if destinations.contains(Register::M) {
        0b001int
    } else {
        0
    })
}

/// The word of a C-instruction whose computation the machine knows.
pub open spec fn c_word(instruction: CInstructionView) -> int
    recommends
        instruction.computation.is_legal(),
{
    0b111 * 0x2000 + instruction.computation.code().unwrap() * 0x40 + (match instruction.destination {
        Some(destinations) => dest_code(destinations),
        None => 0,
    }) * 0x8 + (match instruction.jump {
        Some(jump) => jump_code(jump),
        None => 0,
    })
}

impl Computation {
    /// The seven bits `a cccccc` of a computation that the machine knows,
    /// and `None` for every other value. Sums, conjunctions and
    /// disjunctions do not mind the order of their operands; differences
    /// do.
    pub open spec fn code(self) -> Option<int> {
        match self {
            Computation::Literal(0) => Some(0b0101010),
            Computation::Literal(1) => Some(0b0111111),
            Computation::Literal(-1) => Some(0b0111010),
            Computation::Literal(_) => None,
            Computation::Identity(Register::D) => Some(0b0001100),
            Computation::Identity(Register::A) => Some(0b0110000),
            Computation::Identity(Register::M) => Some(0b1110000),
            Computation::Not(Register::D) => Some(0b0001101),
            Computation::Not(Register::A) => Some(0b0110001),
            Computation::Not(Register::M) => Some(0b1110001),
            Computation::Neg(Register::D) => Some(0b0001111),
            Computation::Neg(Register::A) => Some(0b0110011),
            Computation::Neg(Register::M) => Some(0b1110011),
            Computation::Inc(Register::D) => Some(0b0011111),
            Computation::Inc(Register::A) => Some(0b0110111),
            Computation::Inc(Register::M) => Some(0b1110111),
            Computation::Dec(Register::D) => Some(0b0001110),
            Computation::Dec(Register::A) => Some(0b0110010),
            Computation::Dec(Register::M) => Some(0b1110010),
            Computation::Add(left, right) => match partner_of_d(left, right) {
                Some(Register::A) => Some(0b0000010),
                Some(Register::M) => Some(0b1000010),
                _ => None,
            },
            Computation::Sub(Register::D, Register::A) => Some(0b0010011),
            Computation::Sub(Register::A, Register::D) => Some(0b0000111),
            Computation::Sub(Register::D, Register::M) => Some(0b1010011),
            Computation::Sub(Register::M, Register::D) => Some(0b1000111),
            Computation::Sub(_, _) => None,
            Computation::And(left, right) => match partner_of_d(left, right) {
                Some(Register::A) => Some(0b0000000),
                Some(Register::M) => Some(0b1000000),
                _ => None,
            },
            Computation::Or(left, right) => match partner_of_d(left, right) {
                Some(Register::A) => Some(0b0010101),
                Some(Register::M) => Some(0b1010101),
                _ => None,
            },
        }
    }

    /// Whether the machine knows this computation.
    pub open spec fn is_legal(self) -> bool {
        self.code() is Some
    }

    /// The seven bits of this computation, if the machine knows it.
    pub fn encode(self) -> (result: Option<u16>)
        ensures
            match result {
                Some(bits) => self.code() == Some(bits as int) && bits < 0x80,
                None => self.code() is None,
            },
    {
        match self {
            Computation::Literal(value) => {
                if value == 0 {
                    Some(0b0101010)
                } else if value == 1 {
                    Some(0b0111111)
                } else if value == -1 {
                    Some(0b0111010)
                } else {
                    None
                }
            },
            Computation::Identity(Register::D) => Some(0b0001100),
            Computation::Identity(Register::A) => Some(0b0110000),
            Computation::Identity(Register::M) => Some(0b1110000),
            Computation::Not(Register::D) => Some(0b0001101),
            Computation::Not(Register::A) => Some(0b0110001),
            Computation::Not(Register::M) => Some(0b1110001),
            Computation::Neg(Register::D) => Some(0b0001111),
            Computation::Neg(Register::A) => Some(0b0110011),
            Computation::Neg(Register::M) => Some(0b1110011),
            Computation::Inc(Register::D) => Some(0b0011111),
            Computation::Inc(Register::A) => Some(0b0110111),
            Computation::Inc(Register::M) => Some(0b1110111),
            Computation::Dec(Register::D) => Some(0b0001110),
            Computation::Dec(Register::A) => Some(0b0110010),
            Computation::Dec(Register::M) => Some(0b1110010),
            Computation::Add(Register::D, Register::A)
            | Computation::Add(Register::A, Register::D) => Some(0b0000010),
            Computation::Add(Register::D, Register::M)
            | Computation::Add(Register::M, Register::D) => Some(0b1000010),
            Computation::Sub(Register::D, Register::A) => Some(0b0010011),
            Computation::Sub(Register::A, Register::D) => Some(0b0000111),
            Computation::Sub(Register::D, Register::M) => Some(0b1010011),
            Computation::Sub(Register::M, Register::D) => Some(0b1000111),
            Computation::And(Register::D, Register::A)
            | Computation::And(Register::A, Register::D) => Some(0b0000000),
            Computation::And(Register::D, Register::M)
            | Computation::And(Register::M, Register::D) => Some(0b1000000),
            Computation::Or(Register::D, Register::A)
            | Computation::Or(Register::A, Register::D) => Some(0b0010101),
            Computation::Or(Register::D, Register::M)
            | Computation::Or(Register::M, Register::D) => Some(0b1010101),
            _ => None,
        }
    }
}

/// The word of a C-instruction is laid out in four fields: three bits
/// that are set, seven for the computation, three for the destinations
/// and three for the jump. Mere absence of destinations or of a jump
/// leaves its field empty.
pub proof fn law_c_word_layout(instruction: CInstructionView)
    requires
        instruction.computation.is_legal(),
    ensures
        0xE000 <= c_word(instruction) <= 0xFFFF,
        c_word(instruction) / 0x2000 == 0b111,
        (c_word(instruction) / 0x40) % 0x80 == instruction.computation.code()->0,
        (c_word(instruction) / 0x8) % 0x8 == match instruction.destination {
            Some(destinations) => dest_code(destinations),
            None => 0,
        },
        c_word(instruction) % 0x8 == match instruction.jump {
            Some(jump) => jump_code(jump),
            None => 0,
        },
{
}

/// Sums, conjunctions and disjunctions have the same bits whichever
/// operand comes first.
pub proof fn law_commutative_computations(left: Register, right: Register)
    ensures
        Computation::Add(left, right).code() == Computation::Add(right, left).code(),
        Computation::And(left, right).code() == Computation::And(right, left).code(),
        Computation::Or(left, right).code() == Computation::Or(right, left).code(),
{
}

/// The bits of the destinations depend on which registers occur, not on
/// their order or number.
pub proof fn law_destinations_are_a_set(first: Seq<Register>, second: Seq<Register>)
    requires
        forall|r: Register| first.contains(r) <==> second.contains(r),
    ensures
        dest_code(first) == dest_code(second),
{
}

impl CInstruction {
    /// The bits of a jump, in their place in the word.
    fn jump_mask(jump: JumpType) -> (result: u16)
        ensures
            result == jump_code(jump),
    {
        match jump {
            JumpType::Jgt => 0b0000000000000_001,
            JumpType::Jeq => 0b0000000000000_010,
            JumpType::Jge => 0b0000000000000_011,
            JumpType::Jlt => 0b0000000000000_100,
            JumpType::Jne => 0b0000000000000_101,
            JumpType::Jle => 0b0000000000000_110,
            JumpType::Jmp => 0b0000000000000_111,
        }
    }

    /// The bit of one destination, in its place in the word.
    fn register_mask(register: &Register) -> (result: u16)
        ensures
            result == match register {
                Register::D => 0b010_000u16,
                Register::M => 0b001_000u16,
                Register::A => 0b100_000u16,
            },
    {
        match register {
            Register::D => 0b0000000000_010_000,
            Register::M => 0b0000000000_001_000,
            Register::A => 0b0000000000_100_000,
        }
    }

    /// The bits of a list of destinations, in their place in the word.
    fn dest_mask(destinations: &[Register]) -> (result: u16)
        ensures
            result == dest_code(destinations@) * 0x8,
    {
        let mut dest: u16 = 0;
        let mut i: usize = 0;
        assert(destinations@.take(0) =~= Seq::<Register>::empty());
        while i < destinations.len()
            invariant
                i <= destinations.len(),
                dest == dest_code(destinations@.take(i as int)) * 0x8,
            decreases destinations.len() - i,
        {
            let ghost seen = destinations@.take(i as int);
            let ghost more = destinations@.take(i + 1);
            let bit = CInstruction::register_mask(&destinations[i]);
            let ghost before = dest;
            dest = dest | bit;
            proof {
                assert(more =~= seen.push(destinations@[i as int]));
                assert forall|r: Register| more.contains(r) <==> (seen.contains(r)
                    || r == destinations@[i as int]) by {
                    if seen.contains(r) {
                        let j = choose|j: int| 0 <= j < seen.len() && seen[j] == r;
                        assert(more[j] == r);
                    }
                    if r == destinations@[i as int] {
                        assert(more[i as int] == r);
                    }
                }
                let a = seen.contains(Register::A);
                let d = seen.contains(Register::D);
                let m = seen.contains(Register::M);
                assert(before == (if a { 32u16 } else { 0u16 }) + (if d { 16u16 } else { 0u16 })
                    + (if m { 8u16 } else { 0u16 }));
                assert(before | 32 == (if a { before } else { (before + 32) as u16 })
                    && before | 16 == (if d { before } else { (before + 16) as u16 })
                    && before | 8 == (if m { before } else { (before + 8) as u16 }))
                    by (bit_vector)
                    requires
                        before == (if a { 32u16 } else { 0u16 }) + (if d { 16u16 } else { 0u16 })
                            + (if m { 8u16 } else { 0u16 }),
                ;
            }
            i += 1;
        }
        assert(destinations@.take(destinations.len() as int) =~= destinations@);
        dest
    }

    /// The bits of a computation, in their place in the word.
    fn computation_mask(computation: Computation) -> (result: u16)
        requires
            computation.is_legal(),
        ensures
            result == computation.code().unwrap() * 0x40,
    {
        match computation.encode() {
            Some(bits) => bits * 0x40,
            None => unreached(),
        }
    }

    /// Whether the machine knows the computation of this instruction, so
    /// that [`CInstruction::to_u16`] can encode it.
    pub fn is_encodable(&self) -> (result: bool)
        ensures
            result == self@.computation.is_legal(),
    {
        self.computation.encode().is_some()
    }

    /// The word that encodes this instruction.
    pub fn to_u16(&self) -> (result: u16)
        requires
            self@.computation.is_legal(),
        ensures
            result == c_word(self@),
    {
        let dest: u16 = match &self.destination {
            Some(destination) => CInstruction::dest_mask(destination.as_slice()),
            None => 0,
        };
        let jump: u16 = match self.jump {
            Some(jump) => CInstruction::jump_mask(jump),
            None => 0,
        };
        let comp: u16 = CInstruction::computation_mask(self.computation);
        let instruction: u16 = 0b1110000000000000 | dest | jump | comp;
        assert(instruction == 0xE000 + comp + dest + jump) by (bit_vector)
            requires
                instruction == 0b1110000000000000u16 | dest | jump | comp,
                dest == 0 || dest == 8 || dest == 16 || dest == 24 || dest == 32 || dest == 40
                    || dest == 48 || dest == 56,
                jump < 8,
                comp % 64 == 0,
                comp < 0x2000,
        ;
        instruction
    }
}

impl AInstruction {
    /// The word that encodes this instruction: the number itself, or the
    /// address of the symbol, which `context` resolves and, for a new
    /// variable, allocates.
    pub fn to_u16(&self, context: &mut AssemblerContext) -> (result: Result<u16, AssemblerError>)
        ensures
            old(context)@.a_value(self@) == (Step {
                context: final(context)@,
                result: word_result(result),
            }),
            result matches Ok(word) ==> word <= HACK_INT_MAX,
    {
        match &self.value {
            AValue::Symbol(name) => context.get_or_create_variable(name.as_str()),
            AValue::Literal(value) => Ok(value.value()),
        }
    }
}

} // verus!
