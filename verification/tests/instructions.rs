use hack_asm::assembler_context::{AssemblerContext, AssemblerError};
use hack_asm::hack_int::HackInt;
use hack_asm::instructions::{
    AInstruction, AValue, CInstruction, Computation, JumpType, Label, Register,
};

use Register::{A, D, M};

fn word(destination: Option<Vec<Register>>, computation: Computation, jump: Option<JumpType>) -> u16 {
    let instruction = CInstruction { destination, computation, jump };
    assert!(instruction.is_encodable());
    instruction.to_u16()
}

fn symbol(name: &str) -> AInstruction {
    AInstruction { value: AValue::Symbol(name.to_string()) }
}

#[test]
fn symbol_built_in() {
    let mut context = AssemblerContext::default();
    let instr = symbol("R10");
    assert_eq!(instr.to_u16(&mut context).unwrap(), 0b0000000000001010);
}

#[test]
fn symbol_user_defined() {
    let mut context = AssemblerContext::default();
    context.register_label(Label { name: "some_symbol".to_string() }, 42).unwrap();
    let instr = symbol("some_symbol");
    assert_eq!(instr.to_u16(&mut context).unwrap(), 0b0000000000101010);
}

#[test]
fn a_literal_is_its_own_word() {
    let mut context = AssemblerContext::new();
    for value in [0u16, 1, 2, 16384, 32767] {
        let instr = AInstruction { value: AValue::Literal(HackInt::try_new(value).unwrap()) };
        assert_eq!(instr.to_u16(&mut context).unwrap(), value);
        assert_eq!(context.output().len(), 0);
    }
}

#[test]
fn every_computation_has_its_bits() {
    let table: [(Computation, u16); 34] = [
        (Computation::Literal(0), 0b0101010),
        (Computation::Literal(1), 0b0111111),
        (Computation::Literal(-1), 0b0111010),
        (Computation::Identity(D), 0b0001100),
        (Computation::Identity(A), 0b0110000),
        (Computation::Identity(M), 0b1110000),
        (Computation::Not(D), 0b0001101),
        (Computation::Not(A), 0b0110001),
        (Computation::Not(M), 0b1110001),
        (Computation::Neg(D), 0b0001111),
        (Computation::Neg(A), 0b0110011),
        (Computation::Neg(M), 0b1110011),
        (Computation::Inc(D), 0b0011111),
        (Computation::Inc(A), 0b0110111),
        (Computation::Inc(M), 0b1110111),
        (Computation::Dec(D), 0b0001110),
        (Computation::Dec(A), 0b0110010),
        (Computation::Dec(M), 0b1110010),
        (Computation::Add(D, A), 0b0000010),
        (Computation::Add(A, D), 0b0000010),
        (Computation::Add(D, M), 0b1000010),
        (Computation::Add(M, D), 0b1000010),
        (Computation::Sub(D, A), 0b0010011),
        (Computation::Sub(A, D), 0b0000111),
        (Computation::Sub(D, M), 0b1010011),
        (Computation::Sub(M, D), 0b1000111),
        (Computation::And(D, A), 0b0000000),
        (Computation::And(A, D), 0b0000000),
        (Computation::And(D, M), 0b1000000),
        (Computation::And(M, D), 0b1000000),
        (Computation::Or(D, A), 0b0010101),
        (Computation::Or(A, D), 0b0010101),
        (Computation::Or(D, M), 0b1010101),
        (Computation::Or(M, D), 0b1010101),
    ];
    for (computation, bits) in table {
        assert_eq!(computation.encode(), Some(bits), "{:?}", computation);
        assert_eq!(word(None, computation, None), 0b1110000000000000 | (bits << 6), "{:?}", computation);
    }
}

#[test]
fn computations_that_the_machine_does_not_know_have_no_bits() {
    for computation in [
        Computation::Literal(2),
        Computation::Literal(-2),
        Computation::Literal(i8::MIN),
        Computation::Add(A, M),
        Computation::Add(M, A),
        Computation::Add(D, D),
        Computation::Add(A, A),
        Computation::Sub(A, M),
        Computation::Sub(D, D),
        Computation::And(M, A),
        Computation::And(M, M),
        Computation::Or(A, M),
        Computation::Or(D, D),
    ] {
        assert_eq!(computation.encode(), None, "{:?}", computation);
        let instruction = CInstruction { destination: None, computation, jump: None };
        assert!(!instruction.is_encodable());
    }
}

#[test]
fn every_jump_has_its_bits() {
    let table = [
        (None, 0b000),
        (Some(JumpType::Jgt), 0b001),
        (Some(JumpType::Jeq), 0b010),
        (Some(JumpType::Jge), 0b011),
        (Some(JumpType::Jlt), 0b100),
        (Some(JumpType::Jne), 0b101),
        (Some(JumpType::Jle), 0b110),
        (Some(JumpType::Jmp), 0b111),
    ];
    for (jump, bits) in table {
        assert_eq!(word(None, Computation::Literal(0), jump), 0b1110101010000000 | bits);
    }
}

#[test]
fn destinations_are_a_set() {
    let base = 0b1110110000000000;
    assert_eq!(word(None, Computation::Identity(A), None), base);
    assert_eq!(word(Some(vec![]), Computation::Identity(A), None), base);
    assert_eq!(word(Some(vec![M]), Computation::Identity(A), None), base | 0b001000);
    assert_eq!(word(Some(vec![D]), Computation::Identity(A), None), base | 0b010000);
    assert_eq!(word(Some(vec![A]), Computation::Identity(A), None), base | 0b100000);
    assert_eq!(word(Some(vec![M, D]), Computation::Identity(A), None), base | 0b011000);
    assert_eq!(word(Some(vec![D, M]), Computation::Identity(A), None), base | 0b011000);
    assert_eq!(word(Some(vec![A, M, D]), Computation::Identity(A), None), base | 0b111000);
    assert_eq!(word(Some(vec![D, A, M]), Computation::Identity(A), None), base | 0b111000);
    assert_eq!(word(Some(vec![D, D, D]), Computation::Identity(A), None), base | 0b010000);
    assert_eq!(word(Some(vec![A, M, A, M]), Computation::Identity(A), None), base | 0b101000);
}

#[test]
fn whole_instructions_have_the_words_of_the_machine() {
    assert_eq!(word(Some(vec![D]), Computation::Identity(A), None), 0b1110110000010000);
    assert_eq!(word(Some(vec![D]), Computation::Add(D, A), None), 0b1110000010010000);
    assert_eq!(word(Some(vec![M]), Computation::Identity(D), None), 0b1110001100001000);
    assert_eq!(word(None, Computation::Literal(0), Some(JumpType::Jmp)), 0b1110101010000111);
    assert_eq!(word(None, Computation::Identity(D), Some(JumpType::Jeq)), 0b1110001100000010);
    assert_eq!(
        word(Some(vec![A, M, D]), Computation::Or(D, M), Some(JumpType::Jne)),
        0b1111010101111101
    );
}

#[test]
fn a_symbol_without_a_value_becomes_a_variable() {
    let mut context = AssemblerContext::new();
    assert_eq!(symbol("i").to_u16(&mut context).unwrap(), 16);
    assert_eq!(symbol("j").to_u16(&mut context).unwrap(), 17);
    assert_eq!(symbol("i").to_u16(&mut context).unwrap(), 16);
    assert_eq!(symbol("SCREEN").to_u16(&mut context).unwrap(), 16384);
    assert_eq!(symbol("k").to_u16(&mut context).unwrap(), 18);
}

#[test]
fn the_last_variable_has_the_last_address_of_the_memory() {
    let mut context = AssemblerContext::new();
    for expected in 16..=16383u16 {
        let name = format!("v{}", expected);
        assert_eq!(context.get_or_create_variable(&name).unwrap(), expected);
    }
    assert_eq!(
        context.get_or_create_variable("one_too_many").unwrap_err(),
        AssemblerError::TooManyVariables
    );
    assert_eq!(
        symbol("again").to_u16(&mut context).unwrap_err(),
        AssemblerError::TooManyVariables
    );
    assert_eq!(context.get_or_create_variable("v16383").unwrap(), 16383);
    assert_eq!(context.get_or_create_variable("v16").unwrap(), 16);
}
