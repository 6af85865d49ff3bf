use hack_asm::assembler_context::{AssemblerContext, AssemblerError};
use hack_asm::hack_int::HackInt;
use hack_asm::instructions::{
    AInstruction, AValue, CInstruction, Computation, JumpType, Label, Register,
};
use hack_asm::parsing::ParsedInstruction;
use hack_asm::symbol_table::SymbolTableSetError;

fn label(name: &str) -> Label {
    Label { name: name.to_string() }
}

fn load_symbol(name: &str) -> ParsedInstruction {
    ParsedInstruction::AInstruction(AInstruction { value: AValue::Symbol(name.to_string()) })
}

fn load_number(value: u16) -> ParsedInstruction {
    ParsedInstruction::AInstruction(AInstruction {
        value: AValue::Literal(HackInt::try_new(value).unwrap()),
    })
}

#[test]
fn a_new_context_has_no_output() {
    let context = AssemblerContext::new();
    assert!(context.output().is_empty());
    assert!(AssemblerContext::default().into_output().is_empty());
}

#[test]
fn labels_resolve_to_their_instruction_number() {
    let mut context = AssemblerContext::new();
    context.register_label(label("START"), 0).unwrap();
    context.register_label(label("LOOP"), 2).unwrap();
    context.register_label(label("SAME"), 2).unwrap();
    context.register_label(label("END"), 32767).unwrap();
    assert_eq!(context.get_or_create_variable("START").unwrap(), 0);
    assert_eq!(context.get_or_create_variable("LOOP").unwrap(), 2);
    assert_eq!(context.get_or_create_variable("SAME").unwrap(), 2);
    assert_eq!(context.get_or_create_variable("END").unwrap(), 32767);
    assert_eq!(context.get_or_create_variable("first_variable").unwrap(), 16);
}

#[test]
fn a_label_is_registered_once_and_is_no_built_in_symbol() {
    let mut context = AssemblerContext::new();
    context.register_label(label("LOOP"), 4).unwrap();
    assert_eq!(
        context.register_label(label("LOOP"), 9).unwrap_err(),
        AssemblerError::SymbolTableSetError(SymbolTableSetError::Redefined("LOOP".to_string()))
    );
    assert_eq!(
        context.register_label(label("SCREEN"), 9).unwrap_err(),
        AssemblerError::SymbolTableSetError(SymbolTableSetError::RedefinedBuiltIn(
            "SCREEN".to_string()
        ))
    );
    assert_eq!(context.get_or_create_variable("LOOP").unwrap(), 4);
}

#[test]
fn a_label_behind_more_instructions_than_the_memory_holds_is_refused() {
    let mut context = AssemblerContext::new();
    assert_eq!(
        context.register_label(label("FAR"), 32768).unwrap_err(),
        AssemblerError::TooManyInstructions
    );
    assert_eq!(
        context.register_label(label("R0"), 70000).unwrap_err(),
        AssemblerError::TooManyInstructions
    );
    assert_eq!(context.get_or_create_variable("FAR").unwrap(), 16);
}

#[test]
fn fed_instructions_are_appended_in_order() {
    let mut context = AssemblerContext::new();
    context.register_label(label("END"), 3).unwrap();
    context.feed_instruction(load_number(5)).unwrap();
    context.feed_instruction(load_symbol("x")).unwrap();
    context
        .feed_instruction(ParsedInstruction::CInstruction(CInstruction {
            destination: Some(vec![Register::M]),
            computation: Computation::Literal(1),
            jump: None,
        }))
        .unwrap();
    context.feed_instruction(load_symbol("END")).unwrap();
    context
        .feed_instruction(ParsedInstruction::CInstruction(CInstruction {
            destination: None,
            computation: Computation::Literal(0),
            jump: Some(JumpType::Jmp),
        }))
        .unwrap();
    context.feed_instruction(load_symbol("x")).unwrap();
    assert_eq!(
        context.output(),
        &vec![5, 16, 0b1110111111001000, 3, 0b1110101010000111, 16]
    );
}

#[test]
fn the_instruction_memory_holds_32767_words() {
    let mut context = AssemblerContext::new();
    for _ in 0..32767 {
        context.feed_instruction(load_number(1)).unwrap();
    }
    assert_eq!(context.output().len(), 32767);
    assert_eq!(
        context.feed_instruction(load_number(1)).unwrap_err(),
        AssemblerError::TooManyInstructions
    );
    assert_eq!(
        context
            .feed_instruction(ParsedInstruction::CInstruction(CInstruction {
                destination: None,
                computation: Computation::Literal(0),
                jump: None,
            }))
            .unwrap_err(),
        AssemblerError::TooManyInstructions
    );
    assert_eq!(context.output().len(), 32767);
}

#[test]
fn a_variable_is_allocated_before_the_word_is_refused() {
    let mut context = AssemblerContext::new();
    for _ in 0..32767 {
        context.feed_instruction(load_number(0)).unwrap();
    }
    assert_eq!(
        context.feed_instruction(load_symbol("late")).unwrap_err(),
        AssemblerError::TooManyInstructions
    );
    assert_eq!(context.get_or_create_variable("late").unwrap(), 16);
    assert_eq!(context.get_or_create_variable("later").unwrap(), 17);
}
