use hack_asm::hack_int::{HackInt, ParseHackIntError};
use hack_asm::symbol_table::{
    built_in_value, SymbolTable, SymbolTableAllocateError, SymbolTableGetError,
    SymbolTableSetError,
};

fn address(value: u16) -> HackInt {
    HackInt::try_new(value).unwrap()
}

#[test]
fn test_error_redefine_built_in() {
    let mut table = SymbolTable::new();

    // try to redefine a built in symbol
    let error = table.set("R1", address(42)).unwrap_err();

    match error {
        SymbolTableSetError::RedefinedBuiltIn(_) => (),
        _ => panic!("expected RedefinedBuiltIn error"),
    }
}

#[test]
fn test_error_redefine_user_defined() {
    let mut table = SymbolTable::new();

    // try to redefine a user defined symbol
    table.set("some_var", address(42)).unwrap();
    let error = table.set("some_var", address(42)).unwrap_err();

    match error {
        SymbolTableSetError::Redefined(_) => (),
        _ => panic!("expected RedefinedBuiltIn error"),
    }
}

#[test]
fn symbol_undefined() {
    let table = SymbolTable::default();
    assert!(table.get("some_symbol").is_err());
    assert_eq!(
        table.get("some_symbol").unwrap_err(),
        SymbolTableGetError::NotDefined("some_symbol".to_string())
    );
}

#[test]
fn every_built_in_symbol_has_its_documented_value() {
    let expected: [(&str, u16); 23] = [
        ("R0", 0),
        ("R1", 1),
        ("R2", 2),
        ("R3", 3),
        ("R4", 4),
        ("R5", 5),
        ("R6", 6),
        ("R7", 7),
        ("R8", 8),
        ("R9", 9),
        ("R10", 10),
        ("R11", 11),
        ("R12", 12),
        ("R13", 13),
        ("R14", 14),
        ("R15", 15),
        ("SP", 0),
        ("LCL", 1),
        ("ARG", 2),
        ("THIS", 3),
        ("THAT", 4),
        ("SCREEN", 16384),
        ("KBD", 24576),
    ];
    let mut table = SymbolTable::new();
    table.set("user", address(7)).unwrap();
    for (name, value) in expected {
        assert_eq!(built_in_value(name).unwrap().value(), value, "{}", name);
        assert_eq!(table.get(name).unwrap().value(), value, "{}", name);
        assert_eq!(
            table.set(name, address(99)).unwrap_err(),
            SymbolTableSetError::RedefinedBuiltIn(name.to_string())
        );
        assert_eq!(table.get(name).unwrap().value(), value, "{}", name);
    }
}

#[test]
fn names_close_to_built_in_symbols_are_ordinary() {
    let mut table = SymbolTable::new();
    for name in ["R16", "R", "R00", "r0", "sp", "Screen", "KBD ", "THI", "THISS", "", "R1x"] {
        assert!(built_in_value(name).is_none(), "{:?}", name);
        assert!(table.get(name).is_err(), "{:?}", name);
        table.set(name, address(5)).unwrap();
        assert_eq!(table.get(name).unwrap().value(), 5);
    }
}

#[test]
fn a_symbol_is_set_once_and_keeps_its_value() {
    let mut table = SymbolTable::new();
    table.set("value", address(42)).unwrap();
    assert_eq!(
        table.set("value", address(101)).unwrap_err(),
        SymbolTableSetError::Redefined("value".to_string())
    );
    assert_eq!(table.get("value").unwrap().value(), 42);
    assert!(table.get("undefined").is_err());
    assert!(table.get("VALUE").is_err());
}

#[test]
fn variables_are_allocated_from_16_up_to_the_end_of_the_memory() {
    let mut table = SymbolTable::new();
    assert_eq!(table.get_variable_index().value(), 16);
    for expected in 16..=16383u16 {
        assert_eq!(table.get_variable_index().value(), expected);
        assert_eq!(table.allocate_variable().unwrap().value(), expected);
    }
    assert_eq!(table.get_variable_index().value(), 16384);
    assert_eq!(table.allocate_variable().unwrap_err(), SymbolTableAllocateError::OutOfMemory);
    assert_eq!(table.get_variable_index().value(), 16384);
    assert_eq!(table.increment_variable_index().unwrap_err(), ParseHackIntError::SizeExceeded);
    assert_eq!(table.get_variable_index().value(), 16384);
}

#[test]
fn the_variable_index_moves_by_one() {
    let mut table = SymbolTable::new();
    table.increment_variable_index().unwrap();
    assert_eq!(table.get_variable_index().value(), 17);
    table.set("x", address(3)).unwrap();
    assert_eq!(table.get_variable_index().value(), 17);
    table.increment_variable_index().unwrap();
    assert_eq!(table.get_variable_index().value(), 18);
}
