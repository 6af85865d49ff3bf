use hack_asm::program_line::{LineType, ProgramLine};

#[test]
fn c_instruction() {
    let line: ProgramLine = "A=BD".into();
    assert_eq!(line.line_type(), LineType::CInstruction);
}

#[test]
fn a_instruction() {
    let line: ProgramLine = "@123".into();
    assert_eq!(line.line_type(), LineType::AInstruction);
}

#[test]
fn label() {
    let line: ProgramLine = "(SOME_LABEL)".into();
    assert_eq!(line.line_type(), LineType::Label);
}

#[test]
fn advance() {
    let mut line: ProgramLine = "ABCDE".into();
    line.advance(3);

    assert_eq!(line.rest(), "DE");
}

#[test]
fn consume() {
    let mut line: ProgramLine = "ABC".into();
    line.consume("ABC");

    assert_eq!(line.rest(), "")
}

#[test]
fn consume_too_many() {
    let mut line: ProgramLine = "ABC".into();
    line.consume("ABCDE");

    assert_eq!(line.rest(), "ABC")
}

#[test]
fn longest_match() {
    let mut line: ProgramLine = "HELLO WORLD!".into();
    let prefixes = ["ABC", "HELL", "HELLO", "WORLD"];
    let result = line.take_longest_prefix(&prefixes, " ");

    assert_eq!(result, "HELLO");
    assert_eq!(line.rest(), "WORLD!")
}

#[test]
fn take_valid() {
    let mut line: ProgramLine = "AAABBBCDEF".into();
    let valid = "ABC";
    let result = line.take_valid(valid);

    assert_eq!(result, "AAABBBC");
    assert_eq!(line.rest(), "DEF");
}

#[test]
fn comment_and_empty_lines_are_other() {
    let comment: ProgramLine = "  // note".into();
    assert_eq!(comment.line_type(), LineType::Other);
    assert!(comment.rest_is_comment_or_empty());
    let empty: ProgramLine = "".into();
    assert_eq!(empty.line_type(), LineType::Other);
    assert!(empty.rest_is_comment_or_empty());
    assert_eq!(empty.peek(), None);
    let blank: ProgramLine = " \t\r".into();
    assert_eq!(blank.rest(), "");
    let slash: ProgramLine = "/ x".into();
    assert_eq!(slash.line_type(), LineType::CInstruction);
    assert!(!slash.rest_is_comment_or_empty());
}

#[test]
fn leading_white_space_is_skipped_and_the_line_is_kept() {
    let line: ProgramLine = "\t  @value // load".into();
    assert_eq!(line.rest(), "@value // load");
    assert_eq!(line.line(), "\t  @value // load");
    assert_eq!(line.peek(), Some('@'));
}

#[test]
fn rest_after_an_instruction_may_hold_a_comment() {
    let mut line: ProgramLine = "D=A   // copy".into();
    line.advance(3);
    assert!(line.rest_is_comment_or_empty());
    let mut other: ProgramLine = "D=A M".into();
    other.advance(3);
    assert!(!other.rest_is_comment_or_empty());
}

#[test]
fn longest_prefix_takes_the_first_of_equal_length_and_skips_empty_options() {
    let mut line: ProgramLine = "AB=1".into();
    let prefixes = ["", "A", "AB", "AB"];
    assert_eq!(line.take_longest_prefix(&prefixes, "="), "AB");
    assert_eq!(line.rest(), "1");
    let mut none: ProgramLine = "AB=1".into();
    assert_eq!(none.take_longest_prefix(&["B", "ABC", ""], "="), "");
    assert_eq!(none.rest(), "AB=1");
}

#[test]
fn take_valid_counts_characters_not_bytes() {
    let mut line: ProgramLine = "ééx".into();
    assert_eq!(line.take_valid("é"), "éé");
    assert_eq!(line.rest(), "x");
    let mut nothing: ProgramLine = "xyz".into();
    assert_eq!(nothing.take_valid("abc"), "");
    assert_eq!(nothing.rest(), "xyz");
}
