use hack_asm::hack_int::{HackInt, ParseHackIntError};
use hack_asm::instructions::{
    AInstruction, AValue, CInstruction, Computation, JumpType, Label, Register,
};
use hack_asm::parsing::a_instruction::a_instruction;
use hack_asm::parsing::c_instruction::{
    binary, c_comp, c_dest, c_instruction, c_jump, constant, register, unary,
};
use hack_asm::parsing::label::label;
use hack_asm::parsing::parser::{HackParser, ParserOutput};
use hack_asm::parsing::symbol::{digits, symbol};
use hack_asm::parsing::{parse_str, ParseError, ParsedInstruction};
use hack_asm::program_line::ProgramLine;

use Register::{A, D, M};

fn number(value: u16) -> ParsedInstruction {
    ParsedInstruction::AInstruction(AInstruction {
        value: AValue::Literal(HackInt::try_new(value).unwrap()),
    })
}

fn name(text: &str) -> ParsedInstruction {
    ParsedInstruction::AInstruction(AInstruction { value: AValue::Symbol(text.to_string()) })
}

fn compute(
    destination: Option<Vec<Register>>,
    computation: Computation,
    jump: Option<JumpType>,
) -> ParsedInstruction {
    ParsedInstruction::CInstruction(CInstruction { destination, computation, jump })
}

fn unrecognized(text: &str) -> ParseError {
    ParseError::UnrecognizedLine(text.to_string())
}

fn instructions(source: &str) -> Vec<ParsedInstruction> {
    let output = parse_str(source).unwrap();
    assert!(output.labels.is_empty());
    output.instructions
}

#[test]
fn an_empty_text_is_an_empty_program() {
    for source in ["", "\n", "\n\n\n", "   ", " \t \n\r\n", "// nothing", "// a\n// b\n", "\n  // end"] {
        assert_eq!(
            parse_str(source).unwrap(),
            ParserOutput { instructions: vec![], labels: vec![] },
            "{:?}",
            source
        );
    }
}

#[test]
fn a_instructions_hold_numbers_and_symbols() {
    assert_eq!(instructions("@0\n"), vec![number(0)]);
    assert_eq!(instructions("@32767\n"), vec![number(32767)]);
    assert_eq!(instructions("@007\n"), vec![number(7)]);
    assert_eq!(instructions("@i\n"), vec![name("i")]);
    assert_eq!(instructions("@R0\n"), vec![name("R0")]);
    assert_eq!(instructions("@sys.init$loop:2_x\n"), vec![name("sys.init$loop:2_x")]);
    assert_eq!(instructions("@Zz9\n"), vec![name("Zz9")]);
}

#[test]
fn a_instructions_that_are_not_well_formed_are_refused() {
    for line in ["@", "@ 1", "@_x", "@.x", "@$x", "@:x", "@-1", "@+1", "@1x", "@x y", "@x-y", "@é", "@x@", "@ x", "@@x", "@12 34"] {
        let source = format!("{}\n", line);
        assert_eq!(parse_str(&source).unwrap_err(), unrecognized(line), "{:?}", line);
    }
}

#[test]
fn numbers_out_of_range_are_told_from_malformed_lines() {
    assert_eq!(
        parse_str("@32768\n").unwrap_err(),
        ParseError::ParseHackIntError(ParseHackIntError::SizeExceeded)
    );
    assert_eq!(
        parse_str("@65535\n").unwrap_err(),
        ParseError::ParseHackIntError(ParseHackIntError::SizeExceeded)
    );
    assert_eq!(
        parse_str("@65536\n").unwrap_err(),
        ParseError::ParseHackIntError(ParseHackIntError::SizeExceeded)
    );
    assert_eq!(
        parse_str("@123456789012345678901234567890 // big\n").unwrap_err(),
        ParseError::ParseHackIntError(ParseHackIntError::SizeExceeded)
    );
    assert_eq!(parse_str("@32768x\n").unwrap_err(), unrecognized("@32768x"));
}

#[test]
fn a_malformed_line_comes_before_a_number_out_of_range() {
    assert_eq!(parse_str("@40000\n@70000\nD=A\n").unwrap_err(),
        ParseError::ParseHackIntError(ParseHackIntError::SizeExceeded));
    assert_eq!(parse_str("@70000\n@40000\nD=A\n").unwrap_err(),
        ParseError::ParseHackIntError(ParseHackIntError::SizeExceeded));
    assert_eq!(parse_str("@40000\nD=A\nnonsense\n@1\n").unwrap_err(), unrecognized("nonsense"));
    assert_eq!(parse_str("@40000").unwrap_err(), unrecognized("@40000"));
}

#[test]
fn every_computation_is_read() {
    let table: [(&str, Computation); 34] = [
        ("0", Computation::Literal(0)),
        ("1", Computation::Literal(1)),
        ("-1", Computation::Literal(-1)),
        ("D", Computation::Identity(D)),
        ("A", Computation::Identity(A)),
        ("M", Computation::Identity(M)),
        ("!D", Computation::Not(D)),
        ("!A", Computation::Not(A)),
        ("!M", Computation::Not(M)),
        ("-D", Computation::Neg(D)),
        ("-A", Computation::Neg(A)),
        ("-M", Computation::Neg(M)),
        ("D+1", Computation::Inc(D)),
        ("A+1", Computation::Inc(A)),
        ("M+1", Computation::Inc(M)),
        ("D-1", Computation::Dec(D)),
        ("A-1", Computation::Dec(A)),
        ("M-1", Computation::Dec(M)),
        ("D+A", Computation::Add(D, A)),
        ("A+D", Computation::Add(A, D)),
        ("D+M", Computation::Add(D, M)),
        ("M+D", Computation::Add(M, D)),
        ("D-A", Computation::Sub(D, A)),
        ("A-D", Computation::Sub(A, D)),
        ("D-M", Computation::Sub(D, M)),
        ("M-D", Computation::Sub(M, D)),
        ("D&A", Computation::And(D, A)),
        ("A&D", Computation::And(A, D)),
        ("D&M", Computation::And(D, M)),
        ("M&D", Computation::And(M, D)),
        ("D|A", Computation::Or(D, A)),
        ("A|D", Computation::Or(A, D)),
        ("D|M", Computation::Or(D, M)),
        ("M|D", Computation::Or(M, D)),
    ];
    for (text, computation) in table {
        assert_eq!(instructions(&format!("{}\n", text)), vec![compute(None, computation, None)], "{}", text);
        assert_eq!(
            instructions(&format!("MD={};JLE\n", text)),
            vec![compute(Some(vec![M, D]), computation, Some(JumpType::Jle))],
            "{}",
            text
        );
    }
}

#[test]
fn computations_that_the_machine_does_not_know_are_refused() {
    for line in [
        "A+M", "M+A", "D+D", "A-M", "M|A", "A&M", "D&D", "1+D", "1-D", "D+0", "D-0", "2", "+1", "--1", "!1", "!0",
        "-0", "D+", "D&1", "D|1", "D*A", "D^A", "D+1+1", "DA", "D=", "=D", "D==A", "D=A=M", "X", "x", "b=a", "D=b", "δ",
        "D=D+A+M", "D!", "-", "!",
    ] {
        let source = format!("{}\n", line);
        assert_eq!(parse_str(&source).unwrap_err(), unrecognized(line), "{:?}", line);
    }
}

#[test]
fn destinations_are_one_to_three_registers_in_any_combination() {
    for (text, registers) in [
        ("A", vec![A]),
        ("M", vec![M]),
        ("D", vec![D]),
        ("AM", vec![A, M]),
        ("MA", vec![M, A]),
        ("MD", vec![M, D]),
        ("AD", vec![A, D]),
        ("AMD", vec![A, M, D]),
        ("DMA", vec![D, M, A]),
        ("ADM", vec![A, D, M]),
        ("DD", vec![D, D]),
        ("MMM", vec![M, M, M]),
    ] {
        assert_eq!(
            instructions(&format!("{}=D+1\n", text)),
            vec![compute(Some(registers), Computation::Inc(D), None)],
            "{}",
            text
        );
    }
    for line in ["AMDA=1", "AMDM=D", "=1", "X=1", "AX=1", "A =1", "A= 1", "amdm=1", "ab=1"] {
        let source = format!("{}\n", line);
        assert_eq!(parse_str(&source).unwrap_err(), unrecognized(line), "{:?}", line);
    }
}

#[test]
fn every_jump_is_read() {
    for (text, jump) in [
        ("JMP", JumpType::Jmp),
        ("JGT", JumpType::Jgt),
        ("JEQ", JumpType::Jeq),
        ("JLT", JumpType::Jlt),
        ("JGE", JumpType::Jge),
        ("JLE", JumpType::Jle),
        ("JNE", JumpType::Jne),
    ] {
        assert_eq!(
            instructions(&format!("D;{}\n", text)),
            vec![compute(None, Computation::Identity(D), Some(jump))],
            "{}",
            text
        );
    }
    for line in ["D;", "D;J", "D;JM", "D;JMPX", "D;jmpx", "D;JXX", "D;JMP;JMP", ";JMP", "D; JMP", "D ;JMP", "D;JGTE", "JMP"] {
        let source = format!("{}\n", line);
        assert_eq!(parse_str(&source).unwrap_err(), unrecognized(line), "{:?}", line);
    }
}

#[test]
fn letters_of_registers_and_jumps_may_be_small() {
    assert_eq!(
        instructions("d=a\nmd=d+1;jle\nAm=m-D;Jmp\n0;jGt\n!m\n-a\nd|M\n"),
        vec![
            compute(Some(vec![D]), Computation::Identity(A), None),
            compute(Some(vec![M, D]), Computation::Inc(D), Some(JumpType::Jle)),
            compute(Some(vec![A, M]), Computation::Sub(M, D), Some(JumpType::Jmp)),
            compute(None, Computation::Literal(0), Some(JumpType::Jgt)),
            compute(None, Computation::Not(M), None),
            compute(None, Computation::Neg(A), None),
            compute(None, Computation::Or(D, M), None),
        ]
    );
    for (text, jump) in [
        ("jmp", JumpType::Jmp),
        ("jgt", JumpType::Jgt),
        ("jeq", JumpType::Jeq),
        ("jlt", JumpType::Jlt),
        ("jge", JumpType::Jge),
        ("jle", JumpType::Jle),
        ("jne", JumpType::Jne),
    ] {
        assert_eq!(
            instructions(&format!("d;{}\n", text)),
            vec![compute(None, Computation::Identity(D), Some(jump))]
        );
    }
    for line in ["a+m", "m-a", "d&d"] {
        let source = format!("{}\n", line);
        assert_eq!(parse_str(&source).unwrap_err(), unrecognized(line), "{:?}", line);
    }
}

#[test]
fn symbols_keep_their_case() {
    assert_eq!(instructions("@sp\n@SP\n@Loop\n"), vec![name("sp"), name("SP"), name("Loop")]);
    let output = parse_str("(loop)\n(LOOP)\n").unwrap();
    assert_eq!(
        output.labels,
        vec![(Label { name: "loop".to_string() }, 0), (Label { name: "LOOP".to_string() }, 0)]
    );
}

#[test]
fn comments_and_white_space_do_not_count() {
    let source = "// a program\n\n   @2   // two\n\tD=A// copy\r\n\n  // only a comment\n@3 //\nD=D+A\t\n";
    assert_eq!(
        instructions(source),
        vec![
            number(2),
            compute(Some(vec![D]), Computation::Identity(A), None),
            number(3),
            compute(Some(vec![D]), Computation::Add(D, A), None),
        ]
    );
    assert_eq!(parse_str("D=A / comment\n").unwrap_err(), unrecognized("D=A / comment"));
    assert_eq!(parse_str("  D=A x\n").unwrap_err(), unrecognized("  D=A x"));
    assert_eq!(parse_str("/ D=A\n").unwrap_err(), unrecognized("/ D=A"));
}

#[test]
fn labels_hold_the_number_of_the_next_instruction() {
    let source = "(START)\n(ALSO)\n@1\n(MID) // here\n  (SAME)\nD=A\n@2\n(END)\n";
    let output = parse_str(source).unwrap();
    assert_eq!(output.instructions.len(), 3);
    assert_eq!(
        output.labels,
        vec![
            (Label { name: "START".to_string() }, 0),
            (Label { name: "ALSO".to_string() }, 0),
            (Label { name: "MID".to_string() }, 1),
            (Label { name: "SAME".to_string() }, 1),
            (Label { name: "END".to_string() }, 3),
        ]
    );
}

#[test]
fn labels_that_are_not_well_formed_are_refused() {
    for line in ["(", "()", "(X", "(X y)", "( X)", "(X )", "(1X)", "(X))", "(X)(Y)", "(X) @1", "(X)D", "(_X)", "X)"] {
        let source = format!("{}\n", line);
        assert_eq!(parse_str(&source).unwrap_err(), unrecognized(line), "{:?}", line);
    }
}

#[test]
fn the_first_line_that_is_not_well_formed_is_reported() {
    assert_eq!(parse_str("@1\nfoo\nbar\n").unwrap_err(), unrecognized("foo"));
    assert_eq!(parse_str("@1\n  bar baz  \nfoo\n").unwrap_err(), unrecognized("  bar baz  "));
}

#[test]
fn an_instruction_must_be_closed_by_a_line_break() {
    assert_eq!(parse_str("@1").unwrap_err(), unrecognized("@1"));
    assert_eq!(parse_str("@1\nD=A").unwrap_err(), unrecognized("D=A"));
    assert_eq!(parse_str("@1\n(END)").unwrap_err(), unrecognized("(END)"));
    assert_eq!(parse_str("@1\nD=A // x").unwrap_err(), unrecognized("D=A // x"));
    assert_eq!(instructions("@1\n   // the end"), vec![number(1)]);
    assert_eq!(instructions("@1\n   "), vec![number(1)]);
}

#[test]
fn the_parser_can_be_fed_line_by_line() {
    let mut parser = HackParser::new();
    parser.feed_line("(TOP)".into(), true).unwrap();
    parser.feed_line("  @TOP".into(), true).unwrap();
    parser.feed_line("".into(), true).unwrap();
    assert_eq!(parser.feed_line("what".into(), true).unwrap_err(), unrecognized("what"));
    assert_eq!(parser.feed_line("0;JMP".into(), false).unwrap_err(), unrecognized("0;JMP"));
    parser.feed_line("0;JMP".into(), true).unwrap();
    parser.feed_line("// done".into(), false).unwrap();
    let output = parser.finish().unwrap();
    assert_eq!(
        output,
        ParserOutput {
            instructions: vec![name("TOP"), compute(None, Computation::Literal(0), Some(JumpType::Jmp))],
            labels: vec![(Label { name: "TOP".to_string() }, 0)],
        }
    );
}

#[test]
fn line_parsers_read_whole_lines() {
    assert_eq!(a_instruction("@sum // total".into()).unwrap(), name("sum"));
    assert_eq!(a_instruction("@12".into()).unwrap(), number(12));
    assert_eq!(a_instruction("D=A".into()).unwrap_err(), unrecognized("D=A"));
    assert_eq!(
        a_instruction("@99999".into()).unwrap_err(),
        ParseError::ParseHackIntError(ParseHackIntError::SizeExceeded)
    );
    assert_eq!(
        c_instruction(" AM=M-1;JNE  // step".into()).unwrap(),
        compute(Some(vec![A, M]), Computation::Dec(M), Some(JumpType::Jne))
    );
    assert_eq!(c_instruction("AM=".into()).unwrap_err(), unrecognized("AM="));
    assert_eq!(label("(LOOP)".into()).unwrap(), Label { name: "LOOP".to_string() });
    assert_eq!(label("LOOP".into()).unwrap_err(), unrecognized("LOOP"));
}

#[test]
fn part_parsers_read_what_they_know_and_nothing_else() {
    let mut line: ProgramLine = "AD=D|M;JGT".into();
    assert_eq!(c_jump(&mut line), None);
    assert_eq!(constant(&mut line), None);
    assert_eq!(unary(&mut line), None);
    assert_eq!(binary(&mut line), None);
    assert_eq!(line.rest(), "AD=D|M;JGT");
    assert_eq!(c_dest(&mut line), Some(vec![A, D]));
    assert_eq!(line.rest(), "D|M;JGT");
    assert_eq!(c_dest(&mut line), None);
    assert_eq!(c_comp(&mut line), Some(Computation::Or(D, M)));
    assert_eq!(line.rest(), ";JGT");
    assert_eq!(c_comp(&mut line), None);
    assert_eq!(c_jump(&mut line), Some(JumpType::Jgt));
    assert_eq!(line.rest(), "");

    let mut line: ProgramLine = "-1-M!AD+1A+M".into();
    assert_eq!(constant(&mut line), Some(Computation::Literal(-1)));
    assert_eq!(unary(&mut line), Some(Computation::Neg(M)));
    assert_eq!(unary(&mut line), Some(Computation::Not(A)));
    assert_eq!(binary(&mut line), None);
    assert_eq!(unary(&mut line), Some(Computation::Inc(D)));
    assert_eq!(binary(&mut line), None);
    assert_eq!(c_comp(&mut line), Some(Computation::Identity(A)));
    assert_eq!(line.rest(), "+M");

    assert_eq!(register('A'), Some(A));
    assert_eq!(register('M'), Some(M));
    assert_eq!(register('D'), Some(D));
    assert_eq!(register('a'), Some(A));
    assert_eq!(register('m'), Some(M));
    assert_eq!(register('d'), Some(D));
    assert_eq!(register('b'), None);
    assert_eq!(register('Á'), None);
    assert_eq!(register('!'), None);
    assert_eq!(register('1'), None);
}

#[test]
fn symbols_and_digits_reach_as_far_as_their_characters() {
    let mut line: ProgramLine = "loop.1$a:b_c)rest".into();
    assert_eq!(symbol(&mut line), Some("loop.1$a:b_c".to_string()));
    assert_eq!(line.rest(), ")rest");
    assert_eq!(symbol(&mut line), None);
    assert_eq!(digits(&mut line), "");
    let mut line: ProgramLine = "0123x".into();
    assert_eq!(symbol(&mut line), None);
    assert_eq!(digits(&mut line), "0123");
    assert_eq!(line.rest(), "x");
}
