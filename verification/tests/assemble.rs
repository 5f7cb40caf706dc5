use micro1_asm::assembler::{assemble, assemble_program};
use micro1_asm::error::AsmError;
use micro1_asm::parser::{Ast, Instruction, ParseError, TestAndSequenceStatement};
use micro1_asm::token::Token;

#[test]
fn minimal_program_gives_one_word() {
    let text = assemble(".TITLE HELLO\n* L1:\n  GOTO FETCH\n.END\n").unwrap();
    assert_eq!(text, "CM HELLO\n000  FFFFF8FE00");
}

#[test]
fn whole_program() {
    let source = "\
.TITLE DEMO\r
; dispatch on the operation code\r
* START:\r
  IOP OPS\r
  READ\r
* 020\r
  R0 := R1 + D\"5\r
* OPS:\r
  GOTO START\r
  R2 := SLL R3\r
  FLAG SAVE\r
* LAST: 0ABC\r
  CALL LAST\r
*\r
  IF ZER = 0 THEN OPS ELSE FETCH\r
.END\r
";
    let expected = "\
CM DEMO
000  FFFFC5FE03
020  1A1C3FFE05
030  3FE0B00200
ABC  FFFFF1BEBC
ABD  FFFFF81E30";
    assert_eq!(assemble(source).unwrap(), expected);
}

#[test]
fn lex_faults_are_all_reported() {
    assert_eq!(
        assemble(".TITLE T\n* ?\n R0 := R1 + 3FFFFF\n.END\n"),
        Err(AsmError::Lex(vec![11..12, 25..31]))
    );
}

#[test]
fn comment_needs_a_carriage_return() {
    assert_eq!(assemble(".TITLE T ; name\n*\n.END\n"), Err(AsmError::Lex(vec![9..23])));
    assert_eq!(assemble(".TITLE T ; name\r\n*\n.END\n").unwrap(), "CM T\n000  FFFFFFFE00");
}

#[test]
fn parse_faults_are_all_reported() {
    assert_eq!(
        assemble(".TITLE T\n* G H\n*\n.END\nX"),
        Err(AsmError::Parse(vec![
            ParseError { span: 11..12, found: Some(Token::String("G".to_string())) },
            ParseError { span: 22..23, found: Some(Token::String("X".to_string())) },
        ]))
    );
}

#[test]
fn misaligned_pin_is_refused() {
    assert_eq!(
        assemble(".TITLE T\n*\n IOP T\n* T: 101\n.END\n"),
        Err(AsmError::BadAlignment)
    );
    assert_eq!(
        assemble(".TITLE T\n*\n IOP T\n* T: 100\n.END\n").unwrap(),
        "CM T\n000  FFFFF5FE10\n100  FFFFFFFE00"
    );
}

#[test]
fn address_beyond_the_rom_is_refused() {
    assert_eq!(assemble(".TITLE T\n* 1000\n.END\n"), Err(AsmError::AddressOutOfRange));
    assert_eq!(assemble(".TITLE T\n* 0FFF\n*\n.END\n"), Err(AsmError::AddressOutOfRange));
}

#[test]
fn first_unresolved_label_is_reported() {
    assert_eq!(
        assemble(".TITLE T\n*\n GOTO B\n*\n CALL A\n.END\n"),
        Err(AsmError::UnresolvedLabel("B".to_string()))
    );
    assert_eq!(
        assemble(".TITLE T\n*\n IF T = 1 THEN NOWHERE\n.END\n"),
        Err(AsmError::UnresolvedLabel("NOWHERE".to_string()))
    );
}

#[test]
fn illegal_encoding_is_refused() {
    assert_eq!(
        assemble(".TITLE T\n* L:\n GOTO L\n R0 := R1 + D\"1024\n.END\n"),
        Err(AsmError::IllegalEncoding)
    );
    assert_eq!(
        assemble(".TITLE T\n* L:\n R0 := R1 + R2\n IR := PC\n.END\n"),
        Err(AsmError::IllegalEncoding)
    );
    assert_eq!(
        assemble(".TITLE T\n* L:\n R0 := R1 + D\"1024\n.END\n").unwrap(),
        "CM T\n000  1B1C3F0400"
    );
}

#[test]
fn placement_faults_come_before_unresolved_labels() {
    assert_eq!(
        assemble(".TITLE T\n*\n GOTO NOWHERE\n* 1000\n.END\n"),
        Err(AsmError::AddressOutOfRange)
    );
    assert_eq!(
        assemble(".TITLE T\n*\n GOTO NOWHERE\n R0 := R1 + D\"1024\n.END\n"),
        Err(AsmError::UnresolvedLabel("NOWHERE".to_string()))
    );
}

#[test]
fn label_defined_twice_keeps_its_first_address() {
    let first = Instruction {
        label: Some("L".to_string()),
        address: Some(0x005),
        test_and_sequence_statement: Some(TestAndSequenceStatement::Goto("L".to_string())),
        memory_statement: None,
        calculation_statement: None,
        ex_statement: None,
    };
    let mut second = first.clone();
    second.address = None;
    let ast = Ast { title: "TWICE".to_string(), instructions: vec![first, second] };
    assert_eq!(
        assemble_program(&ast).unwrap(),
        "CM TWICE\n005  FFFFF01E05\n006  FFFFF01E05"
    );
}
