use micro1_asm::lexer::tokenize;
use micro1_asm::parser::{
    parse, Alu, AluAndShift, AluThrough, Ast, CalculationStatement, ExStatement, Flag, FlagState,
    Instruction, Lbus, LbusOrRbus, LbusSource, MemoryStatement, ParseError, Rbus, RbusSource,
    Sbus, Shift, Statement, TestAndSequenceStatement,
};
use micro1_asm::token::Token;

fn empty() -> Instruction {
    Instruction {
        label: None,
        address: None,
        test_and_sequence_statement: None,
        memory_statement: None,
        calculation_statement: None,
        ex_statement: None,
    }
}

fn read(source: &str) -> Ast {
    let (ast, errors) = parse(tokenize(source));
    assert_eq!(errors, vec![]);
    ast.unwrap()
}

fn body(lines: &str) -> Instruction {
    let source = format!(".TITLE T\n*\n{}.END\n", lines);
    let ast = read(&source);
    assert_eq!(ast.instructions.len(), 1);
    ast.instructions[0].clone()
}

fn faults(source: &str) -> Vec<ParseError> {
    let (ast, errors) = parse(tokenize(source));
    assert_eq!(ast, None);
    assert!(!errors.is_empty());
    errors
}

fn sequence(line: &str) -> Option<TestAndSequenceStatement> {
    body(line).test_and_sequence_statement
}

fn calculation(line: &str) -> Option<CalculationStatement> {
    body(line).calculation_statement
}

fn ex(line: &str) -> Option<ExStatement> {
    body(line).ex_statement
}

#[test]
fn minimal_program() {
    let ast = read(".TITLE HELLO\n* L1:\n  GOTO FETCH\n.END");
    assert_eq!(ast.title, "HELLO");
    let mut expected = empty();
    expected.label = Some("L1".to_string());
    expected.test_and_sequence_statement =
        Some(TestAndSequenceStatement::Goto("FETCH".to_string()));
    assert_eq!(ast.instructions, vec![expected]);
}

#[test]
fn heads() {
    let ast = read(".TITLE T\n*\n* 010\n* L:\n* L: D\"20\n* ABC\n* ABC:\n* ABC: B\"101\n* XYZ: 0FFF\n.END");
    let heads: Vec<(Option<String>, Option<u16>)> =
        ast.instructions.iter().map(|i| (i.label.clone(), i.address)).collect();
    assert_eq!(
        heads,
        vec![
            (None, None),
            (None, Some(0x010)),
            (Some("L".to_string()), None),
            (Some("L".to_string()), Some(20)),
            (None, Some(0xABC)),
            (Some("ABC".to_string()), None),
            (Some("ABC".to_string()), Some(5)),
            (Some("XYZ".to_string()), Some(0xFFF)),
        ]
    );
}

#[test]
fn all_four_parts_with_blank_lines_and_comments() {
    let source = "\r\n; a program\r\n.TITLE DEMO ; its name\r\n\r\n* LOOP: 100\r\n\r\n  IF ZER = 1 THEN LOOP\r\n  READ\r\n\r\n  R0 := R1 + R2\r\n  FLAG SAVE ; keep the flags\r\n\r\n.END\r\n\r\n";
    let ast = read(source);
    assert_eq!(ast.title, "DEMO");
    let expected = Instruction {
        label: Some("LOOP".to_string()),
        address: Some(0x100),
        test_and_sequence_statement: Some(TestAndSequenceStatement::If(
            Flag::Zer,
            FlagState::One,
            "LOOP".to_string(),
            false,
        )),
        memory_statement: Some(MemoryStatement::Read),
        calculation_statement: Some(CalculationStatement::Alu(
            Sbus::R0,
            Statement::First(Lbus::R1, AluAndShift { alu: Alu::Plus, shift: None }, Rbus::R2),
        )),
        ex_statement: Some(ExStatement::FlagSave),
    };
    assert_eq!(ast.instructions, vec![expected]);
}

#[test]
fn sequence_statements() {
    assert_eq!(sequence("GOTO L\n"), Some(TestAndSequenceStatement::Goto("L".to_string())));
    assert_eq!(sequence("CALL SUB\n"), Some(TestAndSequenceStatement::Call("SUB".to_string())));
    assert_eq!(sequence("RETURN\n"), Some(TestAndSequenceStatement::Return));
    assert_eq!(sequence("IOP T\n"), Some(TestAndSequenceStatement::Iop("T".to_string())));
    assert_eq!(sequence("IRA T\n"), Some(TestAndSequenceStatement::Ira("T".to_string())));
    assert_eq!(sequence("IAB T\n"), Some(TestAndSequenceStatement::Iab("T".to_string())));
    assert_eq!(sequence("NSQ\n"), Some(TestAndSequenceStatement::Nsq));
    assert_eq!(sequence(""), None);
}

#[test]
fn conditional_branches() {
    assert_eq!(
        sequence("IF NEG = 0 THEN L\n"),
        Some(TestAndSequenceStatement::If(Flag::Neg, FlagState::Zero, "L".to_string(), false))
    );
    assert_eq!(
        sequence("IF CRY = 1 THEN L\n"),
        Some(TestAndSequenceStatement::If(Flag::Cry, FlagState::One, "L".to_string(), false))
    );
    assert_eq!(
        sequence("IF OV = 0 THEN L ELSE FETCH\n"),
        Some(TestAndSequenceStatement::If(Flag::Ov, FlagState::Zero, "L".to_string(), true))
    );
    assert_eq!(
        sequence("IF CZ = 00 THEN L\n"),
        Some(TestAndSequenceStatement::If(Flag::Cz, FlagState::Zero, "L".to_string(), false))
    );
    assert_eq!(
        sequence("IF T = 1 THEN T\n"),
        Some(TestAndSequenceStatement::If(Flag::T, FlagState::One, "T".to_string(), false))
    );
}

#[test]
fn calculations() {
    assert_eq!(
        calculation("R0 := R1 + R2\n"),
        Some(CalculationStatement::Alu(
            Sbus::R0,
            Statement::First(Lbus::R1, AluAndShift { alu: Alu::Plus, shift: None }, Rbus::R2),
        ))
    );
    assert_eq!(
        calculation("PC := FSR XOR:SWP RAP\n"),
        Some(CalculationStatement::Alu(
            Sbus::Pc,
            Statement::First(
                Lbus::Fsr,
                AluAndShift { alu: Alu::Xor, shift: Some(Shift::Swp) },
                Rbus::Rap,
            ),
        ))
    );
    assert_eq!(
        calculation("RBP := ZERO - D\"5\n"),
        Some(CalculationStatement::Alu(
            Sbus::Rbp,
            Statement::First(
                Lbus::Zero,
                AluAndShift { alu: Alu::Minus, shift: None },
                Rbus::Literal(5),
            ),
        ))
    );
    assert_eq!(
        calculation("SET BY IO AND 0FF\n"),
        Some(CalculationStatement::SetBy(Statement::First(
            Lbus::Io,
            AluAndShift { alu: Alu::And, shift: None },
            Rbus::Literal(0xFF),
        )))
    );
    assert_eq!(
        calculation("SET BY MM $ B\"11\n"),
        Some(CalculationStatement::SetBy(Statement::First(
            Lbus::Mm,
            AluAndShift { alu: Alu::Dollar, shift: None },
            Rbus::Literal(3),
        )))
    );
    assert_eq!(
        calculation("RA := IR @:NSB R7\n"),
        Some(CalculationStatement::Alu(
            Sbus::Ra,
            Statement::First(
                Lbus::Ir,
                AluAndShift { alu: Alu::At, shift: Some(Shift::Nsb) },
                Rbus::R7,
            ),
        ))
    );
    assert_eq!(
        calculation("RB := RB OR RA\n"),
        Some(CalculationStatement::Alu(
            Sbus::Rb,
            Statement::First(Lbus::Rb, AluAndShift { alu: Alu::Or, shift: None }, Rbus::Ra),
        ))
    );
}

#[test]
fn single_bus_calculations() {
    assert_eq!(
        calculation("R0 := R1\n"),
        Some(CalculationStatement::Alu(
            Sbus::R0,
            Statement::AluThrough(AluThrough {
                shift: None,
                lbus_or_rbus: LbusOrRbus::Lbus(Lbus::R1),
            }),
        ))
    );
    assert_eq!(
        calculation("R0 := SRA PC\n"),
        Some(CalculationStatement::Alu(
            Sbus::R0,
            Statement::AluThrough(AluThrough {
                shift: Some(Shift::Sra),
                lbus_or_rbus: LbusOrRbus::Lbus(Lbus::Pc),
            }),
        ))
    );
    assert_eq!(
        calculation("R0 := RA\n"),
        Some(CalculationStatement::Alu(
            Sbus::R0,
            Statement::AluThrough(AluThrough {
                shift: None,
                lbus_or_rbus: LbusOrRbus::Rbus(Rbus::Ra),
            }),
        ))
    );
    assert_eq!(
        calculation("SET BY SLL D\"1024\n"),
        Some(CalculationStatement::SetBy(Statement::AluThrough(AluThrough {
            shift: Some(Shift::Sll),
            lbus_or_rbus: LbusOrRbus::Rbus(Rbus::Literal(1024)),
        })))
    );
}

#[test]
fn identifier_of_hexadecimal_digits_is_a_number() {
    assert_eq!(
        calculation("R0 := R1 + FF\n"),
        Some(CalculationStatement::Alu(
            Sbus::R0,
            Statement::First(
                Lbus::R1,
                AluAndShift { alu: Alu::Plus, shift: None },
                Rbus::Literal(0xFF),
            ),
        ))
    );
    assert_eq!(
        calculation("R0 := beef\n"),
        Some(CalculationStatement::Alu(
            Sbus::R0,
            Statement::AluThrough(AluThrough {
                shift: None,
                lbus_or_rbus: LbusOrRbus::Rbus(Rbus::Literal(0xBEEF)),
            }),
        ))
    );
    assert_eq!(ex("C := A\n"), Some(ExStatement::C(RbusSource::Source(Rbus::Literal(0xA)))));
}

#[test]
fn ex_statements() {
    assert_eq!(ex("C - 1\n"), Some(ExStatement::DecrimentC));
    assert_eq!(ex("FLAG SAVE\n"), Some(ExStatement::FlagSave));
    assert_eq!(ex("WITH CRY\n"), Some(ExStatement::WithCry));
    assert_eq!(ex("WITH ONE\n"), Some(ExStatement::WithOne));
    assert_eq!(ex("IR := LBUS\n"), Some(ExStatement::Ir(LbusSource::Lbus)));
    assert_eq!(ex("IR := MM\n"), Some(ExStatement::Ir(LbusSource::Source(Lbus::Mm))));
    assert_eq!(ex("IO := LBUS\n"), Some(ExStatement::Io(LbusSource::Lbus)));
    assert_eq!(ex("IO := R3\n"), Some(ExStatement::Io(LbusSource::Source(Lbus::R3))));
    assert_eq!(ex("C := RBUS\n"), Some(ExStatement::C(RbusSource::Rbus)));
    assert_eq!(ex("C := RAP\n"), Some(ExStatement::C(RbusSource::Source(Rbus::Rap))));
    assert_eq!(ex("C := D\"16\n"), Some(ExStatement::C(RbusSource::Source(Rbus::Literal(16)))));
    assert_eq!(ex("EXECUTE IO\n"), Some(ExStatement::ExecuteIo));
    assert_eq!(ex("T := 1\n"), Some(ExStatement::Assign1ToT));
    assert_eq!(ex("T := 0\n"), Some(ExStatement::Assign0ToT));
    assert_eq!(ex("IRA + 1\n"), Some(ExStatement::IraPlus1));
    assert_eq!(ex("IRB + 1\n"), Some(ExStatement::IrbPlus1));
    assert_eq!(ex("IRB - 1\n"), Some(ExStatement::IrbMinus1));
    assert_eq!(ex("SET HLT\n"), Some(ExStatement::SetHlt));
    assert_eq!(ex("SET OV\n"), Some(ExStatement::SetOv));
    assert_eq!(ex("NEX\n"), Some(ExStatement::Nex));
}

#[test]
fn memory_statement_need_not_end_its_line() {
    let instruction = body("WRITE R0 := R1 + R2\n");
    assert_eq!(instruction.memory_statement, Some(MemoryStatement::Write));
    assert!(instruction.calculation_statement.is_some());
    assert_eq!(body("READ\n").memory_statement, Some(MemoryStatement::Read));
}

#[test]
fn several_instructions() {
    let ast = read(".TITLE T\n* A:\n GOTO B\n* B:\n RETURN\n SET HLT\n*\n.END\n");
    assert_eq!(ast.instructions.len(), 3);
    assert_eq!(ast.instructions[0].label, Some("A".to_string()));
    assert_eq!(
        ast.instructions[1].test_and_sequence_statement,
        Some(TestAndSequenceStatement::Return)
    );
    assert_eq!(ast.instructions[1].ex_statement, Some(ExStatement::SetHlt));
    assert_eq!(ast.instructions[2], empty());
}

#[test]
fn statement_that_does_not_fit_is_a_fault() {
    let errors = faults(".TITLE T\n* L1:\n GOTO\n* L2:\n NSQ\n.END\n");
    assert_eq!(
        errors,
        vec![ParseError { span: 16..20, found: Some(Token::String("GOTO".to_string())) }]
    );
}

#[test]
fn parts_out_of_order_are_a_fault() {
    let errors = faults(".TITLE T\n*\n FLAG SAVE\n READ\n.END\n");
    assert_eq!(
        errors,
        vec![ParseError { span: 23..27, found: Some(Token::String("READ".to_string())) }]
    );
}

#[test]
fn conditional_branch_on_one_takes_no_else() {
    let errors = faults(".TITLE T\n*\nIF ZER = 1 THEN L ELSE FETCH\n.END\n");
    assert_eq!(errors.len(), 1);
    assert_eq!(errors[0].found, Some(Token::String("IF".to_string())));
    assert_eq!(errors[0].span, 11..13);
}

#[test]
fn head_must_end_its_line() {
    let errors = faults(".TITLE T\n* L1 L2\n.END\n");
    assert_eq!(
        errors,
        vec![ParseError { span: 11..13, found: Some(Token::String("L1".to_string())) }]
    );
    let errors = faults(".TITLE T\n* L1: 10 20\n.END\n");
    assert_eq!(errors, vec![ParseError { span: 18..20, found: Some(Token::Hexadecimal(0x20)) }]);
}

#[test]
fn reading_goes_on_behind_a_fault() {
    let errors = faults(".TITLE T\n* X Y\n*\n NSQ\n FOO BAR\n* P Q\n.END\n");
    let found: Vec<Option<Token>> = errors.into_iter().map(|e| e.found).collect();
    assert_eq!(
        found,
        vec![
            Some(Token::String("X".to_string())),
            Some(Token::String("FOO".to_string())),
            Some(Token::String("P".to_string())),
        ]
    );
}

#[test]
fn title_line_is_required() {
    let errors = faults("* L:\n.END\n");
    assert_eq!(errors, vec![ParseError { span: 0..1, found: Some(Token::Star) }]);
    let errors = faults(".TITLE\n*\n.END\n");
    assert_eq!(errors, vec![ParseError { span: 6..7, found: Some(Token::Eol) }]);
    let errors = faults(".TITLE A B\n*\n.END\n");
    assert_eq!(
        errors,
        vec![ParseError { span: 9..10, found: Some(Token::String("B".to_string())) }]
    );
    let errors = faults(".NAME A\n*\n.END\n");
    assert_eq!(
        errors,
        vec![ParseError { span: 0..5, found: Some(Token::DotString("NAME".to_string())) }]
    );
}

#[test]
fn end_is_required() {
    let errors = faults(".TITLE T\n*\n");
    assert_eq!(errors, vec![ParseError { span: 11..11, found: None }]);
    let errors = faults(".TITLE T\n*\n.END\nFOO\n");
    assert_eq!(
        errors,
        vec![ParseError { span: 16..19, found: Some(Token::String("FOO".to_string())) }]
    );
}

#[test]
fn program_needs_an_instruction() {
    let errors = faults(".TITLE T\n.END\n");
    assert_eq!(
        errors,
        vec![ParseError { span: 9..13, found: Some(Token::DotString("END".to_string())) }]
    );
}

#[test]
fn empty_text_is_no_program() {
    let errors = faults("");
    assert_eq!(
        errors,
        vec![ParseError { span: 0..0, found: None }, ParseError { span: 0..0, found: None }]
    );
}

#[test]
fn error_token_is_a_fault() {
    let errors = faults(".TITLE T\n*\n R0 := R1 + D\"70000\n.END\n");
    assert_eq!(errors.len(), 1);
    assert_eq!(errors[0].found, Some(Token::String("R0".to_string())));
}

#[test]
fn tokens_need_no_text_behind_them() {
    let tokens = vec![
        (Token::DotString("TITLE".to_string()), 0..0),
        (Token::String("T".to_string()), 0..0),
        (Token::Eol, 0..0),
        (Token::Star, 0..0),
        (Token::Decimal(7), 0..0),
        (Token::Eol, 0..0),
        (Token::DotString("END".to_string()), 0..0),
    ];
    let (ast, errors) = parse(tokens);
    assert_eq!(errors, vec![]);
    let mut expected = empty();
    expected.address = Some(7);
    assert_eq!(ast, Some(Ast { title: "T".to_string(), instructions: vec![expected] }));
}
