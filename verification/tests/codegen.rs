use micro1_asm::codegen::{
    encode, generate, Al, Ex, Lb, MicroInstruction, MicroInstructionLSB16, Mm, Rb, Sb, Sh, Sq, Ts,
};
use micro1_asm::error::AsmError;
use micro1_asm::parser::{
    Alu, AluAndShift, AluThrough, CalculationStatement, ExStatement, Flag, FlagState, Instruction,
    Lbus, LbusOrRbus, LbusSource, MemoryStatement, Rbus, RbusSource, Sbus, Shift, Statement,
    TestAndSequenceStatement,
};
use micro1_asm::symbol::{create_symbol_table, SymbolTable};

fn blank() -> Instruction {
    Instruction {
        label: None,
        address: None,
        test_and_sequence_statement: None,
        memory_statement: None,
        calculation_statement: None,
        ex_statement: None,
    }
}

fn add(sbus: Sbus, lbus: Lbus, rbus: Rbus) -> CalculationStatement {
    CalculationStatement::Alu(
        sbus,
        Statement::First(lbus, AluAndShift { alu: Alu::Plus, shift: None }, rbus),
    )
}

fn table_with(label: &str, address: u16) -> SymbolTable {
    let mut target = blank();
    target.label = Some(label.to_string());
    target.address = Some(address);
    create_symbol_table(&vec![target])
}

fn word_of(instruction: &Instruction, table: &SymbolTable) -> u64 {
    let code = MicroInstruction::try_from(instruction).unwrap();
    code.resolve(table).unwrap().machine_code().unwrap()
}

#[test]
fn idle_instruction_holds_the_none_codes() {
    let word = word_of(&blank(), &SymbolTable::new());
    assert_eq!(word, 0xFFFFFFFE00);
}

#[test]
fn goto_fetch_ends_the_instruction() {
    let mut instruction = blank();
    instruction.test_and_sequence_statement =
        Some(TestAndSequenceStatement::Goto("FETCH".to_string()));
    let code = MicroInstruction::try_from(&instruction).unwrap();
    assert_eq!(code.sq, Sq::Ei);
    assert_eq!(code.machine_code(), Ok(0xFFFFF8FE00));
}

#[test]
fn short_literal_takes_the_low_nine_bits() {
    let mut instruction = blank();
    instruction.calculation_statement = Some(add(Sbus::R0, Lbus::R1, Rbus::Literal(5)));
    let word = word_of(&instruction, &SymbolTable::new());
    assert_eq!(word, 0x1A1C3FFE05);
    assert_eq!((word >> 32) & 0xF, 0xA);
    assert_eq!(word & 0x1FF, 5);
    assert_eq!((word >> 13) & 0x7, 7);
    assert_eq!((word >> 9) & 0xF, 0xF);
}

#[test]
fn long_literal_takes_the_low_half() {
    let mut instruction = blank();
    instruction.calculation_statement = Some(add(Sbus::R0, Lbus::R1, Rbus::Literal(1024)));
    assert_eq!(word_of(&instruction, &SymbolTable::new()), 0x1B1C3F0400);
}

#[test]
fn literal_bounds() {
    let mut instruction = blank();
    instruction.calculation_statement = Some(add(Sbus::R0, Lbus::R1, Rbus::Literal(0)));
    assert_eq!((word_of(&instruction, &SymbolTable::new()) >> 32) & 0xF, 0xF);
    instruction.calculation_statement = Some(add(Sbus::R0, Lbus::R1, Rbus::Literal(511)));
    let word = word_of(&instruction, &SymbolTable::new());
    assert_eq!((word >> 32) & 0xF, 0xA);
    assert_eq!(word & 0xFFFF, 0xFFFF);
    instruction.calculation_statement = Some(add(Sbus::R0, Lbus::R1, Rbus::Literal(512)));
    let word = word_of(&instruction, &SymbolTable::new());
    assert_eq!((word >> 32) & 0xF, 0xB);
    assert_eq!(word & 0xFFFF, 512);
    instruction.calculation_statement = Some(add(Sbus::R0, Lbus::R1, Rbus::Literal(0xFFFF)));
    let word = word_of(&instruction, &SymbolTable::new());
    assert_eq!(word & 0xFFFF, 0xFFFF);
    assert_eq!(word >> 40, 0);
}

#[test]
fn long_literal_rejects_a_sequence_statement() {
    let mut instruction = blank();
    instruction.calculation_statement = Some(add(Sbus::R0, Lbus::R1, Rbus::Literal(1024)));
    instruction.test_and_sequence_statement =
        Some(TestAndSequenceStatement::Goto("L".to_string()));
    assert_eq!(MicroInstruction::try_from(&instruction), Err(AsmError::IllegalEncoding));
    instruction.test_and_sequence_statement = Some(TestAndSequenceStatement::If(
        Flag::Zer,
        FlagState::One,
        "L".to_string(),
        false,
    ));
    assert_eq!(MicroInstruction::try_from(&instruction), Err(AsmError::IllegalEncoding));
}

#[test]
fn long_literal_rejects_an_ex_statement() {
    let mut instruction = blank();
    instruction.calculation_statement = Some(add(Sbus::R0, Lbus::R1, Rbus::Literal(1024)));
    instruction.ex_statement = Some(ExStatement::FlagSave);
    assert_eq!(MicroInstruction::try_from(&instruction), Err(AsmError::IllegalEncoding));
}

#[test]
fn long_literal_accepts_sequences_without_test_and_label() {
    let mut instruction = blank();
    instruction.calculation_statement = Some(add(Sbus::R0, Lbus::R1, Rbus::Literal(1024)));
    instruction.test_and_sequence_statement = Some(TestAndSequenceStatement::Return);
    instruction.ex_statement = Some(ExStatement::Nex);
    let word = word_of(&instruction, &SymbolTable::new());
    assert_eq!((word >> 16) & 0xF, 0x2);
    assert_eq!(word & 0xFFFF, 1024);
}

#[test]
fn short_literal_rejects_a_label() {
    let mut instruction = blank();
    instruction.calculation_statement = Some(add(Sbus::R0, Lbus::R1, Rbus::Literal(5)));
    instruction.test_and_sequence_statement =
        Some(TestAndSequenceStatement::Call("L".to_string()));
    assert_eq!(MicroInstruction::try_from(&instruction), Err(AsmError::IllegalEncoding));
    instruction.test_and_sequence_statement =
        Some(TestAndSequenceStatement::Goto("FETCH".to_string()));
    instruction.ex_statement = Some(ExStatement::SetHlt);
    let word = word_of(&instruction, &SymbolTable::new());
    assert_eq!((word >> 16) & 0xF, 0x8);
    assert_eq!((word >> 9) & 0xF, 0xD);
    assert_eq!(word & 0x1FF, 5);
}

#[test]
fn branch_scatters_the_address() {
    let mut instruction = blank();
    instruction.test_and_sequence_statement =
        Some(TestAndSequenceStatement::Goto("TARGET".to_string()));
    let word = word_of(&instruction, &table_with("TARGET", 0xABC));
    assert_eq!(word & 0xFFFF, ((0xABC & 0xE00) << 4) | (0xF << 9) | (0xABC & 0x1FF));
    assert_eq!(word, 0xFFFFF0BEBC);
    assert_eq!(((word >> 4) & 0xE00) | (word & 0x1FF), 0xABC);
}

#[test]
fn call_scatters_the_address() {
    let mut instruction = blank();
    instruction.test_and_sequence_statement =
        Some(TestAndSequenceStatement::Call("SUB".to_string()));
    assert_eq!(word_of(&instruction, &table_with("SUB", 0xFFF)), 0xFFFFF1FFFF);
}

#[test]
fn dispatches_scatter_the_address() {
    let mut instruction = blank();
    instruction.test_and_sequence_statement =
        Some(TestAndSequenceStatement::Iop("T".to_string()));
    assert_eq!(word_of(&instruction, &table_with("T", 0x120)), 0xFFFFF5FE12);
    instruction.test_and_sequence_statement =
        Some(TestAndSequenceStatement::Ira("T".to_string()));
    assert_eq!(word_of(&instruction, &table_with("T", 0x9F3)), 0xFFFFF63E7F);
    instruction.test_and_sequence_statement =
        Some(TestAndSequenceStatement::Iab("T".to_string()));
    assert_eq!(word_of(&instruction, &table_with("T", 0xFC3)), 0xFFFFF73FF3);
}

#[test]
fn conditional_branch_keeps_the_test() {
    let mut instruction = blank();
    instruction.test_and_sequence_statement = Some(TestAndSequenceStatement::If(
        Flag::Zer,
        FlagState::One,
        "L".to_string(),
        false,
    ));
    assert_eq!(word_of(&instruction, &table_with("L", 0x2AB)), 0xFFFFF31EAB);
    instruction.test_and_sequence_statement = Some(TestAndSequenceStatement::If(
        Flag::Cz,
        FlagState::Zero,
        "L".to_string(),
        false,
    ));
    let word = word_of(&instruction, &table_with("L", 0x2AB));
    assert_eq!((word >> 16) & 0xF, 0x4);
    assert_eq!((word >> 13) & 0x7, 0x5);
    instruction.test_and_sequence_statement = Some(TestAndSequenceStatement::If(
        Flag::T,
        FlagState::Zero,
        "L".to_string(),
        true,
    ));
    let word = word_of(&instruction, &table_with("L", 0x2AB));
    assert_eq!((word >> 16) & 0xF, 0x8);
    assert_eq!((word >> 13) & 0x7, 0x4);
    assert_eq!(word & 0x1FF, 0x0AB);
}

#[test]
fn flags_have_their_test_codes() {
    let flags = [
        (Flag::Zer, 0u64),
        (Flag::Neg, 1),
        (Flag::Cry, 2),
        (Flag::Ov, 3),
        (Flag::T, 4),
        (Flag::Cz, 5),
    ];
    for (flag, code) in flags {
        assert_eq!(Ts::from(&flag).machine_code(), code << 13);
    }
    assert_eq!(Ts::Nts.machine_code(), 7 << 13);
}

#[test]
fn memory_store_and_shift_fields() {
    let mut instruction = blank();
    instruction.memory_statement = Some(MemoryStatement::Read);
    instruction.calculation_statement = Some(CalculationStatement::Alu(
        Sbus::R2,
        Statement::AluThrough(AluThrough {
            shift: Some(Shift::Sll),
            lbus_or_rbus: LbusOrRbus::Lbus(Lbus::R3),
        }),
    ));
    instruction.ex_statement = Some(ExStatement::FlagSave);
    assert_eq!(word_of(&instruction, &SymbolTable::new()), 0x3FE08FE200);
}

#[test]
fn set_by_one_bus_passes_through_or() {
    let mut instruction = blank();
    instruction.calculation_statement = Some(CalculationStatement::SetBy(Statement::AluThrough(
        AluThrough { shift: None, lbus_or_rbus: LbusOrRbus::Rbus(Rbus::Ra) },
    )));
    let word = word_of(&instruction, &SymbolTable::new());
    assert_eq!(word, 0xF87FFFFE00);
    assert_eq!((word >> 29) & 0x7, 0x3);
    instruction.calculation_statement = Some(CalculationStatement::Alu(
        Sbus::R0,
        Statement::AluThrough(AluThrough {
            shift: None,
            lbus_or_rbus: LbusOrRbus::Rbus(Rbus::Ra),
        }),
    ));
    let word = word_of(&instruction, &SymbolTable::new());
    assert_eq!((word >> 29) & 0x7, 0x7);
    assert_eq!((word >> 22) & 0xF, 0x0);
}

#[test]
fn every_field_at_its_place() {
    let mut instruction = blank();
    instruction.calculation_statement = Some(CalculationStatement::Alu(
        Sbus::Pc,
        Statement::First(
            Lbus::R7,
            AluAndShift { alu: Alu::Xor, shift: Some(Shift::Swp) },
            Rbus::Rap,
        ),
    ));
    assert_eq!(word_of(&instruction, &SymbolTable::new()), 0x79973FFE00);
    let mut instruction = blank();
    instruction.memory_statement = Some(MemoryStatement::Write);
    instruction.test_and_sequence_statement = Some(TestAndSequenceStatement::Return);
    instruction.ex_statement = Some(ExStatement::SetHlt);
    assert_eq!(word_of(&instruction, &SymbolTable::new()), 0xFFFFD2FA00);
}

#[test]
fn named_source_of_a_load_drives_the_bus() {
    let mut instruction = blank();
    instruction.ex_statement = Some(ExStatement::Ir(LbusSource::Source(Lbus::Pc)));
    assert_eq!(word_of(&instruction, &SymbolTable::new()), 0xAFFFFFE800);
    instruction.ex_statement = Some(ExStatement::Io(LbusSource::Source(Lbus::Zero)));
    let word = word_of(&instruction, &SymbolTable::new());
    assert_eq!((word >> 36) & 0xF, 0xF);
    assert_eq!((word >> 9) & 0xF, 0x5);
    instruction.ex_statement = Some(ExStatement::C(RbusSource::Source(Rbus::Ra)));
    assert_eq!(word_of(&instruction, &SymbolTable::new()), 0xF8FFFFEC00);
    instruction.ex_statement = Some(ExStatement::C(RbusSource::Source(Rbus::Literal(7))));
    assert_eq!(word_of(&instruction, &SymbolTable::new()), 0xFAFFFFEC07);
    instruction.ex_statement = Some(ExStatement::C(RbusSource::Source(Rbus::Literal(0))));
    let word = word_of(&instruction, &SymbolTable::new());
    assert_eq!((word >> 32) & 0xF, 0xF);
    assert_eq!(word & 0xFFFF, 0xEC00);
}

#[test]
fn named_source_of_a_load_rejects_a_calculation() {
    let mut instruction = blank();
    instruction.calculation_statement = Some(add(Sbus::R0, Lbus::R1, Rbus::R2));
    instruction.ex_statement = Some(ExStatement::Ir(LbusSource::Source(Lbus::Pc)));
    assert_eq!(MicroInstruction::try_from(&instruction), Err(AsmError::IllegalEncoding));
    instruction.ex_statement = Some(ExStatement::Io(LbusSource::Source(Lbus::Pc)));
    assert_eq!(MicroInstruction::try_from(&instruction), Err(AsmError::IllegalEncoding));
    instruction.ex_statement = Some(ExStatement::C(RbusSource::Source(Rbus::R1)));
    assert_eq!(MicroInstruction::try_from(&instruction), Err(AsmError::IllegalEncoding));
    instruction.ex_statement = Some(ExStatement::Ir(LbusSource::Lbus));
    let word = word_of(&instruction, &SymbolTable::new());
    assert_eq!((word >> 36) & 0xF, 0x1);
    assert_eq!((word >> 9) & 0xF, 0x4);
    instruction.ex_statement = Some(ExStatement::C(RbusSource::Rbus));
    let word = word_of(&instruction, &SymbolTable::new());
    assert_eq!((word >> 32) & 0xF, 0x2);
    assert_eq!((word >> 9) & 0xF, 0x6);
}

#[test]
fn long_literal_source_of_c_is_never_accepted() {
    let mut instruction = blank();
    instruction.ex_statement = Some(ExStatement::C(RbusSource::Source(Rbus::Literal(1024))));
    assert_eq!(MicroInstruction::try_from(&instruction), Err(AsmError::IllegalEncoding));
}

#[test]
fn short_literal_source_of_c_rejects_a_label() {
    let mut instruction = blank();
    instruction.ex_statement = Some(ExStatement::C(RbusSource::Source(Rbus::Literal(7))));
    instruction.test_and_sequence_statement =
        Some(TestAndSequenceStatement::Goto("L".to_string()));
    assert_eq!(MicroInstruction::try_from(&instruction), Err(AsmError::IllegalEncoding));
}

#[test]
fn literal_of_the_calculation_comes_before_the_source_of_a_load() {
    let mut instruction = blank();
    instruction.calculation_statement = Some(add(Sbus::R0, Lbus::R1, Rbus::Literal(5)));
    instruction.ex_statement = Some(ExStatement::Ir(LbusSource::Source(Lbus::Pc)));
    let word = word_of(&instruction, &SymbolTable::new());
    assert_eq!((word >> 36) & 0xF, 0x1);
    assert_eq!((word >> 9) & 0xF, 0x4);
    assert_eq!(word & 0x1FF, 5);
}

#[test]
fn ex_codes() {
    let statements = [
        (ExStatement::DecrimentC, 0x0u64),
        (ExStatement::FlagSave, 0x1),
        (ExStatement::WithCry, 0x2),
        (ExStatement::WithOne, 0x3),
        (ExStatement::Ir(LbusSource::Lbus), 0x4),
        (ExStatement::Io(LbusSource::Lbus), 0x5),
        (ExStatement::C(RbusSource::Rbus), 0x6),
        (ExStatement::ExecuteIo, 0x7),
        (ExStatement::Assign1ToT, 0x8),
        (ExStatement::Assign0ToT, 0x9),
        (ExStatement::IraPlus1, 0xA),
        (ExStatement::IrbPlus1, 0xB),
        (ExStatement::IrbMinus1, 0xC),
        (ExStatement::SetHlt, 0xD),
        (ExStatement::SetOv, 0xE),
        (ExStatement::Nex, 0xF),
    ];
    for (statement, code) in statements {
        assert_eq!(Ex::from(&Some(statement)).machine_code(), code << 9);
    }
    assert_eq!(Ex::from(&None).machine_code(), 0xF << 9);
}

#[test]
fn bus_codes() {
    assert_eq!(Lb::from(&Lbus::R0).machine_code(), 0x0 << 36);
    assert_eq!(Lb::from(&Lbus::R7).machine_code(), 0x7 << 36);
    assert_eq!(Lb::from(&Lbus::Rb).machine_code(), 0x8 << 36);
    assert_eq!(Lb::from(&Lbus::Rbp).machine_code(), 0x9 << 36);
    assert_eq!(Lb::from(&Lbus::Pc).machine_code(), 0xA << 36);
    assert_eq!(Lb::from(&Lbus::Io).machine_code(), 0xB << 36);
    assert_eq!(Lb::from(&Lbus::Mm).machine_code(), 0xC << 36);
    assert_eq!(Lb::from(&Lbus::Ir).machine_code(), 0xD << 36);
    assert_eq!(Lb::from(&Lbus::Fsr).machine_code(), 0xE << 36);
    assert_eq!(Lb::from(&Lbus::Zero), Lb::Nlb);
    assert_eq!(Lb::Nlb.machine_code(), 0xF << 36);
    assert_eq!(Rb::from(&Rbus::R3).machine_code(), 0x3 << 32);
    assert_eq!(Rb::from(&Rbus::Ra).machine_code(), 0x8 << 32);
    assert_eq!(Rb::from(&Rbus::Rap).machine_code(), 0x9 << 32);
    assert_eq!(Rb::from(&Rbus::Literal(1)), Rb::Slt(1));
    assert_eq!(Rb::from(&Rbus::Literal(600)), Rb::Llt(600));
    assert_eq!(Rb::from(&Rbus::Literal(0)), Rb::Nrb);
    assert_eq!(Sb::from(&Sbus::R5).machine_code(), 0x5 << 22);
    assert_eq!(Sb::from(&Sbus::Ra).machine_code(), 0x8 << 22);
    assert_eq!(Sb::from(&Sbus::Rap).machine_code(), 0x9 << 22);
    assert_eq!(Sb::from(&Sbus::Rb).machine_code(), 0xA << 22);
    assert_eq!(Sb::from(&Sbus::Rbp).machine_code(), 0xB << 22);
    assert_eq!(Sb::from(&Sbus::Pc).machine_code(), 0xC << 22);
    assert_eq!(Sb::Nsb.machine_code(), 0xF << 22);
}

#[test]
fn alu_shift_memory_and_sequence_codes() {
    let alus = [
        (Alu::Plus, 0u64),
        (Alu::Minus, 1),
        (Alu::And, 2),
        (Alu::Or, 3),
        (Alu::Xor, 4),
        (Alu::Dollar, 5),
        (Alu::At, 7),
    ];
    for (alu, code) in alus {
        assert_eq!(Al::from(&alu).machine_code(), code << 29);
    }
    let shifts = [
        (Some(Shift::Sll), 0u64),
        (Some(Shift::Srl), 1),
        (Some(Shift::Sla), 2),
        (Some(Shift::Sra), 3),
        (Some(Shift::Snx), 4),
        (Some(Shift::Swp), 5),
        (Some(Shift::Nsb), 7),
        (None, 7),
    ];
    for (shift, code) in shifts {
        assert_eq!(Sh::from(&shift).machine_code(), code << 26);
    }
    assert_eq!(Mm::from(&Some(MemoryStatement::Read)).machine_code(), 0 << 20);
    assert_eq!(Mm::from(&Some(MemoryStatement::Write)).machine_code(), 1 << 20);
    assert_eq!(Mm::from(&None).machine_code(), 3 << 20);
    let sequences = [
        (Sq::B, 0u64),
        (Sq::Bp, 1),
        (Sq::Rtn, 2),
        (Sq::Bt, 3),
        (Sq::Bf, 4),
        (Sq::Iop, 5),
        (Sq::Ira, 6),
        (Sq::Iab, 7),
        (Sq::Ei, 8),
        (Sq::Nsq, 0xF),
    ];
    for (sq, code) in sequences {
        assert_eq!(sq.machine_code(), code << 16);
    }
}

#[test]
fn unresolved_reference_cannot_be_encoded() {
    let mut instruction = blank();
    instruction.test_and_sequence_statement =
        Some(TestAndSequenceStatement::Goto("NOWHERE".to_string()));
    let code = MicroInstruction::try_from(&instruction).unwrap();
    assert_eq!(code.machine_code(), Err(AsmError::UnresolvedLabel("NOWHERE".to_string())));
    assert_eq!(
        code.resolve(&SymbolTable::new()),
        Err(AsmError::UnresolvedLabel("NOWHERE".to_string()))
    );
    assert_eq!(
        code.resolve(&table_with("ELSEWHERE", 3)),
        Err(AsmError::UnresolvedLabel("NOWHERE".to_string()))
    );
}

#[test]
fn resolving_leaves_other_forms_alone() {
    let mut instruction = blank();
    instruction.calculation_statement = Some(add(Sbus::R0, Lbus::R1, Rbus::Literal(5)));
    let code = MicroInstruction::try_from(&instruction).unwrap();
    assert_eq!(code.resolve(&SymbolTable::new()), Ok(code.clone()));
    let mut instruction = blank();
    instruction.test_and_sequence_statement =
        Some(TestAndSequenceStatement::Goto("L".to_string()));
    let code = MicroInstruction::try_from(&instruction).unwrap();
    let once = code.resolve(&table_with("L", 0x123)).unwrap();
    assert_ne!(once, code);
    assert_eq!(once.resolve(&table_with("L", 0x456)), Ok(once.clone()));
}

#[test]
fn generate_pairs_addresses_and_stops_at_the_first_error() {
    let mut first = blank();
    first.address = Some(0x010);
    let mut second = blank();
    second.address = Some(0x020);
    second.ex_statement = Some(ExStatement::FlagSave);
    let code = generate(&vec![first.clone(), second.clone()]).unwrap();
    assert_eq!(code.len(), 2);
    assert_eq!(code[0].0, 0x010);
    assert_eq!(code[1].0, 0x020);
    assert_eq!(code[1].1.machine_code(), Ok(0xFFFFFFE200));

    let unplaced = blank();
    assert_eq!(generate(&vec![first.clone(), unplaced]), Err(AsmError::MissingAddress));

    let mut illegal = blank();
    illegal.address = Some(0x030);
    illegal.calculation_statement = Some(add(Sbus::R0, Lbus::R1, Rbus::Literal(1024)));
    illegal.ex_statement = Some(ExStatement::FlagSave);
    assert_eq!(generate(&vec![first.clone(), illegal.clone()]), Err(AsmError::IllegalEncoding));
    assert_eq!(generate(&vec![blank(), illegal]), Err(AsmError::MissingAddress));
    assert_eq!(generate(&vec![]), Ok(vec![]));
}

#[test]
fn encode_resolves_and_packs_in_order() {
    let mut target = blank();
    target.label = Some("L".to_string());
    target.address = Some(0x005);
    let mut jump = blank();
    jump.address = Some(0x006);
    jump.test_and_sequence_statement = Some(TestAndSequenceStatement::Goto("L".to_string()));
    let program = vec![target, jump];
    let table = create_symbol_table(&program);
    let code = generate(&program).unwrap();
    assert_eq!(encode(&code, &table), Ok(vec![(0x005, 0xFFFFFFFE00), (0x006, 0xFFFFF01E05)]));
    assert_eq!(
        encode(&code, &SymbolTable::new()),
        Err(AsmError::UnresolvedLabel("L".to_string()))
    );
}

#[test]
fn words_take_forty_bits() {
    let labels = [0u16, 0x00F, 0x1FF, 0x7F0, 0x800, 0xFFF, 0xFFFF];
    for address in labels {
        for statement in [
            TestAndSequenceStatement::Goto("L".to_string()),
            TestAndSequenceStatement::Call("L".to_string()),
            TestAndSequenceStatement::Iop("L".to_string()),
            TestAndSequenceStatement::Ira("L".to_string()),
            TestAndSequenceStatement::Iab("L".to_string()),
            TestAndSequenceStatement::If(Flag::Neg, FlagState::One, "L".to_string(), false),
        ] {
            let mut instruction = blank();
            instruction.test_and_sequence_statement = Some(statement);
            let word = word_of(&instruction, &table_with("L", address));
            assert_eq!(word >> 40, 0);
            assert_eq!(word >> 20, 0xFFFFF);
        }
    }
}

#[test]
fn lowered_fields_can_be_read() {
    let mut instruction = blank();
    instruction.calculation_statement = Some(add(Sbus::R0, Lbus::R1, Rbus::Literal(5)));
    instruction.memory_statement = Some(MemoryStatement::Write);
    let code = MicroInstruction::try_from(&instruction).unwrap();
    assert_eq!(code.lb, Lb::R1l);
    assert_eq!(code.rb, Rb::Slt(5));
    assert_eq!(code.al, Al::Add);
    assert_eq!(code.sh, Sh::Nsh);
    assert_eq!(code.sb, Sb::R0s);
    assert_eq!(code.mm, Mm::Wm);
    assert_eq!(code.sq, Sq::Nsq);
    assert_eq!(code.lsb, MicroInstructionLSB16::TsExAndLt(Ts::Nts, Ex::Nex, 5));
}
