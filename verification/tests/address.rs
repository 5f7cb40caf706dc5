use micro1_asm::error::AsmError;
use micro1_asm::parser::{Ast, ExStatement, Instruction, TestAndSequenceStatement};

fn plain() -> Instruction {
    Instruction {
        label: None,
        address: None,
        test_and_sequence_statement: None,
        memory_statement: None,
        calculation_statement: None,
        ex_statement: None,
    }
}

fn labelled(label: &str) -> Instruction {
    let mut instruction = plain();
    instruction.label = Some(label.to_string());
    instruction
}

fn pinned(address: u16) -> Instruction {
    let mut instruction = plain();
    instruction.address = Some(address);
    instruction
}

fn pinned_label(label: &str, address: u16) -> Instruction {
    let mut instruction = labelled(label);
    instruction.address = Some(address);
    instruction
}

fn with(mut instruction: Instruction, statement: TestAndSequenceStatement) -> Instruction {
    instruction.test_and_sequence_statement = Some(statement);
    instruction
}

fn iop(label: &str) -> TestAndSequenceStatement {
    TestAndSequenceStatement::Iop(label.to_string())
}

fn ira(label: &str) -> TestAndSequenceStatement {
    TestAndSequenceStatement::Ira(label.to_string())
}

fn iab(label: &str) -> TestAndSequenceStatement {
    TestAndSequenceStatement::Iab(label.to_string())
}

fn program(instructions: Vec<Instruction>) -> Ast {
    Ast { title: "T".to_string(), instructions }
}

fn addresses(instructions: Vec<Instruction>) -> Vec<u16> {
    let placed = program(instructions).set_address().unwrap();
    placed.instructions.iter().map(|instruction| instruction.address.unwrap()).collect()
}

#[test]
fn plain_instructions_lie_in_a_row_from_zero() {
    assert_eq!(addresses(vec![plain(), labelled("A"), plain()]), vec![0, 1, 2]);
    assert_eq!(addresses(vec![]), Vec::<u16>::new());
}

#[test]
fn placing_keeps_everything_but_the_address() {
    let mut second = with(labelled("B"), TestAndSequenceStatement::Goto("A".to_string()));
    second.ex_statement = Some(ExStatement::FlagSave);
    let source = program(vec![labelled("A"), second.clone()]);
    let placed = source.set_address().unwrap();
    assert_eq!(placed.title, "T");
    assert_eq!(placed.instructions.len(), 2);
    second.address = Some(1);
    assert_eq!(placed.instructions[1], second);
    assert_eq!(source.instructions[1].address, None);
}

#[test]
fn pin_moves_the_cursor() {
    assert_eq!(addresses(vec![plain(), pinned(0x100), plain(), plain()]), vec![0, 0x100, 0x101, 0x102]);
    assert_eq!(addresses(vec![pinned(0x100), pinned(0x010), plain()]), vec![0x100, 0x010, 0x011]);
}

#[test]
fn iop_target_lies_at_the_next_multiple_of_sixteen() {
    assert_eq!(addresses(vec![with(plain(), iop("T")), labelled("T")]), vec![0, 0x010]);
    assert_eq!(
        addresses(vec![with(plain(), iop("T")), plain(), plain(), plain(), labelled("T")]),
        vec![0, 1, 2, 3, 0x010]
    );
}

#[test]
fn iop_target_moves_on_even_from_an_aligned_cursor() {
    assert_eq!(addresses(vec![with(labelled("T"), iop("T")), plain()]), vec![0x010, 0x011]);
    assert_eq!(
        addresses(vec![pinned(0x01F), with(labelled("T"), iop("T"))]),
        vec![0x01F, 0x030]
    );
}

#[test]
fn ira_target_clears_bits_three_and_two() {
    assert_eq!(addresses(vec![with(plain(), ira("T")), labelled("T")]), vec![0, 0x011]);
    assert_eq!(
        addresses(vec![with(pinned(0x005), ira("T")), labelled("T"), plain()]),
        vec![0x005, 0x012, 0x013]
    );
    assert_eq!(addresses(vec![with(pinned(0x00E), ira("T")), labelled("T")]), vec![0x00E, 0x013]);
}

#[test]
fn iab_target_lies_at_the_next_multiple_of_sixty_four() {
    assert_eq!(addresses(vec![with(plain(), iab("T")), labelled("T")]), vec![0, 0x040]);
    assert_eq!(
        addresses(vec![with(pinned(0x0BF), iab("T")), labelled("T")]),
        vec![0x0BF, 0x100]
    );
}

#[test]
fn first_of_iop_ira_iab_decides() {
    let both = vec![with(plain(), iab("T")), with(plain(), iop("T")), labelled("T")];
    assert_eq!(addresses(both), vec![0, 1, 0x010]);
    let both = vec![with(plain(), iab("T")), with(plain(), ira("T")), labelled("T")];
    assert_eq!(addresses(both), vec![0, 1, 0x012]);
}

#[test]
fn pinned_target_must_be_aligned() {
    let bad = program(vec![with(plain(), iop("T")), pinned_label("T", 0x101)]);
    assert_eq!(bad.set_address(), Err(AsmError::BadAlignment));
    let good = vec![with(plain(), iop("T")), pinned_label("T", 0x100)];
    assert_eq!(addresses(good), vec![0, 0x100]);

    let bad = program(vec![with(plain(), ira("T")), pinned_label("T", 0x104)]);
    assert_eq!(bad.set_address(), Err(AsmError::BadAlignment));
    let bad = program(vec![with(plain(), ira("T")), pinned_label("T", 0x108)]);
    assert_eq!(bad.set_address(), Err(AsmError::BadAlignment));
    let good = vec![with(plain(), ira("T")), pinned_label("T", 0x1F3)];
    assert_eq!(addresses(good), vec![0, 0x1F3]);

    let bad = program(vec![with(plain(), iab("T")), pinned_label("T", 0x120)]);
    assert_eq!(bad.set_address(), Err(AsmError::BadAlignment));
    let bad = program(vec![with(plain(), iab("T")), pinned_label("T", 0x104)]);
    assert_eq!(bad.set_address(), Err(AsmError::BadAlignment));
    let good = vec![with(plain(), iab("T")), pinned_label("T", 0x1C3)];
    assert_eq!(addresses(good), vec![0, 0x1C3]);
}

#[test]
fn pin_of_an_ordinary_label_is_free() {
    let goto = TestAndSequenceStatement::Goto("T".to_string());
    assert_eq!(addresses(vec![with(plain(), goto), pinned_label("T", 0x101)]), vec![0, 0x101]);
    assert_eq!(addresses(vec![with(plain(), iop("U")), pinned_label("T", 0x10F)]), vec![0, 0x10F]);
}

#[test]
fn every_definition_of_a_dispatched_label_is_aligned() {
    let placed = addresses(vec![
        with(plain(), iop("T")),
        labelled("T"),
        plain(),
        labelled("T"),
        pinned_label("T", 0x200),
    ]);
    assert_eq!(placed, vec![0, 0x010, 0x011, 0x020, 0x200]);
    for address in &placed[1..] {
        if *address != 0x011 {
            assert_eq!(address & 0xF, 0);
        }
    }
}

#[test]
fn addresses_beyond_the_rom_are_refused() {
    assert_eq!(addresses(vec![pinned(0xFFF)]), vec![0xFFF]);
    assert_eq!(
        program(vec![pinned(0xFFF), plain()]).set_address(),
        Err(AsmError::AddressOutOfRange)
    );
    assert_eq!(program(vec![pinned(0x1000)]).set_address(), Err(AsmError::AddressOutOfRange));
    assert_eq!(program(vec![pinned(0xFFFF)]).set_address(), Err(AsmError::AddressOutOfRange));
    assert_eq!(addresses(vec![pinned(0xFFF), pinned(0)]), vec![0xFFF, 0]);
}

#[test]
fn rounding_up_wraps_at_the_end_of_the_rom() {
    let wrapped = addresses(vec![with(pinned(0xFF4), iop("T")), labelled("T")]);
    assert_eq!(wrapped, vec![0xFF4, 0x000]);
    let wrapped = addresses(vec![with(pinned(0xFFF), iab("T")), labelled("T")]);
    assert_eq!(wrapped, vec![0xFFF, 0x040]);
}

#[test]
fn earliest_fault_is_reported() {
    let first = program(vec![
        with(plain(), iop("T")),
        pinned_label("T", 0x101),
        pinned(0x1000),
    ]);
    assert_eq!(first.set_address(), Err(AsmError::BadAlignment));
    let second = program(vec![
        with(plain(), iop("T")),
        pinned(0x1000),
        pinned_label("T", 0x101),
    ]);
    assert_eq!(second.set_address(), Err(AsmError::AddressOutOfRange));
    let both = program(vec![with(plain(), iop("T")), pinned_label("T", 0x1001)]);
    assert_eq!(both.set_address(), Err(AsmError::BadAlignment));
}

#[test]
fn unpinned_addresses_grow() {
    let placed = addresses(vec![
        with(plain(), iop("A")),
        with(plain(), ira("B")),
        with(plain(), iab("C")),
        labelled("A"),
        plain(),
        labelled("B"),
        labelled("C"),
        plain(),
    ]);
    assert_eq!(placed, vec![0, 1, 2, 0x010, 0x011, 0x022, 0x040, 0x041]);
    for pair in placed.windows(2) {
        assert!(pair[0] < pair[1]);
    }
}
