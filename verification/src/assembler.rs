//! The assembler as a whole: from the source text to the listing.
//!
//! The text is split into tokens and the tokens are read as a program. The
//! program is placed in the ROM, its labels are collected and its references
//! checked, its instructions are lowered to field values, and these are
//! resolved, packed into words and listed. Faults of the text are collected
//! and reported together; any other fault ends the run.

use vstd::prelude::*;
use vstd::string::StringSliceAdditionalSpecFns;
use crate::address::{placeable, placed, placement};
use crate::codegen::{
    TestAndSequence,
    encode,
    encode_one,
    encoded,
    generate,
    generate_one,
    first_failure,
    generated,
    lemma_some_first_failure,
    lower,
};
use crate::emit::{emit, listing};
use crate::error::{AsmError, AsmErrorView};
use crate::grammar;
use crate::lexer::{error_spans, lex_errors, token_parts, tokenize, tokens_from};
use crate::parser::{Ast, AstView, InstructionView, MachineAddress, fault_views, parse};
use crate::symbol::{
    check_unresolved_symbols,
    create_symbol_table,
    lacks,
    needed_label,
    symbol_map,
    unresolved_list,
};

verus! {

/// The listing of a program, or the first fault that keeps it from being
/// assembled: a fault of its placement; the first label that is needed and
/// not defined; an instruction whose fields cannot share a word.
pub open spec fn program_listing(ast: AstView) -> Result<Seq<char>, AsmErrorView> {
    match placement(ast.instructions) {
        Err(e) => Err(e),
        Ok(placed) => {
            let table = symbol_map(placed);
            let lacking = unresolved_list(table, placed);
            if lacking.len() > 0 {
                Err(AsmErrorView::UnresolvedLabel(lacking[0]))
            } else {
                match generated(placed) {
                    Err(e) => Err(e),
                    Ok(code) => match encoded(table, code) {
                        Err(e) => Err(e),
                        Ok(words) => Ok(listing(ast.title, words)),
                    },
                }
            }
        },
    }
}

/// The listing of a source text, or the faults of the text, or the first
/// fault of the program that the text spells.
pub open spec fn source_listing(bytes: Seq<u8>) -> Result<Seq<char>, AsmErrorView> {
    let tokens = tokens_from(bytes, 0);
    if error_spans(tokens).len() > 0 {
        Err(AsmErrorView::Lex(error_spans(tokens)))
    } else {
        match grammar::program(token_parts(tokens)) {
            None => Err(
                AsmErrorView::Parse(fault_views(tokens, grammar::faults(token_parts(tokens)))),
            ),
            Some(ast) => program_listing(ast),
        }
    }
}

/// Assembles a parsed program into its listing.
pub fn assemble_program(ast: &Ast) -> (r: Result<String, AsmError>)
    ensures
        match r {
            Ok(text) => program_listing(ast@) == Ok::<Seq<char>, AsmErrorView>(text@),
            Err(e) => program_listing(ast@) == Err::<Seq<char>, AsmErrorView>(e@),
        },
{
    let placed = match ast.set_address() {
        Ok(placed) => placed,
        Err(e) => {
            return Err(e);
        },
    };
    let symbol_table = create_symbol_table(&placed.instructions);
    let unresolved = check_unresolved_symbols(&symbol_table, &placed.instructions);
    if unresolved.len() > 0 {
        return Err(AsmError::UnresolvedLabel(unresolved[0].clone()));
    }
    let code = match generate(&placed.instructions) {
        Ok(code) => code,
        Err(e) => {
            return Err(e);
        },
    };
    let words = match encode(&code, &symbol_table) {
        Ok(words) => words,
        Err(e) => {
            return Err(e);
        },
    };
    Ok(emit(ast.title.as_str(), &words))
}

/// Assembles a source text into its listing.
pub fn assemble(source: &str) -> (r: Result<String, AsmError>)
    ensures
        match r {
            Ok(text) => source_listing(source.spec_bytes()) == Ok::<Seq<char>, AsmErrorView>(text@),
            Err(e) => source_listing(source.spec_bytes()) == Err::<Seq<char>, AsmErrorView>(e@),
        },
{
    let tokens = tokenize(source);
    let spans = lex_errors(&tokens);
    if spans.len() > 0 {
        return Err(AsmError::Lex(spans));
    }
    let (ast, errors) = parse(tokens);
    match ast {
        Some(ast) => assemble_program(&ast),
        None => Err(AsmError::Parse(errors)),
    }
}

/// A label that an instruction needs and the table lacks stands in the list
/// of unresolved labels.
pub proof fn lemma_lacking_label_is_listed(
    table: Map<Seq<char>, MachineAddress>,
    instructions: Seq<InstructionView>,
    i: int,
    label: Seq<char>,
)
    requires
        0 <= i < instructions.len(),
        lacks(table, instructions[i], label),
    ensures
        unresolved_list(table, instructions).contains(label),
    decreases instructions.len(),
{
    let before = unresolved_list(table, instructions.drop_last());
    if i < instructions.len() - 1 {
        lemma_lacking_label_is_listed(table, instructions.drop_last(), i, label);
        let k = choose|k: int| 0 <= k < before.len() && before[k] == label;
        assert(unresolved_list(table, instructions)[k] == label);
    } else if before.contains(label) {
        let k = choose|k: int| 0 <= k < before.len() && before[k] == label;
        assert(unresolved_list(table, instructions)[k] == label);
    } else {
        assert(unresolved_list(table, instructions) == before.push(label));
        assert(before.push(label)[before.len() as int] == label);
    }
}

/// What is lowered from an instruction can be resolved and encoded by any
/// table that defines the label which the instruction needs.
pub proof fn lemma_needed_label_suffices(
    table: Map<Seq<char>, MachineAddress>,
    instruction: InstructionView,
)
    requires
        lower(instruction) is Some,
        needed_label(instruction.test_and_sequence_statement) matches Some(label)
            ==> table.dom().contains(label),
    ensures
        lower(instruction)->0.resolve(table) is Some,
        lower(instruction)->0.resolve(table)->0.encode() is Some,
{
    assert(TestAndSequence::spec_from(instruction.test_and_sequence_statement).2 == needed_label(
        instruction.test_and_sequence_statement,
    ));
}

/// Once a program is placed and every label that it needs is defined, only
/// an illegal encoding can keep it from being assembled: every instruction
/// has its address, and every reference that reaches the encoder resolves.
pub proof fn lemma_checked_program(ast: AstView)
    requires
        placeable(ast.instructions),
        unresolved_list(symbol_map(placed(ast.instructions)), placed(ast.instructions)).len() == 0,
    ensures
        program_listing(ast) is Ok || program_listing(ast) == Err::<Seq<char>, AsmErrorView>(
            AsmErrorView::IllegalEncoding,
        ),
        program_listing(ast) is Ok <==> forall|i: int|
            0 <= i < ast.instructions.len() ==> lower(#[trigger] ast.instructions[i]) is Some,
{
    let program = placed(ast.instructions);
    let table = symbol_map(program);
    assert forall|i: int| 0 <= i < program.len() implies lower(#[trigger] program[i]) == lower(
        ast.instructions[i],
    ) && program[i].address is Some by {}
    if forall|i: int| 0 <= i < program.len() ==> generate_one(#[trigger] program[i]) is Ok {
        let code = generated(program)->Ok_0;
        assert forall|i: int| 0 <= i < code.len() implies encode_one(table, #[trigger] code[i])
            is Ok by {
            assert(generate_one(program[i]) is Ok);
            assert(code[i].1 == lower(program[i])->0);
            let needed = needed_label(program[i].test_and_sequence_statement);
            if needed is Some && !table.dom().contains(needed->0) {
                lemma_lacking_label_is_listed(table, program, i, needed->0);
            }
            lemma_needed_label_suffices(table, program[i]);
        }
        assert forall|i: int| 0 <= i < ast.instructions.len() implies lower(
            #[trigger] ast.instructions[i],
        ) is Some by {
            assert(generate_one(program[i]) is Ok);
        }
    } else {
        let i = choose|i: int| !(0 <= i < program.len() ==> generate_one(#[trigger] program[i]) is Ok);
        assert(lower(ast.instructions[i]) is None);
        let k = choose|k: int| first_failure(program, k);
        lemma_some_first_failure(program, i);
        assert(generate_one(program[k]) is Err);
    }
}

} // verus!
