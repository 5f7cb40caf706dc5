//! What address assignment promises to the dispatch opcodes: the address that
//! the symbol table gives a dispatched label has the bits clear that the
//! dispatch fills in.

use vstd::prelude::*;
use crate::address::{
    Dispatch,
    address_at,
    alignment,
    lemma_dispatch_target_aligned,
    placeable,
    placed,
    referred_by,
};
use crate::parser::{InstructionView, MachineAddress};
use crate::symbol::{first_definition, lemma_first_definition, symbol_map};

verus! {

proof fn lemma_low_four_cover(address: MachineAddress)
    by (bit_vector)
    requires
        address & 0xF == 0,
    ensures
        address & 0xC == 0,
{
}

/// The first definition of a label in the placed program is an instruction
/// of the program with that label, and the table holds its address.
proof fn lemma_table_address(program: Seq<InstructionView>, label: Seq<char>) -> (i: int)
    requires
        symbol_map(placed(program)).dom().contains(label),
    ensures
        0 <= i < program.len(),
        program[i].label == Some(label),
        symbol_map(placed(program))[label] == address_at(program, i),
{
    let i = choose|i: int| first_definition(placed(program), label, i);
    lemma_first_definition(placed(program), label, i);
    i
}

/// The address of a label that an `IOP` refers to has its low 4 bits clear.
pub proof fn lemma_iop_target_aligned(program: Seq<InstructionView>, label: Seq<char>)
    requires
        placeable(program),
        referred_by(program, Dispatch::Iop, label),
        symbol_map(placed(program)).dom().contains(label),
    ensures
        symbol_map(placed(program))[label] & 0xF == 0,
{
    let i = lemma_table_address(program, label);
    assert(alignment(program, i) == Some(Dispatch::Iop));
    lemma_dispatch_target_aligned(program, i);
}

/// The address of a label that an `IRA` refers to has its bits 3 and 2 clear.
pub proof fn lemma_ira_target_aligned(program: Seq<InstructionView>, label: Seq<char>)
    requires
        placeable(program),
        referred_by(program, Dispatch::Ira, label),
        symbol_map(placed(program)).dom().contains(label),
    ensures
        symbol_map(placed(program))[label] & 0xC == 0,
{
    let i = lemma_table_address(program, label);
    lemma_dispatch_target_aligned(program, i);
    if alignment(program, i) == Some(Dispatch::Iop) {
        lemma_low_four_cover(address_at(program, i));
    } else {
        assert(alignment(program, i) == Some(Dispatch::Ira));
    }
}

/// The address of a label that an `IAB` refers to has its bits 5 to 2 clear,
/// provided that no `IOP` and no `IRA` refers to the label as well: their
/// alignment comes first and leaves the bits 5 and 4 free.
pub proof fn lemma_iab_target_aligned(program: Seq<InstructionView>, label: Seq<char>)
    requires
        placeable(program),
        referred_by(program, Dispatch::Iab, label),
        !referred_by(program, Dispatch::Iop, label),
        !referred_by(program, Dispatch::Ira, label),
        symbol_map(placed(program)).dom().contains(label),
    ensures
        symbol_map(placed(program))[label] & 0x3C == 0,
{
    let i = lemma_table_address(program, label);
    assert(alignment(program, i) == Some(Dispatch::Iab));
    lemma_dispatch_target_aligned(program, i);
}

} // verus!
