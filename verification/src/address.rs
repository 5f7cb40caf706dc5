//! Address assignment: where in the microprogram ROM each instruction lies.
//!
//! The instructions are placed front to back behind a cursor that starts at 0
//! and, after each instruction, stands one past its address. An instruction
//! with a pinned address lies there. Any other lies at the cursor, unless a
//! dispatch refers to its label: then it lies at the next address that the
//! dispatch can reach, which the cursor is rounded up to. An instruction
//! whose label a dispatch refers to may be pinned only to an address that the
//! dispatch can reach.

use vstd::prelude::*;
use crate::error::{AsmError, AsmErrorView};
use crate::parser::{
    Ast,
    Instruction,
    InstructionView,
    MachineAddress,
    TestAndSequenceStatement,
    TestAndSequenceStatementView,
    instruction_views,
};
use crate::text::str_eq;

verus! {

/// The last address of the microprogram ROM.
pub const LAST_ADDRESS: MachineAddress = 0xFFF;

/// The three sequence opcodes that form the next address from a label and a
/// register, and so ask an alignment of the label.
#[derive(Clone, Copy, Debug, PartialEq, Eq, Structural)]
pub enum Dispatch {
    Iop,
    Ira,
    Iab,
}

impl Dispatch {
    /// The bits of a pinned address that must be zero.
    pub open spec fn pin_mask(self) -> MachineAddress {
        match self {
            Dispatch::Iop => 0xF,
            Dispatch::Ira => 0xC,
            Dispatch::Iab => 0x3C,
        }
    }

    /// The address that the cursor is rounded up to.
    pub open spec fn round_up(self, cursor: MachineAddress) -> MachineAddress {
        match self {
            Dispatch::Iop => ((cursor + 0x10) as MachineAddress) & 0xFF0,
            Dispatch::Ira => ((cursor + 0x10) as MachineAddress) & 0xFF3,
            Dispatch::Iab => ((cursor + 0x40) as MachineAddress) & 0xFC0,
        }
    }

    /// How far the cursor is moved before the bits are cleared.
    pub open spec fn step(self) -> MachineAddress {
        match self {
            Dispatch::Iop => 0x10,
            Dispatch::Ira => 0x10,
            Dispatch::Iab => 0x40,
        }
    }

    /// The statement that dispatches to `label`.
    pub open spec fn statement(self, label: Seq<char>) -> TestAndSequenceStatementView {
        match self {
            Dispatch::Iop => TestAndSequenceStatementView::Iop(label),
            Dispatch::Ira => TestAndSequenceStatementView::Ira(label),
            Dispatch::Iab => TestAndSequenceStatementView::Iab(label),
        }
    }
}

/// The sequence field of `instruction` is the dispatch `dispatch` to `label`.
pub open spec fn dispatches_to(
    instruction: InstructionView,
    dispatch: Dispatch,
    label: Seq<char>,
) -> bool {
    instruction.test_and_sequence_statement == Some(dispatch.statement(label))
}

/// Some instruction of the program dispatches to `label` by `dispatch`.
pub open spec fn referred_by(
    instructions: Seq<InstructionView>,
    dispatch: Dispatch,
    label: Seq<char>,
) -> bool {
    exists|j: int|
        0 <= j < instructions.len() && dispatches_to(#[trigger] instructions[j], dispatch, label)
}

/// The dispatch that decides where the instruction `i` may lie: the first of
/// `IOP`, `IRA`, `IAB` that refers to its label.
pub open spec fn alignment(instructions: Seq<InstructionView>, i: int) -> Option<Dispatch> {
    match instructions[i].label {
        None => None,
        Some(label) => if referred_by(instructions, Dispatch::Iop, label) {
            Some(Dispatch::Iop)
        } else if referred_by(instructions, Dispatch::Ira, label) {
            Some(Dispatch::Ira)
        } else if referred_by(instructions, Dispatch::Iab, label) {
            Some(Dispatch::Iab)
        } else {
            None
        },
    }
}

/// The address of the instruction `i` where the cursor stands at `cursor`.
pub open spec fn place(
    instructions: Seq<InstructionView>,
    i: int,
    cursor: MachineAddress,
) -> MachineAddress {
    match instructions[i].address {
        Some(pinned) => pinned,
        None => match alignment(instructions, i) {
            Some(dispatch) => dispatch.round_up(cursor),
            None => cursor,
        },
    }
}

/// What is wrong with the instruction `i` where the cursor stands at
/// `cursor`: its pinned address has a bit set that the dispatch to its label
/// needs clear, or else its address lies beyond the ROM.
pub open spec fn fault(
    instructions: Seq<InstructionView>,
    i: int,
    cursor: MachineAddress,
) -> Option<AsmErrorView> {
    if instructions[i].address is Some && alignment(instructions, i) is Some
        && instructions[i].address->0 & alignment(instructions, i)->0.pin_mask() != 0 {
        Some(AsmErrorView::BadAlignment)
    } else if place(instructions, i, cursor) > LAST_ADDRESS {
        Some(AsmErrorView::AddressOutOfRange)
    } else {
        None
    }
}

/// Where the cursor stands when the instruction `i` is placed.
pub open spec fn cursor_at(instructions: Seq<InstructionView>, i: int) -> MachineAddress
    decreases i,
{
    if i <= 0 {
        0
    } else {
        (place(instructions, i - 1, cursor_at(instructions, i - 1)) + 1) as MachineAddress
    }
}

/// The address of the instruction `i`.
pub open spec fn address_at(instructions: Seq<InstructionView>, i: int) -> MachineAddress {
    place(instructions, i, cursor_at(instructions, i))
}

/// What is wrong with the instruction `i`, if anything.
pub open spec fn fault_at(instructions: Seq<InstructionView>, i: int) -> Option<AsmErrorView> {
    fault(instructions, i, cursor_at(instructions, i))
}

/// The instruction with the address `address` stamped in.
pub open spec fn stamped(instruction: InstructionView, address: MachineAddress) -> InstructionView {
    InstructionView { address: Some(address), ..instruction }
}

/// The program with every instruction at its address.
pub open spec fn placed(instructions: Seq<InstructionView>) -> Seq<InstructionView> {
    Seq::new(instructions.len(), |i: int| stamped(instructions[i], address_at(instructions, i)))
}

/// No instruction of the program has a fault.
pub open spec fn placeable(instructions: Seq<InstructionView>) -> bool {
    forall|i: int| 0 <= i < instructions.len() ==> fault_at(instructions, i) is None
}

/// The instruction `i` is the first of the program that has a fault.
pub open spec fn first_fault(instructions: Seq<InstructionView>, i: int) -> bool {
    &&& 0 <= i < instructions.len()
    &&& fault_at(instructions, i) is Some
    &&& forall|j: int| 0 <= j < i ==> fault_at(instructions, j) is None
}

/// What address assignment gives: the program with every instruction at its
/// address, or the fault of the first instruction that has one.
pub open spec fn placement(instructions: Seq<InstructionView>) -> Result<
    Seq<InstructionView>,
    AsmErrorView,
> {
    if placeable(instructions) {
        Ok(placed(instructions))
    } else {
        Err(fault_at(instructions, choose|i: int| first_fault(instructions, i))->0)
    }
}

/// A program has at most one first fault, and it decides the placement.
pub proof fn lemma_first_fault(instructions: Seq<InstructionView>, i: int)
    requires
        first_fault(instructions, i),
    ensures
        placement(instructions) == Err::<Seq<InstructionView>, AsmErrorView>(
            fault_at(instructions, i)->0,
        ),
{
    let k = choose|k: int| first_fault(instructions, k);
    if k < i {
        assert(fault_at(instructions, k) is None);
    } else if i < k {
        assert(fault_at(instructions, i) is None);
    }
}

fn is_refered_by(instructions: &Vec<Instruction>, dispatch: Dispatch, label: &str) -> (r: bool)
    ensures
        r == referred_by(instruction_views(instructions@), dispatch, label@),
{
    let ghost views = instruction_views(instructions@);
    let mut j: usize = 0;
    while j < instructions.len()
        invariant
            j <= instructions.len(),
            views == instruction_views(instructions@),
            forall|k: int| 0 <= k < j ==> !dispatches_to(#[trigger] views[k], dispatch, label@),
        decreases instructions.len() - j,
    {
        let found = match (&instructions[j].test_and_sequence_statement, dispatch) {
            (Some(TestAndSequenceStatement::Iop(target)), Dispatch::Iop) => str_eq(
                target.as_str(),
                label,
            ),
            (Some(TestAndSequenceStatement::Ira(target)), Dispatch::Ira) => str_eq(
                target.as_str(),
                label,
            ),
            (Some(TestAndSequenceStatement::Iab(target)), Dispatch::Iab) => str_eq(
                target.as_str(),
                label,
            ),
            _ => false,
        };
        assert(found == dispatches_to(views[j as int], dispatch, label@));
        if found {
            return true;
        }
        j += 1;
    }
    false
}

fn is_refered_by_iop(instructions: &Vec<Instruction>, label: &str) -> (r: bool)
    ensures
        r == referred_by(instruction_views(instructions@), Dispatch::Iop, label@),
{
    is_refered_by(instructions, Dispatch::Iop, label)
}

fn is_refered_by_ira(instructions: &Vec<Instruction>, label: &str) -> (r: bool)
    ensures
        r == referred_by(instruction_views(instructions@), Dispatch::Ira, label@),
{
    is_refered_by(instructions, Dispatch::Ira, label)
}

fn is_refered_by_iab(instructions: &Vec<Instruction>, label: &str) -> (r: bool)
    ensures
        r == referred_by(instruction_views(instructions@), Dispatch::Iab, label@),
{
    is_refered_by(instructions, Dispatch::Iab, label)
}

impl TestAndSequenceStatement {
    /// A copy of the statement.
    pub fn duplicate(&self) -> (r: TestAndSequenceStatement)
        ensures
            r@ == self@,
    {
        match self {
            TestAndSequenceStatement::Goto(label) => TestAndSequenceStatement::Goto(label.clone()),
            TestAndSequenceStatement::Call(label) => TestAndSequenceStatement::Call(label.clone()),
            TestAndSequenceStatement::Return => TestAndSequenceStatement::Return,
            TestAndSequenceStatement::If(flag, flag_state, label, else_exists) => {
                TestAndSequenceStatement::If(*flag, *flag_state, label.clone(), *else_exists)
            },
            TestAndSequenceStatement::Iop(label) => TestAndSequenceStatement::Iop(label.clone()),
            TestAndSequenceStatement::Ira(label) => TestAndSequenceStatement::Ira(label.clone()),
            TestAndSequenceStatement::Iab(label) => TestAndSequenceStatement::Iab(label.clone()),
            TestAndSequenceStatement::Nsq => TestAndSequenceStatement::Nsq,
        }
    }
}

impl Instruction {
    /// A copy of the instruction that lies at `address`.
    pub fn at_address(&self, address: MachineAddress) -> (r: Instruction)
        ensures
            r@ == stamped(self@, address),
    {
        Instruction {
            label: match &self.label {
                Some(label) => Some(label.clone()),
                None => None,
            },
            address: Some(address),
            test_and_sequence_statement: match &self.test_and_sequence_statement {
                Some(statement) => Some(statement.duplicate()),
                None => None,
            },
            memory_statement: self.memory_statement,
            calculation_statement: self.calculation_statement,
            ex_statement: self.ex_statement,
        }
    }
}

impl Ast {
    /// Gives every instruction its address. The program is refused with
    /// `BadAlignment` where a pinned address cannot be reached by the
    /// dispatch to its label, and with `AddressOutOfRange` where an address
    /// lies beyond the ROM; of several faults, that of the earliest
    /// instruction is reported.
    pub fn set_address(&self) -> (r: Result<Ast, AsmError>)
        ensures
            match r {
                Ok(ast) => {
                    &&& placement(self@.instructions) == Ok::<Seq<InstructionView>, AsmErrorView>(
                        ast@.instructions,
                    )
                    &&& placeable(self@.instructions)
                    &&& ast@.title == self@.title
                },
                Err(e) => placement(self@.instructions) == Err::<
                    Seq<InstructionView>,
                    AsmErrorView,
                >(e@),
            },
    {
        let ghost views = self@.instructions;
        let mut instructions: Vec<Instruction> = Vec::new();
        let mut address: MachineAddress = 0;
        let mut index: usize = 0;
        while index < self.instructions.len()
            invariant
                index <= self.instructions.len(),
                views == instruction_views(self.instructions@),
                instructions.len() == index,
                address <= LAST_ADDRESS + 1,
                address == cursor_at(views, index as int),
                forall|i: int| 0 <= i < index ==> fault_at(views, i) is None,
                forall|i: int|
                    0 <= i < index ==> (#[trigger] instructions[i])@ == stamped(
                        views[i],
                        address_at(views, i),
                    ),
            decreases self.instructions.len() - index,
        {
            let instruction = &self.instructions[index];
            assert(views == self@.instructions);
            assert(views[index as int] == instruction@);
            let dispatch = if let Some(label) = &instruction.label {
                if is_refered_by_iop(&self.instructions, label.as_str()) {
                    Some(Dispatch::Iop)
                } else if is_refered_by_ira(&self.instructions, label.as_str()) {
                    Some(Dispatch::Ira)
                } else if is_refered_by_iab(&self.instructions, label.as_str()) {
                    Some(Dispatch::Iab)
                } else {
                    None
                }
            } else {
                None
            };
            assert(dispatch == alignment(views, index as int));
            let assigned = match (instruction.address, dispatch) {
                (Some(constant), Some(Dispatch::Iop)) => {
                    if (constant & 0xF) == 0 {
                        constant
                    } else {
                        assert(fault_at(views, index as int) == Some(AsmErrorView::BadAlignment));
                        proof {
                            lemma_first_fault(views, index as int);
                        }
                        return Err(AsmError::BadAlignment);
                    }
                },
                (Some(constant), Some(Dispatch::Ira)) => {
                    if (constant & 0xC) == 0 {
                        constant
                    } else {
                        assert(fault_at(views, index as int) == Some(AsmErrorView::BadAlignment));
                        proof {
                            lemma_first_fault(views, index as int);
                        }
                        return Err(AsmError::BadAlignment);
                    }
                },
                (Some(constant), Some(Dispatch::Iab)) => {
                    if (constant & 0x3C) == 0 {
                        constant
                    } else {
                        assert(fault_at(views, index as int) == Some(AsmErrorView::BadAlignment));
                        proof {
                            lemma_first_fault(views, index as int);
                        }
                        return Err(AsmError::BadAlignment);
                    }
                },
                (Some(constant), None) => constant,
                (None, Some(Dispatch::Iop)) => (address + 0x10) & 0xFF0,
                (None, Some(Dispatch::Ira)) => (address + 0x10) & 0xFF3,
                (None, Some(Dispatch::Iab)) => (address + 0x40) & 0xFC0,
                (None, None) => address,
            };
            assert(assigned == address_at(views, index as int));
            if assigned > LAST_ADDRESS {
                assert(fault_at(views, index as int) == Some(AsmErrorView::AddressOutOfRange));
                proof {
                    lemma_first_fault(views, index as int);
                }
                return Err(AsmError::AddressOutOfRange);
            }
            instructions.push(instruction.at_address(assigned));
            address = assigned + 1;
            index += 1;
        }
        let ast = Ast { title: self.title.clone(), instructions };
        assert(ast@.instructions =~= placed(views));
        Ok(ast)
    }
}

proof fn lemma_round_up_clears(cursor: MachineAddress)
    by (bit_vector)
    requires
        cursor <= 0x1000,
    ensures
        (((cursor + 0x10) as u16) & 0xFF0) & 0xF == 0,
        (((cursor + 0x10) as u16) & 0xFF3) & 0xC == 0,
        (((cursor + 0x40) as u16) & 0xFC0) & 0x3C == 0,
        ((cursor + 0x10) as u16) & 0xFF0 <= 0xFFF,
        ((cursor + 0x10) as u16) & 0xFF3 <= 0xFFF,
        ((cursor + 0x40) as u16) & 0xFC0 <= 0xFFF,
        cursor + 0x10 <= 0xFFF ==> ((cursor + 0x10) as u16) & 0xFF0 > cursor,
        cursor + 0x10 <= 0xFFF ==> ((cursor + 0x10) as u16) & 0xFF3 > cursor,
        cursor + 0x40 <= 0xFFF ==> ((cursor + 0x40) as u16) & 0xFC0 > cursor,
{
}

/// While no instruction before `i` has a fault, the cursor at `i` stands at
/// most one past the ROM, and one past the address of the instruction before.
pub proof fn lemma_cursor(instructions: Seq<InstructionView>, i: int)
    requires
        0 <= i <= instructions.len(),
        forall|j: int| 0 <= j < i ==> fault_at(instructions, j) is None,
    ensures
        cursor_at(instructions, i) <= LAST_ADDRESS + 1,
        i > 0 ==> cursor_at(instructions, i) == address_at(instructions, i - 1) + 1,
{
    if i > 0 {
        assert(fault_at(instructions, i - 1) is None);
    }
}

/// An instruction whose label a dispatch refers to lies where that dispatch
/// can reach it: the bits that the dispatch fills in are zero in its address.
/// Where several dispatches refer to the label, this holds of the first of
/// `IOP`, `IRA`, `IAB` among them.
pub proof fn lemma_dispatch_target_aligned(instructions: Seq<InstructionView>, i: int)
    requires
        0 <= i < instructions.len(),
        forall|j: int| 0 <= j <= i ==> fault_at(instructions, j) is None,
        alignment(instructions, i) is Some,
    ensures
        address_at(instructions, i) & alignment(instructions, i)->0.pin_mask() == 0,
{
    lemma_cursor(instructions, i);
    assert(fault_at(instructions, i) is None);
    if instructions[i].address is None {
        lemma_round_up_clears(cursor_at(instructions, i));
    }
}

/// Addresses grow: an instruction that is not pinned lies above the one
/// before it, unless rounding the cursor up for a dispatch passes the end of
/// the ROM and so wraps.
pub proof fn lemma_addresses_increase(instructions: Seq<InstructionView>, i: int)
    requires
        0 < i < instructions.len(),
        forall|j: int| 0 <= j <= i ==> fault_at(instructions, j) is None,
        instructions[i].address is None,
        alignment(instructions, i) matches Some(dispatch) ==> cursor_at(instructions, i)
            + dispatch.step() <= LAST_ADDRESS,
    ensures
        address_at(instructions, i) > address_at(instructions, i - 1),
{
    lemma_cursor(instructions, i);
    lemma_round_up_clears(cursor_at(instructions, i));
}

/// Instructions between which nothing is pinned and no rounding wraps lie at
/// distinct addresses, in the order of the program.
pub proof fn lemma_addresses_ordered(instructions: Seq<InstructionView>, i: int, j: int)
    requires
        0 <= i < j < instructions.len(),
        forall|k: int| 0 <= k <= j ==> fault_at(instructions, k) is None,
        forall|k: int| i < k <= j ==> (#[trigger] instructions[k]).address is None,
        forall|k: int|
            i < k <= j ==> (#[trigger] alignment(instructions, k) matches Some(dispatch)
                ==> cursor_at(instructions, k) + dispatch.step() <= LAST_ADDRESS),
    ensures
        address_at(instructions, i) < address_at(instructions, j),
    decreases j - i,
{
    assert(instructions[j].address is None);
    assert(alignment(instructions, j) matches Some(dispatch) ==> cursor_at(instructions, j)
        + dispatch.step() <= LAST_ADDRESS);
    lemma_addresses_increase(instructions, j);
    if i < j - 1 {
        lemma_addresses_ordered(instructions, i, j - 1);
    }
}

/// Every address of a program that could be placed lies in the ROM.
pub proof fn lemma_addresses_in_range(instructions: Seq<InstructionView>, i: int)
    requires
        0 <= i < instructions.len(),
        fault_at(instructions, i) is None,
    ensures
        address_at(instructions, i) <= LAST_ADDRESS,
{
}

} // verus!
