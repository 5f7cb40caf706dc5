//! The symbol table: which ROM address each label stands for.

use vstd::prelude::*;
use crate::parser::{
    Instruction,
    InstructionView,
    MachineAddress,
    TestAndSequenceStatement,
    TestAndSequenceStatementView,
    instruction_views,
};
use crate::text::str_eq;

verus! {

/// A mapping from labels to ROM addresses. A label that is defined keeps the
/// address it was first given.
pub struct SymbolTable {
    entries: Vec<(String, MachineAddress)>,
}

/// The entry at `i` is the first one that carries the label `name`.
pub open spec fn first_entry(entries: Seq<(String, MachineAddress)>, name: Seq<char>, i: int) -> bool {
    &&& 0 <= i < entries.len()
    &&& entries[i].0@ == name
    &&& forall|j: int| 0 <= j < i ==> (#[trigger] entries[j]).0@ != name
}

/// The mapping that a list of entries stands for: each label with the address
/// of the first entry that carries it.
pub open spec fn entries_map(entries: Seq<(String, MachineAddress)>) -> Map<
    Seq<char>,
    MachineAddress,
> {
    Map::new(
        |name: Seq<char>| exists|i: int| first_entry(entries, name, i),
        |name: Seq<char>| entries[choose|i: int| first_entry(entries, name, i)].1,
    )
}

/// A label has at most one first entry.
proof fn lemma_first_entry_unique(
    entries: Seq<(String, MachineAddress)>,
    name: Seq<char>,
    i: int,
    j: int,
)
    requires
        first_entry(entries, name, i),
        first_entry(entries, name, j),
    ensures
        i == j,
{
    if i < j {
        assert(entries[i].0@ != name);
    } else if j < i {
        assert(entries[j].0@ != name);
    }
}

impl View for SymbolTable {
    type V = Map<Seq<char>, MachineAddress>;

    closed spec fn view(&self) -> Map<Seq<char>, MachineAddress> {
        entries_map(self.entries@)
    }
}

impl SymbolTable {
    /// The table without any label.
    pub fn new() -> (table: SymbolTable)
        ensures
            table@ == Map::<Seq<char>, MachineAddress>::empty(),
    {
        let table = SymbolTable { entries: Vec::new() };
        assert(table@ =~= Map::<Seq<char>, MachineAddress>::empty());
        table
    }

    fn position(&self, label: &str) -> (r: Option<usize>)
        ensures
            match r {
                Some(i) => first_entry(self.entries@, label@, i as int),
                None => forall|i: int| !first_entry(self.entries@, label@, i),
            },
    {
        let mut i: usize = 0;
        while i < self.entries.len()
            invariant
                i <= self.entries.len(),
                forall|k: int| 0 <= k < i ==> (#[trigger] self.entries@[k]).0@ != label@,
            decreases self.entries.len() - i,
        {
            if str_eq(self.entries[i].0.as_str(), label) {
                return Some(i);
            }
            i += 1;
        }
        None
    }

    /// The address of `label`, if the table defines it.
    pub fn get(&self, label: &str) -> (r: Option<MachineAddress>)
        ensures
            r == if self@.dom().contains(label@) {
                Some(self@[label@])
            } else {
                None
            },
    {
        match self.position(label) {
            Some(i) => {
                proof {
                    let j = choose|j: int| first_entry(self.entries@, label@, j);
                    lemma_first_entry_unique(self.entries@, label@, i as int, j);
                }
                Some(self.entries[i].1)
            },
            None => None,
        }
    }

    /// Whether the table defines `label`.
    pub fn contains_key(&self, label: &str) -> (r: bool)
        ensures
            r == self@.dom().contains(label@),
    {
        self.position(label).is_some()
    }

    /// Gives `label` the address `address`, unless the table already defines it.
    pub fn define(&mut self, label: String, address: MachineAddress)
        ensures
            final(self)@ == if old(self)@.dom().contains(label@) {
                old(self)@
            } else {
                old(self)@.insert(label@, address)
            },
    {
        let ghost before = self.entries@;
        if self.position(label.as_str()).is_none() {
            self.entries.push((label, address));
            proof {
                let after = self.entries@;
                let n = before.len() as int;
                assert(first_entry(after, label@, n)) by {
                    assert forall|j: int| 0 <= j < n implies (#[trigger] after[j]).0@
                        != label@ by {
                        assert(after[j] == before[j]);
                        if before[j].0@ == label@ {
                            lemma_some_first_entry(before, label@, j);
                        }
                    }
                }
                assert forall|name: Seq<char>, i: int| name != label@ implies (first_entry(
                    after,
                    name,
                    i,
                ) <==> first_entry(before, name, i)) by {
                    if first_entry(after, name, i) {
                        assert(i < n);
                        assert forall|j: int| 0 <= j < i implies (#[trigger] before[j]).0@
                            != name by {
                            assert(after[j] == before[j]);
                        }
                    }
                    if first_entry(before, name, i) {
                        assert forall|j: int| 0 <= j < i implies (#[trigger] after[j]).0@
                            != name by {
                            assert(after[j] == before[j]);
                        }
                    }
                }
                assert forall|name: Seq<char>|
                    #![auto]
                    entries_map(after).dom().contains(name) implies entries_map(after)[name]
                    == entries_map(before).insert(label@, address)[name] by {
                    let i = choose|i: int| first_entry(after, name, i);
                    if name == label@ {
                        lemma_first_entry_unique(after, name, i, n);
                    } else {
                        assert(first_entry(before, name, i));
                        let j = choose|j: int| first_entry(before, name, j);
                        lemma_first_entry_unique(before, name, i, j);
                    }
                }
                assert(entries_map(after) =~= entries_map(before).insert(label@, address));
            }
        }
    }
}

/// Where some entry carries a label, one of them is the first to do so.
proof fn lemma_some_first_entry(entries: Seq<(String, MachineAddress)>, name: Seq<char>, i: int)
    requires
        0 <= i < entries.len(),
        entries[i].0@ == name,
    ensures
        exists|k: int| first_entry(entries, name, k),
    decreases i,
{
    if exists|j: int| 0 <= j < i && (#[trigger] entries[j]).0@ == name {
        let j = choose|j: int| 0 <= j < i && (#[trigger] entries[j]).0@ == name;
        lemma_some_first_entry(entries, name, j);
    } else {
        assert(first_entry(entries, name, i));
    }
}

/// The instruction defines `label`: it carries the label and has an address.
pub open spec fn defines(instruction: InstructionView, label: Seq<char>) -> bool {
    instruction.label == Some(label) && instruction.address is Some
}

/// The instruction `i` is the first of the program that defines `label`.
pub open spec fn first_definition(
    instructions: Seq<InstructionView>,
    label: Seq<char>,
    i: int,
) -> bool {
    &&& 0 <= i < instructions.len()
    &&& defines(instructions[i], label)
    &&& forall|j: int| 0 <= j < i ==> !defines(#[trigger] instructions[j], label)
}

/// The symbol table of a program: each label that some instruction defines,
/// with the address of the first instruction that does.
pub open spec fn symbol_map(instructions: Seq<InstructionView>) -> Map<Seq<char>, MachineAddress> {
    Map::new(
        |label: Seq<char>| exists|i: int| first_definition(instructions, label, i),
        |label: Seq<char>|
            instructions[choose|i: int| first_definition(instructions, label, i)].address->0,
    )
}

/// Where some instruction defines a label, one of them is the first to do so.
pub proof fn lemma_some_first_definition(
    instructions: Seq<InstructionView>,
    label: Seq<char>,
    i: int,
)
    requires
        0 <= i < instructions.len(),
        defines(instructions[i], label),
    ensures
        exists|k: int| 0 <= k <= i && first_definition(instructions, label, k),
    decreases i,
{
    if exists|j: int| 0 <= j < i && defines(#[trigger] instructions[j], label) {
        let j = choose|j: int| 0 <= j < i && defines(#[trigger] instructions[j], label);
        lemma_some_first_definition(instructions, label, j);
    } else {
        assert(first_definition(instructions, label, i));
    }
}

/// A label has at most one first definition, and the symbol table holds its address.
pub proof fn lemma_first_definition(instructions: Seq<InstructionView>, label: Seq<char>, i: int)
    requires
        first_definition(instructions, label, i),
    ensures
        symbol_map(instructions).dom().contains(label),
        symbol_map(instructions)[label] == instructions[i].address->0,
{
    let k = choose|k: int| first_definition(instructions, label, k);
    if k < i {
        assert(!defines(instructions[k], label));
    } else if i < k {
        assert(!defines(instructions[i], label));
    }
}

/// Builds the symbol table of a program in one pass from its first
/// instruction to its last. An instruction without a label or without an
/// address defines nothing, and a label that is defined again keeps its
/// first address.
pub fn create_symbol_table(instructions: &Vec<Instruction>) -> (symbol_table: SymbolTable)
    ensures
        symbol_table@ == symbol_map(instruction_views(instructions@)),
{
    let ghost views = instruction_views(instructions@);
    let mut symbol_table = SymbolTable::new();
    let mut index: usize = 0;
    while index < instructions.len()
        invariant
            index <= instructions.len(),
            views == instruction_views(instructions@),
            forall|label: Seq<char>| #[trigger]
                symbol_table@.dom().contains(label) <==> exists|i: int|
                    0 <= i < index && first_definition(views, label, i),
            forall|label: Seq<char>, i: int|
                0 <= i < index && #[trigger] first_definition(views, label, i)
                    ==> symbol_table@[label] == views[i].address->0,
        decreases instructions.len() - index,
    {
        let instruction = &instructions[index];
        let ghost before = symbol_table@;
        let ghost k = index as int;
        assert(views[k] == instruction@);
        if let Some(label) = &instruction.label {
            if let Some(address) = instruction.address {
                if !symbol_table.contains_key(label.as_str()) {
                    symbol_table.define(label.clone(), address);
                    proof {
                        assert(first_definition(views, label@, k)) by {
                            if exists|j: int| 0 <= j < k && defines(#[trigger] views[j], label@) {
                                let j = choose|j: int|
                                    0 <= j < k && defines(#[trigger] views[j], label@);
                                lemma_some_first_definition(views, label@, j);
                            }
                        }
                    }
                } else {
                    proof {
                        let j = choose|j: int| 0 <= j < k && first_definition(views, label@, j);
                        assert(defines(views[j], label@));
                        assert(!first_definition(views, label@, k));
                    }
                }
            }
        }
        proof {
            assert forall|label: Seq<char>| #[trigger]
                symbol_table@.dom().contains(label) <==> exists|i: int|
                    0 <= i < k + 1 && first_definition(views, label, i) by {
                if before.dom().contains(label) {
                    let i = choose|i: int| 0 <= i < k && first_definition(views, label, i);
                    assert(0 <= i < k + 1 && first_definition(views, label, i));
                }
                if exists|i: int| 0 <= i < k + 1 && first_definition(views, label, i) {
                    let i = choose|i: int| 0 <= i < k + 1 && first_definition(views, label, i);
                    if i < k {
                        assert(before.dom().contains(label));
                    }
                }
            }
            assert forall|label: Seq<char>, i: int|
                0 <= i < k + 1 && #[trigger] first_definition(
                    views,
                    label,
                    i,
                ) implies symbol_table@[label] == views[i].address->0 by {
                if i < k {
                    assert(before.dom().contains(label));
                    assert(before[label] == views[i].address->0);
                }
            }
        }
        index += 1;
    }
    proof {
        let target = symbol_map(views);
        assert forall|label: Seq<char>| #[trigger]
            symbol_table@.dom().contains(label) <==> target.dom().contains(label) by {
            if target.dom().contains(label) {
                let i = choose|i: int| first_definition(views, label, i);
                assert(0 <= i < index && first_definition(views, label, i));
            }
        }
        assert forall|label: Seq<char>| #[trigger]
            symbol_table@.dom().contains(label) implies symbol_table@[label] == target[label] by {
            let i = choose|i: int| first_definition(views, label, i);
            assert(0 <= i < index && first_definition(views, label, i));
        }
        assert(symbol_table@ =~= target);
    }
    symbol_table
}

/// The label whose address a sequence statement needs. `GOTO FETCH` needs
/// none, since `FETCH` is no label of the program.
pub open spec fn needed_label(statement: Option<TestAndSequenceStatementView>) -> Option<Seq<char>> {
    match statement {
        Some(TestAndSequenceStatementView::Goto(label)) => if label == "FETCH"@ {
            None
        } else {
            Some(label)
        },
        Some(TestAndSequenceStatementView::Call(label)) => Some(label),
        Some(TestAndSequenceStatementView::If(_, _, label, _)) => Some(label),
        Some(TestAndSequenceStatementView::Iop(label)) => Some(label),
        Some(TestAndSequenceStatementView::Ira(label)) => Some(label),
        Some(TestAndSequenceStatementView::Iab(label)) => Some(label),
        Some(TestAndSequenceStatementView::Return) => None,
        Some(TestAndSequenceStatementView::Nsq) => None,
        None => None,
    }
}

/// The instruction needs the address of `label`, and `table` does not have it.
pub open spec fn lacks(
    table: Map<Seq<char>, MachineAddress>,
    instruction: InstructionView,
    label: Seq<char>,
) -> bool {
    needed_label(instruction.test_and_sequence_statement) == Some(label) && !table.dom().contains(
        label,
    )
}

/// The labels that the program needs and `table` does not define.
pub open spec fn unresolved_symbols(
    table: Map<Seq<char>, MachineAddress>,
    instructions: Seq<InstructionView>,
) -> Set<Seq<char>> {
    Set::new(
        |label: Seq<char>|
            exists|i: int|
                0 <= i < instructions.len() && lacks(table, #[trigger] instructions[i], label),
    )
}

/// The label `label` stands at the place `k` of the list.
pub open spec fn listed_at(labels: Seq<String>, label: Seq<char>, k: int) -> bool {
    0 <= k < labels.len() && labels[k]@ == label
}

/// The labels that a list holds.
pub open spec fn listed(labels: Seq<String>) -> Set<Seq<char>> {
    Set::new(|label: Seq<char>| exists|k: int| listed_at(labels, label, k))
}

/// No label stands twice in the list.
pub open spec fn listed_once(labels: Seq<String>) -> bool {
    forall|a: int, b: int|
        0 <= a < b < labels.len() ==> (#[trigger] labels[a])@ != (#[trigger] labels[b])@
}

/// The labels of a list, in order.
pub open spec fn label_views(labels: Seq<String>) -> Seq<Seq<char>> {
    Seq::new(labels.len(), |i: int| labels[i]@)
}

/// The labels that the program needs and `table` does not define, each once,
/// in the order in which the program first needs them.
pub open spec fn unresolved_list(
    table: Map<Seq<char>, MachineAddress>,
    instructions: Seq<InstructionView>,
) -> Seq<Seq<char>>
    decreases instructions.len(),
{
    if instructions.len() == 0 {
        Seq::empty()
    } else {
        let before = unresolved_list(table, instructions.drop_last());
        match needed_label(instructions.last().test_and_sequence_statement) {
            Some(label) if !table.dom().contains(label) && !before.contains(label) => before.push(
                label,
            ),
            _ => before,
        }
    }
}

fn is_listed(labels: &Vec<String>, label: &str) -> (r: bool)
    ensures
        r == listed(labels@).contains(label@),
        r == label_views(labels@).contains(label@),
{
    assert forall|j: int| listed_at(labels@, label@, j) <==> (0 <= j < label_views(labels@).len()
        && label_views(labels@)[j] == label@) by {}
    let mut k: usize = 0;
    while k < labels.len()
        invariant
            k <= labels.len(),
            forall|j: int| 0 <= j < k ==> !listed_at(labels@, label@, j),
        decreases labels.len() - k,
    {
        if str_eq(labels[k].as_str(), label) {
            assert(listed_at(labels@, label@, k as int));
            assert(label_views(labels@)[k as int] == label@);
            return true;
        }
        k += 1;
    }
    false
}

fn needed(statement: &Option<TestAndSequenceStatement>) -> (r: Option<&String>)
    ensures
        match r {
            Some(label) => needed_label(
                match *statement {
                    Some(s) => Some(s@),
                    None => None,
                },
            ) == Some(label@),
            None => needed_label(
                match *statement {
                    Some(s) => Some(s@),
                    None => None,
                },
            ) is None,
        },
{
    match statement {
        Some(TestAndSequenceStatement::Goto(symbol)) => {
            if str_eq(symbol.as_str(), "FETCH") {
                None
            } else {
                Some(symbol)
            }
        },
        Some(TestAndSequenceStatement::Call(symbol)) => Some(symbol),
        Some(TestAndSequenceStatement::If(_, _, symbol, _)) => Some(symbol),
        Some(TestAndSequenceStatement::Iop(symbol)) => Some(symbol),
        Some(TestAndSequenceStatement::Ira(symbol)) => Some(symbol),
        Some(TestAndSequenceStatement::Iab(symbol)) => Some(symbol),
        _ => None,
    }
}

/// Lists the labels that the sequence fields of the program need and that
/// `symbol_table` does not define, each once, in the order in which the
/// program first needs them. The list is empty exactly where every reference
/// can be resolved.
pub fn check_unresolved_symbols(
    symbol_table: &SymbolTable,
    instructions: &Vec<Instruction>,
) -> (unresolved: Vec<String>)
    ensures
        label_views(unresolved@) == unresolved_list(
            symbol_table@,
            instruction_views(instructions@),
        ),
        listed(unresolved@) == unresolved_symbols(
            symbol_table@,
            instruction_views(instructions@),
        ),
        listed_once(unresolved@),
{
    let ghost views = instruction_views(instructions@);
    let mut unresolved: Vec<String> = Vec::new();
    let mut index: usize = 0;
    while index < instructions.len()
        invariant
            index <= instructions.len(),
            views == instruction_views(instructions@),
            listed_once(unresolved@),
            label_views(unresolved@) == unresolved_list(symbol_table@, views.take(index as int)),
            forall|label: Seq<char>| #[trigger]
                listed(unresolved@).contains(label) <==> exists|i: int|
                    0 <= i < index && lacks(symbol_table@, #[trigger] views[i], label),
        decreases instructions.len() - index,
    {
        let instruction = &instructions[index];
        let ghost before = unresolved@;
        let ghost k = index as int;
        assert(views[k] == instruction@);
        proof {
            assert(views.take(k + 1).drop_last() =~= views.take(k));
            assert(views.take(k + 1).last() == views[k]);
        }
        let ghost listing = label_views(unresolved@);
        let mut added = false;
        if let Some(symbol) = needed(&instruction.test_and_sequence_statement) {
            if !symbol_table.contains_key(symbol.as_str()) && !is_listed(
                &unresolved,
                symbol.as_str(),
            ) {
                unresolved.push(symbol.clone());
                added = true;
                proof {
                    let n = before.len() as int;
                    assert(label_views(unresolved@) =~= listing.push(symbol@));
                    assert(listed_at(unresolved@, symbol@, n));
                    assert forall|a: int, b: int| 0 <= a < b < unresolved@.len() implies (
                    #[trigger] unresolved@[a])@ != (#[trigger] unresolved@[b])@ by {
                        if b == n {
                            assert(!listed_at(before, symbol@, a));
                            assert(unresolved@[a] == before[a]);
                        } else {
                            assert(unresolved@[a] == before[a]);
                            assert(unresolved@[b] == before[b]);
                        }
                    }
                }
            }
        }
        proof {
            assert forall|label: Seq<char>| #[trigger]
                listed(unresolved@).contains(label) <==> exists|i: int|
                    0 <= i < k + 1 && lacks(symbol_table@, #[trigger] views[i], label) by {
                if listed(unresolved@).contains(label) {
                    let j = choose|j: int| listed_at(unresolved@, label, j);
                    if j < before.len() {
                        assert(unresolved@[j] == before[j]);
                        assert(listed_at(before, label, j));
                        assert(listed(before).contains(label));
                        let i = choose|i: int|
                            0 <= i < k && lacks(symbol_table@, #[trigger] views[i], label);
                        assert(0 <= i < k + 1 && lacks(symbol_table@, views[i], label));
                    } else {
                        assert(added);
                        assert(0 <= k < k + 1 && lacks(symbol_table@, views[k], label));
                    }
                }
                if exists|i: int|
                    0 <= i < k + 1 && lacks(symbol_table@, #[trigger] views[i], label) {
                    let i = choose|i: int|
                        0 <= i < k + 1 && lacks(symbol_table@, #[trigger] views[i], label);
                    if i < k {
                        assert(listed(before).contains(label));
                        let j = choose|j: int| listed_at(before, label, j);
                        if added {
                            assert(unresolved@[j] == before[j]);
                        }
                        assert(listed_at(unresolved@, label, j));
                    } else {
                        if !added {
                            assert(listed(before).contains(label));
                        } else {
                            assert(listed_at(unresolved@, label, before.len() as int));
                        }
                    }
                }
            }
        }
        index += 1;
    }
    proof {
        assert(views.take(index as int) =~= views);
        assert(listed(unresolved@) =~= unresolved_symbols(symbol_table@, views));
    }
    unresolved
}

} // verus!
