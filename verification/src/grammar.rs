//! The grammar of the microprogram source, over its tokens.
//!
//! A program is `.TITLE name`, the end of a line, one or more instructions
//! and `.END`; blank lines may stand before the title, between the parts of
//! an instruction and after `.END`. An instruction is a head, `* [label:]
//! [address]` on a line of its own, and up to four parts in this order: the
//! sequence statement, the memory statement, the calculation and the
//! auxiliary statement. Every part but the memory statement takes the rest
//! of its line.
//!
//! Where several forms could apply, the one listed first does, and what a
//! part has taken it keeps. A part that does not fit its words is taken as
//! absent, and the words are left for what follows.
//!
//! Each function here takes the tokens and a place among them, and gives
//! what stands at that place, together with the place behind it where that
//! is not simply the next one.

use vstd::prelude::*;
use vstd::utf8::encode_utf8;
use crate::lexer::{Class, radix_value};
use crate::parser::{
    Alu,
    AluAndShift,
    AluThrough,
    AstView,
    CalculationStatement,
    ExStatement,
    Flag,
    FlagState,
    InstructionView,
    Lbus,
    LbusOrRbus,
    LbusSource,
    MachineAddress,
    MemoryStatement,
    Rbus,
    RbusSource,
    Sbus,
    Shift,
    Statement,
    TestAndSequenceStatementView,
};
use crate::token::TokenView;

verus! {

/// The token at the place `p`, if the text reaches that far.
pub open spec fn peek(t: Seq<TokenView>, p: int) -> Option<TokenView> {
    if 0 <= p < t.len() {
        Some(t[p])
    } else {
        None
    }
}

/// The token `token` stands at `p`.
pub open spec fn is_token(t: Seq<TokenView>, p: int, token: TokenView) -> bool {
    peek(t, p) == Some(token)
}

/// The identifier `word` stands at `p`.
pub open spec fn is_word(t: Seq<TokenView>, p: int, word: Seq<char>) -> bool {
    peek(t, p) == Some(TokenView::String(word))
}

/// The identifier that stands at `p`.
pub open spec fn string_at(t: Seq<TokenView>, p: int) -> Option<Seq<char>> {
    match peek(t, p) {
        Some(TokenView::String(s)) => Some(s),
        _ => None,
    }
}

/// The first place from `p` on where no end of a line stands.
pub open spec fn skip_eols(t: Seq<TokenView>, p: int) -> int
    decreases t.len() - p,
{
    if is_token(t, p, TokenView::Eol) {
        skip_eols(t, p + 1)
    } else {
        p
    }
}

/// The number that an identifier stands for where a number is asked for: its
/// value in base 16, if it is made of hexadecimal digits and fits in 16 bits.
pub open spec fn hex_word(word: Seq<char>) -> Option<u16> {
    let bytes = encode_utf8(word);
    if bytes.len() > 0 && (forall|i: int| 0 <= i < bytes.len() ==> Class::Hexadecimal.holds(#[trigger] bytes[i]))
        && radix_value(bytes, 16) <= 0xFFFF {
        Some(radix_value(bytes, 16) as u16)
    } else {
        None
    }
}

/// The number that stands at `p`, in any of its four spellings.
pub open spec fn unsigned_integer(t: Seq<TokenView>, p: int) -> Option<u16> {
    match peek(t, p) {
        Some(TokenView::String(s)) => hex_word(s),
        Some(TokenView::Hexadecimal(h)) => Some(h),
        Some(TokenView::Decimal(d)) => Some(d),
        Some(TokenView::Binary(b)) => Some(b),
        _ => None,
    }
}

/// What follows the `*` of a head at `p`: the label, the address, and the
/// place where the line must end.
pub open spec fn head_parts(t: Seq<TokenView>, p: int) -> (
    Option<Seq<char>>,
    Option<MachineAddress>,
    int,
) {
    let (label, q) = if string_at(t, p + 1) is Some && is_token(t, p + 2, TokenView::Colon) {
        (string_at(t, p + 1), p + 3)
    } else {
        (None, p + 1)
    };
    match unsigned_integer(t, q) {
        Some(address) => (label, Some(address), q + 1),
        None => (label, None, q),
    }
}

/// A head stands at `p`: `*`, then its parts, then the end of the line.
pub open spec fn is_head(t: Seq<TokenView>, p: int) -> bool {
    is_token(t, p, TokenView::Star) && is_token(t, head_parts(t, p).2, TokenView::Eol)
}

/// The flag of that name.
pub open spec fn flag_named(name: Seq<char>) -> Option<Flag> {
    if name == "ZER"@ {
        Some(Flag::Zer)
    } else if name == "NEG"@ {
        Some(Flag::Neg)
    } else if name == "CRY"@ {
        Some(Flag::Cry)
    } else if name == "OV"@ {
        Some(Flag::Ov)
    } else if name == "CZ"@ {
        Some(Flag::Cz)
    } else if name == "T"@ {
        Some(Flag::T)
    } else {
        None
    }
}

/// The store bus of that name.
pub open spec fn sbus_named(name: Seq<char>) -> Option<Sbus> {
    if name == "R0"@ {
        Some(Sbus::R0)
    } else if name == "R1"@ {
        Some(Sbus::R1)
    } else if name == "R2"@ {
        Some(Sbus::R2)
    } else if name == "R3"@ {
        Some(Sbus::R3)
    } else if name == "R4"@ {
        Some(Sbus::R4)
    } else if name == "R5"@ {
        Some(Sbus::R5)
    } else if name == "R6"@ {
        Some(Sbus::R6)
    } else if name == "R7"@ {
        Some(Sbus::R7)
    } else if name == "RA"@ {
        Some(Sbus::Ra)
    } else if name == "RAP"@ {
        Some(Sbus::Rap)
    } else if name == "RB"@ {
        Some(Sbus::Rb)
    } else if name == "RBP"@ {
        Some(Sbus::Rbp)
    } else if name == "PC"@ {
        Some(Sbus::Pc)
    } else {
        None
    }
}

/// The left bus of that name.
pub open spec fn lbus_named(name: Seq<char>) -> Option<Lbus> {
    if name == "R0"@ {
        Some(Lbus::R0)
    } else if name == "R1"@ {
        Some(Lbus::R1)
    } else if name == "R2"@ {
        Some(Lbus::R2)
    } else if name == "R3"@ {
        Some(Lbus::R3)
    } else if name == "R4"@ {
        Some(Lbus::R4)
    } else if name == "R5"@ {
        Some(Lbus::R5)
    } else if name == "R6"@ {
        Some(Lbus::R6)
    } else if name == "R7"@ {
        Some(Lbus::R7)
    } else if name == "RB"@ {
        Some(Lbus::Rb)
    } else if name == "RBP"@ {
        Some(Lbus::Rbp)
    } else if name == "PC"@ {
        Some(Lbus::Pc)
    } else if name == "IO"@ {
        Some(Lbus::Io)
    } else if name == "MM"@ {
        Some(Lbus::Mm)
    } else if name == "IR"@ {
        Some(Lbus::Ir)
    } else if name == "FSR"@ {
        Some(Lbus::Fsr)
    } else if name == "ZERO"@ {
        Some(Lbus::Zero)
    } else {
        None
    }
}

/// The register of the right bus of that name.
pub open spec fn rbus_named(name: Seq<char>) -> Option<Rbus> {
    if name == "R0"@ {
        Some(Rbus::R0)
    } else if name == "R1"@ {
        Some(Rbus::R1)
    } else if name == "R2"@ {
        Some(Rbus::R2)
    } else if name == "R3"@ {
        Some(Rbus::R3)
    } else if name == "R4"@ {
        Some(Rbus::R4)
    } else if name == "R5"@ {
        Some(Rbus::R5)
    } else if name == "R6"@ {
        Some(Rbus::R6)
    } else if name == "R7"@ {
        Some(Rbus::R7)
    } else if name == "RA"@ {
        Some(Rbus::Ra)
    } else if name == "RAP"@ {
        Some(Rbus::Rap)
    } else {
        None
    }
}

/// The shift of that name.
pub open spec fn shift_named(name: Seq<char>) -> Option<Shift> {
    if name == "SLL"@ {
        Some(Shift::Sll)
    } else if name == "SRL"@ {
        Some(Shift::Srl)
    } else if name == "SLA"@ {
        Some(Shift::Sla)
    } else if name == "SRA"@ {
        Some(Shift::Sra)
    } else if name == "SNX"@ {
        Some(Shift::Snx)
    } else if name == "SWP"@ {
        Some(Shift::Swp)
    } else if name == "NSB"@ {
        Some(Shift::Nsb)
    } else {
        None
    }
}

/// The flag at `p`.
pub open spec fn flag(t: Seq<TokenView>, p: int) -> Option<Flag> {
    match string_at(t, p) {
        Some(name) => flag_named(name),
        None => None,
    }
}

/// The store bus at `p`.
pub open spec fn sbus(t: Seq<TokenView>, p: int) -> Option<Sbus> {
    match string_at(t, p) {
        Some(name) => sbus_named(name),
        None => None,
    }
}

/// The left bus at `p`.
pub open spec fn lbus(t: Seq<TokenView>, p: int) -> Option<Lbus> {
    match string_at(t, p) {
        Some(name) => lbus_named(name),
        None => None,
    }
}

/// The right bus at `p`: a register, or else a number.
pub open spec fn rbus(t: Seq<TokenView>, p: int) -> Option<Rbus> {
    match string_at(t, p) {
        Some(name) if rbus_named(name) is Some => rbus_named(name),
        _ => match unsigned_integer(t, p) {
            Some(literal) => Some(Rbus::Literal(literal)),
            None => None,
        },
    }
}

/// The shift at `p`.
pub open spec fn shift(t: Seq<TokenView>, p: int) -> Option<Shift> {
    match string_at(t, p) {
        Some(name) => shift_named(name),
        None => None,
    }
}

/// The ALU operator at `p`.
pub open spec fn alu(t: Seq<TokenView>, p: int) -> Option<Alu> {
    match peek(t, p) {
        Some(TokenView::Plus) => Some(Alu::Plus),
        Some(TokenView::Minus) => Some(Alu::Minus),
        Some(TokenView::String(name)) => if name == "AND"@ {
            Some(Alu::And)
        } else if name == "OR"@ {
            Some(Alu::Or)
        } else if name == "XOR"@ {
            Some(Alu::Xor)
        } else {
            None
        },
        Some(TokenView::Dollar) => Some(Alu::Dollar),
        Some(TokenView::At) => Some(Alu::At),
        _ => None,
    }
}

/// `IF flag = 0 THEN label ELSE FETCH`, or else `IF flag = 0|1 THEN label`.
pub open spec fn if_statement(t: Seq<TokenView>, p: int) -> Option<
    (TestAndSequenceStatementView, int),
> {
    if is_word(t, p, "IF"@) && flag(t, p + 1) is Some && is_token(t, p + 2, TokenView::Equal) {
        let tested = flag(t, p + 1)->0;
        if is_token(t, p + 3, TokenView::Hexadecimal(0)) && is_word(t, p + 4, "THEN"@) && string_at(
            t,
            p + 5,
        ) is Some && is_word(t, p + 6, "ELSE"@) && is_word(t, p + 7, "FETCH"@) {
            Some(
                (
                    TestAndSequenceStatementView::If(
                        tested,
                        FlagState::Zero,
                        string_at(t, p + 5)->0,
                        true,
                    ),
                    p + 8,
                ),
            )
        } else if (is_token(t, p + 3, TokenView::Hexadecimal(1)) || is_token(
            t,
            p + 3,
            TokenView::Hexadecimal(0),
        )) && is_word(t, p + 4, "THEN"@) && string_at(t, p + 5) is Some {
            Some(
                (
                    TestAndSequenceStatementView::If(
                        tested,
                        if is_token(t, p + 3, TokenView::Hexadecimal(1)) {
                            FlagState::One
                        } else {
                            FlagState::Zero
                        },
                        string_at(t, p + 5)->0,
                        false,
                    ),
                    p + 6,
                ),
            )
        } else {
            None
        }
    } else {
        None
    }
}

/// The sequence statement at `p`, without the end of its line.
pub open spec fn sequence_statement(t: Seq<TokenView>, p: int) -> Option<
    (TestAndSequenceStatementView, int),
> {
    if is_word(t, p, "GOTO"@) && string_at(t, p + 1) is Some {
        Some((TestAndSequenceStatementView::Goto(string_at(t, p + 1)->0), p + 2))
    } else if is_word(t, p, "CALL"@) && string_at(t, p + 1) is Some {
        Some((TestAndSequenceStatementView::Call(string_at(t, p + 1)->0), p + 2))
    } else if is_word(t, p, "RETURN"@) {
        Some((TestAndSequenceStatementView::Return, p + 1))
    } else if if_statement(t, p) is Some {
        if_statement(t, p)
    } else if is_word(t, p, "IOP"@) && string_at(t, p + 1) is Some {
        Some((TestAndSequenceStatementView::Iop(string_at(t, p + 1)->0), p + 2))
    } else if is_word(t, p, "IRA"@) && string_at(t, p + 1) is Some {
        Some((TestAndSequenceStatementView::Ira(string_at(t, p + 1)->0), p + 2))
    } else if is_word(t, p, "IAB"@) && string_at(t, p + 1) is Some {
        Some((TestAndSequenceStatementView::Iab(string_at(t, p + 1)->0), p + 2))
    } else if is_word(t, p, "NSQ"@) {
        Some((TestAndSequenceStatementView::Nsq, p + 1))
    } else {
        None
    }
}

/// The sequence statement with the end of its line, or nothing.
pub open spec fn sequence_line(t: Seq<TokenView>, p: int) -> (
    Option<TestAndSequenceStatementView>,
    int,
) {
    match sequence_statement(t, p) {
        Some((statement, q)) if is_token(t, q, TokenView::Eol) => (Some(statement), q + 1),
        _ => (None, p),
    }
}

/// The memory statement at `p`, or nothing.
pub open spec fn memory(t: Seq<TokenView>, p: int) -> (Option<MemoryStatement>, int) {
    if is_word(t, p, "READ"@) {
        (Some(MemoryStatement::Read), p + 1)
    } else if is_word(t, p, "WRITE"@) {
        (Some(MemoryStatement::Write), p + 1)
    } else {
        (None, p)
    }
}

/// An ALU operator, with `: shift` behind it where that follows.
pub open spec fn alu_and_shift(t: Seq<TokenView>, p: int) -> Option<(AluAndShift, int)> {
    match alu(t, p) {
        Some(operator) => if is_token(t, p + 1, TokenView::Colon) && shift(t, p + 2) is Some {
            Some((AluAndShift { alu: operator, shift: shift(t, p + 2) }, p + 3))
        } else {
            Some((AluAndShift { alu: operator, shift: None }, p + 1))
        },
        None => None,
    }
}

/// One bus, with a shift in front of it where one stands there.
pub open spec fn alu_through(t: Seq<TokenView>, p: int) -> Option<(AluThrough, int)> {
    let q = if shift(t, p) is Some {
        p + 1
    } else {
        p
    };
    if lbus(t, q) is Some {
        Some((AluThrough { shift: shift(t, p), lbus_or_rbus: LbusOrRbus::Lbus(lbus(t, q)->0) }, q + 1))
    } else if rbus(t, q) is Some {
        Some((AluThrough { shift: shift(t, p), lbus_or_rbus: LbusOrRbus::Rbus(rbus(t, q)->0) }, q + 1))
    } else {
        None
    }
}

/// The right-hand side of a calculation: two buses around an operator, or
/// else one bus.
pub open spec fn statement(t: Seq<TokenView>, p: int) -> Option<(Statement, int)> {
    match (lbus(t, p), alu_and_shift(t, p + 1)) {
        (Some(left), Some((operator, q))) if rbus(t, q) is Some => Some(
            (Statement::First(left, operator, rbus(t, q)->0), q + 1),
        ),
        _ => match alu_through(t, p) {
            Some((through, q)) => Some((Statement::AluThrough(through), q)),
            None => None,
        },
    }
}

/// The calculation at `p`, without the end of its line: `sbus := ...` or
/// `SET BY ...`.
pub open spec fn calculation(t: Seq<TokenView>, p: int) -> Option<(CalculationStatement, int)> {
    if sbus(t, p) is Some && is_token(t, p + 1, TokenView::ColonEqual) && statement(t, p + 2)
        is Some {
        let (right, q) = statement(t, p + 2)->0;
        Some((CalculationStatement::Alu(sbus(t, p)->0, right), q))
    } else if is_word(t, p, "SET"@) && is_word(t, p + 1, "BY"@) && statement(t, p + 2) is Some {
        let (right, q) = statement(t, p + 2)->0;
        Some((CalculationStatement::SetBy(right), q))
    } else {
        None
    }
}

/// The calculation with the end of its line, or nothing.
pub open spec fn calculation_line(t: Seq<TokenView>, p: int) -> (Option<CalculationStatement>, int) {
    match calculation(t, p) {
        Some((statement, q)) if is_token(t, q, TokenView::Eol) => (Some(statement), q + 1),
        _ => (None, p),
    }
}

/// The source of a load from the left bus: a left bus, or the word `LBUS`.
pub open spec fn lbus_source(t: Seq<TokenView>, p: int) -> Option<LbusSource> {
    if lbus(t, p) is Some {
        Some(LbusSource::Source(lbus(t, p)->0))
    } else if is_word(t, p, "LBUS"@) {
        Some(LbusSource::Lbus)
    } else {
        None
    }
}

/// The source of a load from the right bus: a right bus, or the word `RBUS`.
pub open spec fn rbus_source(t: Seq<TokenView>, p: int) -> Option<RbusSource> {
    if rbus(t, p) is Some {
        Some(RbusSource::Source(rbus(t, p)->0))
    } else if is_word(t, p, "RBUS"@) {
        Some(RbusSource::Rbus)
    } else {
        None
    }
}

/// The auxiliary statement at `p`, without the end of its line.
pub open spec fn ex(t: Seq<TokenView>, p: int) -> Option<(ExStatement, int)> {
    let one = TokenView::Hexadecimal(1);
    let zero = TokenView::Hexadecimal(0);
    if is_word(t, p, "C"@) && is_token(t, p + 1, TokenView::Minus) && is_token(t, p + 2, one) {
        Some((ExStatement::DecrimentC, p + 3))
    } else if is_word(t, p, "FLAG"@) && is_word(t, p + 1, "SAVE"@) {
        Some((ExStatement::FlagSave, p + 2))
    } else if is_word(t, p, "WITH"@) && is_word(t, p + 1, "CRY"@) {
        Some((ExStatement::WithCry, p + 2))
    } else if is_word(t, p, "WITH"@) && is_word(t, p + 1, "ONE"@) {
        Some((ExStatement::WithOne, p + 2))
    } else if is_word(t, p, "IR"@) && is_token(t, p + 1, TokenView::ColonEqual) && lbus_source(
        t,
        p + 2,
    ) is Some {
        Some((ExStatement::Ir(lbus_source(t, p + 2)->0), p + 3))
    } else if is_word(t, p, "IO"@) && is_token(t, p + 1, TokenView::ColonEqual) && lbus_source(
        t,
        p + 2,
    ) is Some {
        Some((ExStatement::Io(lbus_source(t, p + 2)->0), p + 3))
    } else if is_word(t, p, "C"@) && is_token(t, p + 1, TokenView::ColonEqual) && rbus_source(
        t,
        p + 2,
    ) is Some {
        Some((ExStatement::C(rbus_source(t, p + 2)->0), p + 3))
    } else if is_word(t, p, "EXECUTE"@) && is_word(t, p + 1, "IO"@) {
        Some((ExStatement::ExecuteIo, p + 2))
    } else if is_word(t, p, "T"@) && is_token(t, p + 1, TokenView::ColonEqual) && is_token(
        t,
        p + 2,
        one,
    ) {
        Some((ExStatement::Assign1ToT, p + 3))
    } else if is_word(t, p, "T"@) && is_token(t, p + 1, TokenView::ColonEqual) && is_token(
        t,
        p + 2,
        zero,
    ) {
        Some((ExStatement::Assign0ToT, p + 3))
    } else if is_word(t, p, "IRA"@) && is_token(t, p + 1, TokenView::Plus) && is_token(
        t,
        p + 2,
        one,
    ) {
        Some((ExStatement::IraPlus1, p + 3))
    } else if is_word(t, p, "IRB"@) && is_token(t, p + 1, TokenView::Plus) && is_token(
        t,
        p + 2,
        one,
    ) {
        Some((ExStatement::IrbPlus1, p + 3))
    } else if is_word(t, p, "IRB"@) && is_token(t, p + 1, TokenView::Minus) && is_token(
        t,
        p + 2,
        one,
    ) {
        Some((ExStatement::IrbMinus1, p + 3))
    } else if is_word(t, p, "SET"@) && is_word(t, p + 1, "HLT"@) {
        Some((ExStatement::SetHlt, p + 2))
    } else if is_word(t, p, "SET"@) && is_word(t, p + 1, "OV"@) {
        Some((ExStatement::SetOv, p + 2))
    } else if is_word(t, p, "NEX"@) {
        Some((ExStatement::Nex, p + 1))
    } else {
        None
    }
}

/// The auxiliary statement with the end of its line, or nothing.
pub open spec fn ex_line(t: Seq<TokenView>, p: int) -> (Option<ExStatement>, int) {
    match ex(t, p) {
        Some((statement, q)) if is_token(t, q, TokenView::Eol) => (Some(statement), q + 1),
        _ => (None, p),
    }
}

/// The instruction whose head stands at `p`, and the place behind the blank
/// lines that follow it.
pub open spec fn instruction(t: Seq<TokenView>, p: int) -> Option<(InstructionView, int)> {
    if is_head(t, p) {
        let (label, address, end_of_head) = head_parts(t, p);
        let (test_and_sequence_statement, past_sequence) = sequence_line(t, skip_eols(t, end_of_head + 1));
        let (memory_statement, past_memory) = memory(t, skip_eols(t, past_sequence));
        let (calculation_statement, past_calculation) = calculation_line(t, skip_eols(t, past_memory));
        let (ex_statement, past_ex) = ex_line(t, skip_eols(t, past_calculation));
        Some(
            (
                InstructionView {
                    label,
                    address,
                    test_and_sequence_statement,
                    memory_statement,
                    calculation_statement,
                    ex_statement,
                },
                skip_eols(t, past_ex),
            ),
        )
    } else {
        None
    }
}

/// The place behind the instruction whose head stands at `p`.
pub open spec fn instruction_end(t: Seq<TokenView>, p: int) -> int {
    match instruction(t, p) {
        Some((_, q)) => q,
        None => p,
    }
}

/// Where the text fails to be an instruction at `p`: at the place where the
/// line of the head must end, or at `p` where no head starts.
pub open spec fn instruction_fault(t: Seq<TokenView>, p: int) -> int {
    if is_token(t, p, TokenView::Star) {
        head_parts(t, p).2
    } else {
        p
    }
}

/// The token at `p` starts an instruction or ends the program.
pub open spec fn is_landmark(t: Seq<TokenView>, p: int) -> bool {
    is_token(t, p, TokenView::Star) || is_token(t, p, TokenView::DotString("END"@))
}

/// The first place from `p` on where an instruction starts or the program
/// ends, or the end of the text.
pub open spec fn seek(t: Seq<TokenView>, p: int) -> int
    decreases t.len() - p,
{
    if 0 <= p < t.len() && !is_landmark(t, p) {
        seek(t, p + 1)
    } else {
        p
    }
}

/// What reading the instructions of a program gives: the instructions that
/// were read, the places where the text was no instruction, and the place
/// where the reading ended.
pub struct Scan {
    pub instructions: Seq<InstructionView>,
    pub faults: Seq<int>,
    pub end: int,
}

/// Blank lines are skipped forwards, and not beyond the end of the text.
pub proof fn lemma_skip_eols(t: Seq<TokenView>, p: int)
    requires
        0 <= p <= t.len(),
    ensures
        p <= skip_eols(t, p) <= t.len(),
        !is_token(t, skip_eols(t, p), TokenView::Eol),
    decreases t.len() - p,
{
    if is_token(t, p, TokenView::Eol) {
        lemma_skip_eols(t, p + 1);
    }
}

/// The search for a landmark goes forwards, and not beyond the end of the text.
pub proof fn lemma_seek(t: Seq<TokenView>, p: int)
    requires
        0 <= p <= t.len(),
    ensures
        p <= seek(t, p) <= t.len(),
        seek(t, p) < t.len() ==> is_landmark(t, seek(t, p)),
    decreases t.len() - p,
{
    if p < t.len() && !is_landmark(t, p) {
        lemma_seek(t, p + 1);
    }
}

/// The place where the line of a head must end lies behind the `*` and
/// within the text.
pub proof fn lemma_head_parts(t: Seq<TokenView>, p: int)
    requires
        0 <= p < t.len(),
    ensures
        p < head_parts(t, p).2 <= t.len(),
{
}

/// The parts of an instruction are read forwards and within the text.
pub proof fn lemma_parts(t: Seq<TokenView>, p: int)
    requires
        0 <= p <= t.len(),
    ensures
        p <= sequence_line(t, p).1 <= t.len(),
        p <= memory(t, p).1 <= t.len(),
        p <= calculation_line(t, p).1 <= t.len(),
        p <= ex_line(t, p).1 <= t.len(),
{
}

/// An instruction ends behind its head and within the text.
pub proof fn lemma_instruction(t: Seq<TokenView>, p: int)
    requires
        0 <= p < t.len(),
        instruction(t, p) is Some,
    ensures
        p < instruction_end(t, p) <= t.len(),
{
    lemma_head_parts(t, p);
    let end_of_head = head_parts(t, p).2;
    let at_sequence = skip_eols(t, end_of_head + 1);
    lemma_skip_eols(t, end_of_head + 1);
    lemma_parts(t, at_sequence);
    let past_sequence = sequence_line(t, at_sequence).1;
    let at_memory = skip_eols(t, past_sequence);
    lemma_skip_eols(t, past_sequence);
    lemma_parts(t, at_memory);
    let past_memory = memory(t, at_memory).1;
    let at_calculation = skip_eols(t, past_memory);
    lemma_skip_eols(t, past_memory);
    lemma_parts(t, at_calculation);
    let past_calculation = calculation_line(t, at_calculation).1;
    let at_ex = skip_eols(t, past_calculation);
    lemma_skip_eols(t, past_calculation);
    lemma_parts(t, at_ex);
    let past_ex = ex_line(t, at_ex).1;
    lemma_skip_eols(t, past_ex);
}

/// Reads instructions from `p` on, up to `.END` or the end of the text.
/// Where the text is no instruction, the place is noted and the reading goes
/// on at the next `*` or `.END` behind `p`.
pub open spec fn scan(t: Seq<TokenView>, p: int) -> Scan
    decreases t.len() - p,
    via scan_decreases
{
    if p < 0 || p >= t.len() || is_token(t, p, TokenView::DotString("END"@)) {
        Scan { instructions: Seq::empty(), faults: Seq::empty(), end: p }
    } else {
        match instruction(t, p) {
            Some((read, q)) => {
                let rest = scan(t, q);
                Scan { instructions: seq![read] + rest.instructions, ..rest }
            },
            None => {
                let rest = scan(t, seek(t, p + 1));
                Scan { faults: seq![instruction_fault(t, p)] + rest.faults, ..rest }
            },
        }
    }
}

#[via_fn]
proof fn scan_decreases(t: Seq<TokenView>, p: int) {
    if !(p < 0 || p >= t.len() || is_token(t, p, TokenView::DotString("END"@))) {
        if instruction(t, p) is Some {
            lemma_instruction(t, p);
        } else {
            lemma_seek(t, p + 1);
        }
    }
}

/// Where the text fails to start with `.TITLE name` and the end of a line.
pub open spec fn title_fault(t: Seq<TokenView>) -> Option<int> {
    let p = skip_eols(t, 0);
    if !is_token(t, p, TokenView::DotString("TITLE"@)) {
        Some(p)
    } else if string_at(t, p + 1) is None {
        Some(p + 1)
    } else if !is_token(t, p + 2, TokenView::Eol) {
        Some(p + 2)
    } else {
        None
    }
}

/// The title of the program.
pub open spec fn title(t: Seq<TokenView>) -> Seq<char> {
    string_at(t, skip_eols(t, 0) + 1)->0
}

/// Where the reading of instructions starts: behind the title line and the
/// blank lines that follow it, or at the next `*` or `.END` where the title
/// line is at fault.
pub open spec fn body_start(t: Seq<TokenView>) -> int {
    match title_fault(t) {
        None => skip_eols(t, skip_eols(t, 0) + 3),
        Some(fault) => seek(t, fault),
    }
}

/// Where the text fails to end the program at `end`: `.END` is missing; or
/// no instruction stands before it, which is reported only where nothing
/// else was; or something other than blank lines follows it.
pub open spec fn end_fault(t: Seq<TokenView>, body: Scan) -> Option<int> {
    if !is_token(t, body.end, TokenView::DotString("END"@)) {
        Some(body.end)
    } else if body.instructions.len() == 0 && body.faults.len() == 0 && title_fault(t) is None {
        Some(body.end)
    } else if skip_eols(t, body.end + 1) < t.len() {
        Some(skip_eols(t, body.end + 1))
    } else {
        None
    }
}

/// The list of one place, or the empty list.
pub open spec fn one_or_none(place: Option<int>) -> Seq<int> {
    match place {
        Some(p) => seq![p],
        None => Seq::empty(),
    }
}

/// The places where the text is no program, in the order of the text.
pub open spec fn faults(t: Seq<TokenView>) -> Seq<int> {
    let body = scan(t, body_start(t));
    one_or_none(title_fault(t)) + body.faults + one_or_none(end_fault(t, body))
}

/// The program that the tokens spell, if they are at fault nowhere.
pub open spec fn program(t: Seq<TokenView>) -> Option<AstView> {
    if faults(t).len() == 0 {
        Some(AstView { title: title(t), instructions: scan(t, body_start(t)).instructions })
    } else {
        None
    }
}

/// Every fault lies at a token or at the end of the text.
pub proof fn lemma_scan(t: Seq<TokenView>, p: int)
    requires
        0 <= p <= t.len(),
    ensures
        p <= scan(t, p).end <= t.len(),
        forall|k: int|
            0 <= k < scan(t, p).faults.len() ==> 0 <= #[trigger] scan(t, p).faults[k] <= t.len(),
    decreases t.len() - p,
{
    if !(p >= t.len() || is_token(t, p, TokenView::DotString("END"@))) {
        if instruction(t, p) is Some {
            lemma_instruction(t, p);
            lemma_scan(t, instruction_end(t, p));
        } else {
            lemma_seek(t, p + 1);
            lemma_scan(t, seek(t, p + 1));
            lemma_head_parts(t, p);
        }
    }
}

} // verus!
