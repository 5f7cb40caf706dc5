//! The parsed form of a microprogram.

use vstd::prelude::*;
use vstd::string::StringSliceAdditionalSpecFns;
use core::ops::Range;
use crate::grammar;
use crate::lexer::{Class, SpannedView, number, spanned_views, token_parts};
use crate::text::str_eq;
use crate::token::{Token, TokenView};

verus! {

/// An address in the microprogram ROM.
pub type MachineAddress = u16;

/// A packed microinstruction word.
pub type MachineCode = u64;

/// The state of a flag that a conditional branch waits for.
#[derive(Clone, Copy, Debug, Eq, PartialEq, Structural)]
pub enum FlagState {
    Zero,
    One,
}

/// A flag that a conditional branch can test.
#[derive(Clone, Copy, Debug, Eq, PartialEq, Structural)]
pub enum Flag {
    Zer,
    Neg,
    Cry,
    Ov,
    Cz,
    T,
}

/// The next-address action of an instruction.
#[derive(Clone, Debug, Eq, PartialEq)]
pub enum TestAndSequenceStatement {
    Goto(String),
    Call(String),
    Return,
    /// `IF flag = state THEN label`, with `ELSE FETCH` where the last field is set.
    If(Flag, FlagState, String, bool),
    Iop(String),
    Ira(String),
    Iab(String),
    Nsq,
}

/// The mathematical value of a [`TestAndSequenceStatement`].
pub enum TestAndSequenceStatementView {
    Goto(Seq<char>),
    Call(Seq<char>),
    Return,
    If(Flag, FlagState, Seq<char>, bool),
    Iop(Seq<char>),
    Ira(Seq<char>),
    Iab(Seq<char>),
    Nsq,
}

impl View for TestAndSequenceStatement {
    type V = TestAndSequenceStatementView;

    open spec fn view(&self) -> TestAndSequenceStatementView {
        match self {
            TestAndSequenceStatement::Goto(l) => TestAndSequenceStatementView::Goto(l@),
            TestAndSequenceStatement::Call(l) => TestAndSequenceStatementView::Call(l@),
            TestAndSequenceStatement::Return => TestAndSequenceStatementView::Return,
            TestAndSequenceStatement::If(f, s, l, e) => TestAndSequenceStatementView::If(
                *f,
                *s,
                l@,
                *e,
            ),
            TestAndSequenceStatement::Iop(l) => TestAndSequenceStatementView::Iop(l@),
            TestAndSequenceStatement::Ira(l) => TestAndSequenceStatementView::Ira(l@),
            TestAndSequenceStatement::Iab(l) => TestAndSequenceStatementView::Iab(l@),
            TestAndSequenceStatement::Nsq => TestAndSequenceStatementView::Nsq,
        }
    }
}

/// The memory action of an instruction.
#[derive(Clone, Copy, Debug, Eq, PartialEq)]
pub enum MemoryStatement {
    Read,
    Write,
}

/// A register that the store bus can write.
#[derive(Clone, Copy, Debug, Eq, PartialEq)]
pub enum Sbus {
    R0,
    R1,
    R2,
    R3,
    R4,
    R5,
    R6,
    R7,
    Ra,
    Rap,
    Rb,
    Rbp,
    Pc,
}

/// A source of the left bus.
#[derive(Clone, Copy, Debug, Eq, PartialEq)]
pub enum Lbus {
    R0,
    R1,
    R2,
    R3,
    R4,
    R5,
    R6,
    R7,
    Rb,
    Rbp,
    Pc,
    Io,
    Mm,
    Ir,
    Fsr,
    Zero,
}

/// An operator of the ALU.
#[derive(Clone, Copy, Debug, Eq, PartialEq)]
pub enum Alu {
    Plus,
    Minus,
    And,
    Or,
    Xor,
    Dollar,
    At,
}

/// An operation of the shifter.
#[derive(Clone, Copy, Debug, Eq, PartialEq)]
pub enum Shift {
    Sll,
    Srl,
    Sla,
    Sra,
    Snx,
    Swp,
    Nsb,
}

/// An ALU operator, and the shift of its result if there is one.
#[derive(Clone, Copy, Debug, Eq, PartialEq)]
pub struct AluAndShift {
    pub alu: Alu,
    pub shift: Option<Shift>,
}

/// A source of the right bus: a register or a number.
#[derive(Clone, Copy, Debug, Eq, PartialEq)]
pub enum Rbus {
    R0,
    R1,
    R2,
    R3,
    R4,
    R5,
    R6,
    R7,
    Ra,
    Rap,
    Literal(u16),
}

/// The one bus of a calculation that passes a single value through.
#[derive(Clone, Copy, Debug, Eq, PartialEq)]
pub enum LbusOrRbus {
    Lbus(Lbus),
    Rbus(Rbus),
}

/// A single bus, and the shift of its value if there is one.
#[derive(Clone, Copy, Debug, Eq, PartialEq)]
pub struct AluThrough {
    pub shift: Option<Shift>,
    pub lbus_or_rbus: LbusOrRbus,
}

/// The right-hand side of a calculation.
#[derive(Clone, Copy, Debug, Eq, PartialEq)]
pub enum Statement {
    /// Both buses, combined by the ALU and then shifted.
    First(Lbus, AluAndShift, Rbus),
    /// One bus, passed through the shifter.
    AluThrough(AluThrough),
}

/// The calculation of an instruction.
#[derive(Clone, Copy, Debug, Eq, PartialEq)]
pub enum CalculationStatement {
    /// `SBUS := ...`: the result is stored.
    Alu(Sbus, Statement),
    /// `SET BY ...`: the result only sets the flags.
    SetBy(Statement),
}

/// What a load from the left bus takes.
#[derive(Clone, Copy, Debug, Eq, PartialEq)]
pub enum LbusSource {
    Source(Lbus),
    /// The word `LBUS`: whatever the calculation puts on the left bus.
    Lbus,
}

/// What a load from the right bus takes.
#[derive(Clone, Copy, Debug, Eq, PartialEq)]
pub enum RbusSource {
    Source(Rbus),
    /// The word `RBUS`: whatever the calculation puts on the right bus.
    Rbus,
}

/// The auxiliary action of an instruction.
#[derive(Clone, Copy, Debug, Eq, PartialEq)]
pub enum ExStatement {
    DecrimentC,
    FlagSave,
    WithCry,
    WithOne,
    Ir(LbusSource),
    Io(LbusSource),
    C(RbusSource),
    ExecuteIo,
    Assign1ToT,
    Assign0ToT,
    IraPlus1,
    IrbPlus1,
    IrbMinus1,
    SetHlt,
    SetOv,
    Nex,
}

/// One microinstruction of the source program.
#[derive(Clone, Debug, Eq, PartialEq)]
pub struct Instruction {
    pub label: Option<String>,
    pub address: Option<MachineAddress>,
    pub test_and_sequence_statement: Option<TestAndSequenceStatement>,
    pub memory_statement: Option<MemoryStatement>,
    pub calculation_statement: Option<CalculationStatement>,
    pub ex_statement: Option<ExStatement>,
}

/// The mathematical value of an [`Instruction`].
pub struct InstructionView {
    pub label: Option<Seq<char>>,
    pub address: Option<MachineAddress>,
    pub test_and_sequence_statement: Option<TestAndSequenceStatementView>,
    pub memory_statement: Option<MemoryStatement>,
    pub calculation_statement: Option<CalculationStatement>,
    pub ex_statement: Option<ExStatement>,
}

impl View for Instruction {
    type V = InstructionView;

    open spec fn view(&self) -> InstructionView {
        InstructionView {
            label: match self.label {
                Some(l) => Some(l@),
                None => None,
            },
            address: self.address,
            test_and_sequence_statement: match self.test_and_sequence_statement {
                Some(s) => Some(s@),
                None => None,
            },
            memory_statement: self.memory_statement,
            calculation_statement: self.calculation_statement,
            ex_statement: self.ex_statement,
        }
    }
}

/// The values of a list of instructions, in order.
pub open spec fn instruction_views(instructions: Seq<Instruction>) -> Seq<InstructionView> {
    Seq::new(instructions.len(), |i: int| instructions[i]@)
}

/// A whole microprogram: its title and its instructions in source order.
#[derive(Clone, Debug, Eq, PartialEq)]
pub struct Ast {
    pub title: String,
    pub instructions: Vec<Instruction>,
}

/// The mathematical value of an [`Ast`].
pub struct AstView {
    pub title: Seq<char>,
    pub instructions: Seq<InstructionView>,
}

impl View for Ast {
    type V = AstView;

    open spec fn view(&self) -> AstView {
        AstView { title: self.title@, instructions: instruction_views(self.instructions@) }
    }
}

/// A place where the tokens are no program: the range of the token that
/// stands there, and the token. At the end of the text the range is empty
/// and there is no token.
#[derive(Debug, Eq, PartialEq)]
pub struct ParseError {
    pub span: Range<usize>,
    pub found: Option<Token>,
}

/// The mathematical value of a [`ParseError`].
pub struct ParseErrorView {
    pub start: int,
    pub end: int,
    pub found: Option<TokenView>,
}

impl View for ParseError {
    type V = ParseErrorView;

    open spec fn view(&self) -> ParseErrorView {
        ParseErrorView {
            start: self.span.start as int,
            end: self.span.end as int,
            found: match self.found {
                Some(token) => Some(token@),
                None => None,
            },
        }
    }
}

/// The tokens of a list of tokens with their ranges.
pub open spec fn token_views(tokens: Seq<(Token, Range<usize>)>) -> Seq<TokenView> {
    token_parts(spanned_views(tokens))
}

/// The error that reports the place `place` among the tokens.
pub open spec fn fault_view(tokens: Seq<SpannedView>, place: int) -> ParseErrorView {
    if 0 <= place < tokens.len() {
        ParseErrorView {
            start: tokens[place].start,
            end: tokens[place].end,
            found: Some(tokens[place].token),
        }
    } else if tokens.len() > 0 {
        ParseErrorView { start: tokens.last().end, end: tokens.last().end, found: None }
    } else {
        ParseErrorView { start: 0, end: 0, found: None }
    }
}

fn fault(tokens: &Vec<(Token, Range<usize>)>, place: usize) -> (r: ParseError)
    ensures
        r@ == fault_view(spanned_views(tokens@), place as int),
{
    if place < tokens.len() {
        ParseError {
            span: tokens[place].1.start..tokens[place].1.end,
            found: Some(tokens[place].0.duplicate()),
        }
    } else if tokens.len() > 0 {
        let end = tokens[tokens.len() - 1].1.end;
        ParseError { span: end..end, found: None }
    } else {
        ParseError { span: 0..0, found: None }
    }
}

fn token(tokens: &Vec<(Token, Range<usize>)>, p: usize, k: usize) -> (r: Option<&Token>)
    requires
        p <= tokens.len(),
    ensures
        match r {
            Some(found) => grammar::peek(token_views(tokens@), p + k) == Some(found@),
            None => grammar::peek(token_views(tokens@), p + k) is None,
        },
{
    if k < tokens.len() - p {
        Some(&tokens[p + k].0)
    } else {
        None
    }
}

fn is_token(tokens: &Vec<(Token, Range<usize>)>, p: usize, k: usize, wanted: &Token) -> (r: bool)
    requires
        p <= tokens.len(),
    ensures
        r == grammar::is_token(token_views(tokens@), p + k, wanted@),
{
    match token(tokens, p, k) {
        Some(found) => found.same(wanted),
        None => false,
    }
}

fn is_word(tokens: &Vec<(Token, Range<usize>)>, p: usize, k: usize, word: &str) -> (r: bool)
    requires
        p <= tokens.len(),
    ensures
        r == grammar::is_word(token_views(tokens@), p + k, word@),
{
    match token(tokens, p, k) {
        Some(Token::String(s)) => str_eq(s.as_str(), word),
        _ => false,
    }
}

fn is_directive(tokens: &Vec<(Token, Range<usize>)>, p: usize, k: usize, word: &str) -> (r: bool)
    requires
        p <= tokens.len(),
    ensures
        r == grammar::is_token(token_views(tokens@), p + k, TokenView::DotString(word@)),
{
    match token(tokens, p, k) {
        Some(Token::DotString(s)) => str_eq(s.as_str(), word),
        _ => false,
    }
}

fn string_at(tokens: &Vec<(Token, Range<usize>)>, p: usize, k: usize) -> (r: Option<&String>)
    requires
        p <= tokens.len(),
    ensures
        match r {
            Some(s) => grammar::string_at(token_views(tokens@), p + k) == Some(s@),
            None => grammar::string_at(token_views(tokens@), p + k) is None,
        },
{
    match token(tokens, p, k) {
        Some(Token::String(s)) => Some(s),
        _ => None,
    }
}

fn skip_eols(tokens: &Vec<(Token, Range<usize>)>, p: usize) -> (q: usize)
    requires
        p <= tokens.len(),
    ensures
        q == grammar::skip_eols(token_views(tokens@), p as int),
        p <= q <= tokens.len(),
{
    let mut q = p;
    while is_token(tokens, q, 0, &Token::Eol)
        invariant
            p <= q <= tokens.len(),
            grammar::skip_eols(token_views(tokens@), q as int) == grammar::skip_eols(
                token_views(tokens@),
                p as int,
            ),
        decreases tokens.len() - q,
    {
        q += 1;
    }
    q
}

fn seek(tokens: &Vec<(Token, Range<usize>)>, p: usize) -> (q: usize)
    requires
        p <= tokens.len(),
    ensures
        q == grammar::seek(token_views(tokens@), p as int),
        p <= q <= tokens.len(),
{
    let mut q = p;
    while q < tokens.len() && !is_token(tokens, q, 0, &Token::Star) && !is_directive(
        tokens,
        q,
        0,
        "END",
    )
        invariant
            p <= q <= tokens.len(),
            grammar::seek(token_views(tokens@), q as int) == grammar::seek(
                token_views(tokens@),
                p as int,
            ),
        decreases tokens.len() - q,
    {
        q += 1;
    }
    q
}

fn hex_word(word: &str) -> (r: Option<u16>)
    ensures
        r == grammar::hex_word(word@),
{
    let bytes = word.as_bytes();
    if bytes.len() == 0 {
        return None;
    }
    let mut i: usize = 0;
    while i < bytes.len()
        invariant
            i <= bytes@.len(),
            bytes@ == word.spec_bytes(),
            forall|k: int| 0 <= k < i ==> Class::Hexadecimal.holds(#[trigger] bytes@[k]),
        decreases bytes@.len() - i,
    {
        if !Class::Hexadecimal.test(bytes[i]) {
            return None;
        }
        i += 1;
    }
    assert(bytes@.subrange(0, bytes@.len() as int) =~= bytes@);
    number(bytes, 0, bytes.len(), 16)
}

fn unsigned_integer(tokens: &Vec<(Token, Range<usize>)>, p: usize, k: usize) -> (r: Option<u16>)
    requires
        p <= tokens.len(),
    ensures
        r == grammar::unsigned_integer(token_views(tokens@), p + k),
{
    match token(tokens, p, k) {
        Some(Token::String(s)) => hex_word(s.as_str()),
        Some(Token::Hexadecimal(h)) => Some(*h),
        Some(Token::Decimal(d)) => Some(*d),
        Some(Token::Binary(b)) => Some(*b),
        _ => None,
    }
}

fn flag_named(name: &str) -> (r: Option<Flag>)
    ensures
        r == grammar::flag_named(name@),
{
    if str_eq(name, "ZER") {
        Some(Flag::Zer)
    } else if str_eq(name, "NEG") {
        Some(Flag::Neg)
    } else if str_eq(name, "CRY") {
        Some(Flag::Cry)
    } else if str_eq(name, "OV") {
        Some(Flag::Ov)
    } else if str_eq(name, "CZ") {
        Some(Flag::Cz)
    } else if str_eq(name, "T") {
        Some(Flag::T)
    } else {
        None
    }
}

fn sbus_named(name: &str) -> (r: Option<Sbus>)
    ensures
        r == grammar::sbus_named(name@),
{
    if str_eq(name, "R0") {
        Some(Sbus::R0)
    } else if str_eq(name, "R1") {
        Some(Sbus::R1)
    } else if str_eq(name, "R2") {
        Some(Sbus::R2)
    } else if str_eq(name, "R3") {
        Some(Sbus::R3)
    } else if str_eq(name, "R4") {
        Some(Sbus::R4)
    } else if str_eq(name, "R5") {
        Some(Sbus::R5)
    } else if str_eq(name, "R6") {
        Some(Sbus::R6)
    } else if str_eq(name, "R7") {
        Some(Sbus::R7)
    } else if str_eq(name, "RA") {
        Some(Sbus::Ra)
    } else if str_eq(name, "RAP") {
        Some(Sbus::Rap)
    } else if str_eq(name, "RB") {
        Some(Sbus::Rb)
    } else if str_eq(name, "RBP") {
        Some(Sbus::Rbp)
    } else if str_eq(name, "PC") {
        Some(Sbus::Pc)
    } else {
        None
    }
}

fn lbus_named(name: &str) -> (r: Option<Lbus>)
    ensures
        r == grammar::lbus_named(name@),
{
    if str_eq(name, "R0") {
        Some(Lbus::R0)
    } else if str_eq(name, "R1") {
        Some(Lbus::R1)
    } else if str_eq(name, "R2") {
        Some(Lbus::R2)
    } else if str_eq(name, "R3") {
        Some(Lbus::R3)
    } else if str_eq(name, "R4") {
        Some(Lbus::R4)
    } else if str_eq(name, "R5") {
        Some(Lbus::R5)
    } else if str_eq(name, "R6") {
        Some(Lbus::R6)
    } else if str_eq(name, "R7") {
        Some(Lbus::R7)
    } else if str_eq(name, "RB") {
        Some(Lbus::Rb)
    } else if str_eq(name, "RBP") {
        Some(Lbus::Rbp)
    } else if str_eq(name, "PC") {
        Some(Lbus::Pc)
    } else if str_eq(name, "IO") {
        Some(Lbus::Io)
    } else if str_eq(name, "MM") {
        Some(Lbus::Mm)
    } else if str_eq(name, "IR") {
        Some(Lbus::Ir)
    } else if str_eq(name, "FSR") {
        Some(Lbus::Fsr)
    } else if str_eq(name, "ZERO") {
        Some(Lbus::Zero)
    } else {
        None
    }
}

fn rbus_named(name: &str) -> (r: Option<Rbus>)
    ensures
        r == grammar::rbus_named(name@),
{
    if str_eq(name, "R0") {
        Some(Rbus::R0)
    } else if str_eq(name, "R1") {
        Some(Rbus::R1)
    } else if str_eq(name, "R2") {
        Some(Rbus::R2)
    } else if str_eq(name, "R3") {
        Some(Rbus::R3)
    } else if str_eq(name, "R4") {
        Some(Rbus::R4)
    } else if str_eq(name, "R5") {
        Some(Rbus::R5)
    } else if str_eq(name, "R6") {
        Some(Rbus::R6)
    } else if str_eq(name, "R7") {
        Some(Rbus::R7)
    } else if str_eq(name, "RA") {
        Some(Rbus::Ra)
    } else if str_eq(name, "RAP") {
        Some(Rbus::Rap)
    } else {
        None
    }
}

fn shift_named(name: &str) -> (r: Option<Shift>)
    ensures
        r == grammar::shift_named(name@),
{
    if str_eq(name, "SLL") {
        Some(Shift::Sll)
    } else if str_eq(name, "SRL") {
        Some(Shift::Srl)
    } else if str_eq(name, "SLA") {
        Some(Shift::Sla)
    } else if str_eq(name, "SRA") {
        Some(Shift::Sra)
    } else if str_eq(name, "SNX") {
        Some(Shift::Snx)
    } else if str_eq(name, "SWP") {
        Some(Shift::Swp)
    } else if str_eq(name, "NSB") {
        Some(Shift::Nsb)
    } else {
        None
    }
}

fn flag(tokens: &Vec<(Token, Range<usize>)>, p: usize, k: usize) -> (r: Option<Flag>)
    requires
        p <= tokens.len(),
    ensures
        r == grammar::flag(token_views(tokens@), p + k),
{
    match string_at(tokens, p, k) {
        Some(name) => flag_named(name.as_str()),
        None => None,
    }
}

fn sbus(tokens: &Vec<(Token, Range<usize>)>, p: usize, k: usize) -> (r: Option<Sbus>)
    requires
        p <= tokens.len(),
    ensures
        r == grammar::sbus(token_views(tokens@), p + k),
{
    match string_at(tokens, p, k) {
        Some(name) => sbus_named(name.as_str()),
        None => None,
    }
}

fn lbus(tokens: &Vec<(Token, Range<usize>)>, p: usize, k: usize) -> (r: Option<Lbus>)
    requires
        p <= tokens.len(),
    ensures
        r == grammar::lbus(token_views(tokens@), p + k),
{
    match string_at(tokens, p, k) {
        Some(name) => lbus_named(name.as_str()),
        None => None,
    }
}

fn rbus(tokens: &Vec<(Token, Range<usize>)>, p: usize, k: usize) -> (r: Option<Rbus>)
    requires
        p <= tokens.len(),
    ensures
        r == grammar::rbus(token_views(tokens@), p + k),
{
    if let Some(name) = string_at(tokens, p, k) {
        if let Some(register) = rbus_named(name.as_str()) {
            return Some(register);
        }
    }
    match unsigned_integer(tokens, p, k) {
        Some(literal) => Some(Rbus::Literal(literal)),
        None => None,
    }
}

fn shift(tokens: &Vec<(Token, Range<usize>)>, p: usize, k: usize) -> (r: Option<Shift>)
    requires
        p <= tokens.len(),
    ensures
        r == grammar::shift(token_views(tokens@), p + k),
{
    match string_at(tokens, p, k) {
        Some(name) => shift_named(name.as_str()),
        None => None,
    }
}

fn alu(tokens: &Vec<(Token, Range<usize>)>, p: usize, k: usize) -> (r: Option<Alu>)
    requires
        p <= tokens.len(),
    ensures
        r == grammar::alu(token_views(tokens@), p + k),
{
    match token(tokens, p, k) {
        Some(Token::Plus) => Some(Alu::Plus),
        Some(Token::Minus) => Some(Alu::Minus),
        Some(Token::String(name)) => {
            if str_eq(name.as_str(), "AND") {
                Some(Alu::And)
            } else if str_eq(name.as_str(), "OR") {
                Some(Alu::Or)
            } else if str_eq(name.as_str(), "XOR") {
                Some(Alu::Xor)
            } else {
                None
            }
        },
        Some(Token::Dollar) => Some(Alu::Dollar),
        Some(Token::At) => Some(Alu::At),
        _ => None,
    }
}

fn if_statement(tokens: &Vec<(Token, Range<usize>)>, p: usize) -> (r: Option<
    (TestAndSequenceStatement, usize),
>)
    requires
        p <= tokens.len(),
    ensures
        match r {
            Some((statement, q)) => grammar::if_statement(token_views(tokens@), p as int) == Some(
                (statement@, q as int),
            ),
            None => grammar::if_statement(token_views(tokens@), p as int) is None,
        },
{
    if !is_word(tokens, p, 0, "IF") {
        return None;
    }
    let tested = match flag(tokens, p, 1) {
        Some(tested) => tested,
        None => {
            return None;
        },
    };
    if !is_token(tokens, p, 2, &Token::Equal) || !is_word(tokens, p, 4, "THEN") {
        return None;
    }
    let name = match string_at(tokens, p, 5) {
        Some(name) => name,
        None => {
            return None;
        },
    };
    let zero = is_token(tokens, p, 3, &Token::Hexadecimal(0));
    let one = is_token(tokens, p, 3, &Token::Hexadecimal(1));
    if zero && is_word(tokens, p, 6, "ELSE") && is_word(tokens, p, 7, "FETCH") {
        Some((TestAndSequenceStatement::If(tested, FlagState::Zero, name.clone(), true), p + 8))
    } else if one {
        Some((TestAndSequenceStatement::If(tested, FlagState::One, name.clone(), false), p + 6))
    } else if zero {
        Some((TestAndSequenceStatement::If(tested, FlagState::Zero, name.clone(), false), p + 6))
    } else {
        None
    }
}

fn sequence_statement(tokens: &Vec<(Token, Range<usize>)>, p: usize) -> (r: Option<
    (TestAndSequenceStatement, usize),
>)
    requires
        p <= tokens.len(),
    ensures
        match r {
            Some((statement, q)) => grammar::sequence_statement(token_views(tokens@), p as int)
                == Some((statement@, q as int)),
            None => grammar::sequence_statement(token_views(tokens@), p as int) is None,
        },
{
    let target = string_at(tokens, p, 1);
    if is_word(tokens, p, 0, "GOTO") && target.is_some() {
        return Some((TestAndSequenceStatement::Goto(target.unwrap().clone()), p + 2));
    }
    if is_word(tokens, p, 0, "CALL") && target.is_some() {
        return Some((TestAndSequenceStatement::Call(target.unwrap().clone()), p + 2));
    }
    if is_word(tokens, p, 0, "RETURN") {
        return Some((TestAndSequenceStatement::Return, p + 1));
    }
    if let Some(found) = if_statement(tokens, p) {
        return Some(found);
    }
    if is_word(tokens, p, 0, "IOP") && target.is_some() {
        return Some((TestAndSequenceStatement::Iop(target.unwrap().clone()), p + 2));
    }
    if is_word(tokens, p, 0, "IRA") && target.is_some() {
        return Some((TestAndSequenceStatement::Ira(target.unwrap().clone()), p + 2));
    }
    if is_word(tokens, p, 0, "IAB") && target.is_some() {
        return Some((TestAndSequenceStatement::Iab(target.unwrap().clone()), p + 2));
    }
    if is_word(tokens, p, 0, "NSQ") {
        return Some((TestAndSequenceStatement::Nsq, p + 1));
    }
    None
}

fn sequence_line(tokens: &Vec<(Token, Range<usize>)>, p: usize) -> (r: (
    Option<TestAndSequenceStatement>,
    usize,
))
    requires
        p <= tokens.len(),
    ensures
        grammar::sequence_line(token_views(tokens@), p as int) == (
            match r.0 {
                Some(statement) => Some(statement@),
                None => None,
            },
            r.1 as int,
        ),
        p <= r.1 <= tokens.len(),
{
    if let Some((statement, q)) = sequence_statement(tokens, p) {
        if is_token(tokens, q, 0, &Token::Eol) {
            return (Some(statement), q + 1);
        }
    }
    (None, p)
}

fn memory(tokens: &Vec<(Token, Range<usize>)>, p: usize) -> (r: (Option<MemoryStatement>, usize))
    requires
        p <= tokens.len(),
    ensures
        grammar::memory(token_views(tokens@), p as int) == (r.0, r.1 as int),
        p <= r.1 <= tokens.len(),
{
    if is_word(tokens, p, 0, "READ") {
        (Some(MemoryStatement::Read), p + 1)
    } else if is_word(tokens, p, 0, "WRITE") {
        (Some(MemoryStatement::Write), p + 1)
    } else {
        (None, p)
    }
}

fn alu_and_shift(tokens: &Vec<(Token, Range<usize>)>, p: usize, k: usize) -> (r: Option<
    (AluAndShift, usize),
>)
    requires
        p <= tokens.len(),
        k <= 3,
    ensures
        match r {
            Some((operator, q)) => grammar::alu_and_shift(token_views(tokens@), p + k) == Some(
                (operator, q as int),
            ) && q <= tokens.len(),
            None => grammar::alu_and_shift(token_views(tokens@), p + k) is None,
        },
{
    match alu(tokens, p, k) {
        Some(operator) => {
            let shifted = shift(tokens, p, k + 2);
            if is_token(tokens, p, k + 1, &Token::Colon) && shifted.is_some() {
                Some((AluAndShift { alu: operator, shift: shifted }, p + k + 3))
            } else {
                Some((AluAndShift { alu: operator, shift: None }, p + k + 1))
            }
        },
        None => None,
    }
}

fn alu_through(tokens: &Vec<(Token, Range<usize>)>, p: usize, k: usize) -> (r: Option<
    (AluThrough, usize),
>)
    requires
        p <= tokens.len(),
        k <= 3,
    ensures
        match r {
            Some((through, q)) => grammar::alu_through(token_views(tokens@), p + k) == Some(
                (through, q as int),
            ) && q <= tokens.len(),
            None => grammar::alu_through(token_views(tokens@), p + k) is None,
        },
{
    let shifted = shift(tokens, p, k);
    let skip: usize = if shifted.is_some() {
        1
    } else {
        0
    };
    if let Some(left) = lbus(tokens, p, k + skip) {
        Some((AluThrough { shift: shifted, lbus_or_rbus: LbusOrRbus::Lbus(left) }, p + k + skip + 1))
    } else if let Some(right) = rbus(tokens, p, k + skip) {
        Some(
            (AluThrough { shift: shifted, lbus_or_rbus: LbusOrRbus::Rbus(right) }, p + k + skip + 1),
        )
    } else {
        None
    }
}

fn statement(tokens: &Vec<(Token, Range<usize>)>, p: usize, k: usize) -> (r: Option<
    (Statement, usize),
>)
    requires
        p <= tokens.len(),
        k <= 2,
    ensures
        match r {
            Some((right, q)) => grammar::statement(token_views(tokens@), p + k) == Some(
                (right, q as int),
            ) && q <= tokens.len(),
            None => grammar::statement(token_views(tokens@), p + k) is None,
        },
{
    if let Some(left) = lbus(tokens, p, k) {
        if let Some((operator, q)) = alu_and_shift(tokens, p, k + 1) {
            if let Some(right) = rbus(tokens, q, 0) {
                return Some((Statement::First(left, operator, right), q + 1));
            }
        }
    }
    match alu_through(tokens, p, k) {
        Some((through, q)) => Some((Statement::AluThrough(through), q)),
        None => None,
    }
}

fn calculation(tokens: &Vec<(Token, Range<usize>)>, p: usize) -> (r: Option<
    (CalculationStatement, usize),
>)
    requires
        p <= tokens.len(),
    ensures
        match r {
            Some((found, q)) => grammar::calculation(token_views(tokens@), p as int) == Some(
                (found, q as int),
            ) && q <= tokens.len(),
            None => grammar::calculation(token_views(tokens@), p as int) is None,
        },
{
    if let Some(store) = sbus(tokens, p, 0) {
        if is_token(tokens, p, 1, &Token::ColonEqual) {
            if let Some((right, q)) = statement(tokens, p, 2) {
                return Some((CalculationStatement::Alu(store, right), q));
            }
        }
    }
    if is_word(tokens, p, 0, "SET") && is_word(tokens, p, 1, "BY") {
        if let Some((right, q)) = statement(tokens, p, 2) {
            return Some((CalculationStatement::SetBy(right), q));
        }
    }
    None
}

fn calculation_line(tokens: &Vec<(Token, Range<usize>)>, p: usize) -> (r: (
    Option<CalculationStatement>,
    usize,
))
    requires
        p <= tokens.len(),
    ensures
        grammar::calculation_line(token_views(tokens@), p as int) == (r.0, r.1 as int),
        p <= r.1 <= tokens.len(),
{
    if let Some((found, q)) = calculation(tokens, p) {
        if is_token(tokens, q, 0, &Token::Eol) {
            return (Some(found), q + 1);
        }
    }
    (None, p)
}

fn lbus_source(tokens: &Vec<(Token, Range<usize>)>, p: usize, k: usize) -> (r: Option<LbusSource>)
    requires
        p <= tokens.len(),
    ensures
        r == grammar::lbus_source(token_views(tokens@), p + k),
{
    if let Some(left) = lbus(tokens, p, k) {
        Some(LbusSource::Source(left))
    } else if is_word(tokens, p, k, "LBUS") {
        Some(LbusSource::Lbus)
    } else {
        None
    }
}

fn rbus_source(tokens: &Vec<(Token, Range<usize>)>, p: usize, k: usize) -> (r: Option<RbusSource>)
    requires
        p <= tokens.len(),
    ensures
        r == grammar::rbus_source(token_views(tokens@), p + k),
{
    if let Some(right) = rbus(tokens, p, k) {
        Some(RbusSource::Source(right))
    } else if is_word(tokens, p, k, "RBUS") {
        Some(RbusSource::Rbus)
    } else {
        None
    }
}

fn ex(tokens: &Vec<(Token, Range<usize>)>, p: usize) -> (r: Option<(ExStatement, usize)>)
    requires
        p <= tokens.len(),
    ensures
        match r {
            Some((found, q)) => grammar::ex(token_views(tokens@), p as int) == Some(
                (found, q as int),
            ) && q <= tokens.len(),
            None => grammar::ex(token_views(tokens@), p as int) is None,
        },
{
    let one = Token::Hexadecimal(1);
    let zero = Token::Hexadecimal(0);
    let assigns = is_token(tokens, p, 1, &Token::ColonEqual);
    let plus_one = is_token(tokens, p, 1, &Token::Plus) && is_token(tokens, p, 2, &one);
    let minus_one = is_token(tokens, p, 1, &Token::Minus) && is_token(tokens, p, 2, &one);
    if is_word(tokens, p, 0, "C") && minus_one {
        return Some((ExStatement::DecrimentC, p + 3));
    }
    if is_word(tokens, p, 0, "FLAG") && is_word(tokens, p, 1, "SAVE") {
        return Some((ExStatement::FlagSave, p + 2));
    }
    if is_word(tokens, p, 0, "WITH") && is_word(tokens, p, 1, "CRY") {
        return Some((ExStatement::WithCry, p + 2));
    }
    if is_word(tokens, p, 0, "WITH") && is_word(tokens, p, 1, "ONE") {
        return Some((ExStatement::WithOne, p + 2));
    }
    if is_word(tokens, p, 0, "IR") && assigns {
        if let Some(source) = lbus_source(tokens, p, 2) {
            return Some((ExStatement::Ir(source), p + 3));
        }
    }
    if is_word(tokens, p, 0, "IO") && assigns {
        if let Some(source) = lbus_source(tokens, p, 2) {
            return Some((ExStatement::Io(source), p + 3));
        }
    }
    if is_word(tokens, p, 0, "C") && assigns {
        if let Some(source) = rbus_source(tokens, p, 2) {
            return Some((ExStatement::C(source), p + 3));
        }
    }
    if is_word(tokens, p, 0, "EXECUTE") && is_word(tokens, p, 1, "IO") {
        return Some((ExStatement::ExecuteIo, p + 2));
    }
    if is_word(tokens, p, 0, "T") && assigns && is_token(tokens, p, 2, &one) {
        return Some((ExStatement::Assign1ToT, p + 3));
    }
    if is_word(tokens, p, 0, "T") && assigns && is_token(tokens, p, 2, &zero) {
        return Some((ExStatement::Assign0ToT, p + 3));
    }
    if is_word(tokens, p, 0, "IRA") && plus_one {
        return Some((ExStatement::IraPlus1, p + 3));
    }
    if is_word(tokens, p, 0, "IRB") && plus_one {
        return Some((ExStatement::IrbPlus1, p + 3));
    }
    if is_word(tokens, p, 0, "IRB") && minus_one {
        return Some((ExStatement::IrbMinus1, p + 3));
    }
    if is_word(tokens, p, 0, "SET") && is_word(tokens, p, 1, "HLT") {
        return Some((ExStatement::SetHlt, p + 2));
    }
    if is_word(tokens, p, 0, "SET") && is_word(tokens, p, 1, "OV") {
        return Some((ExStatement::SetOv, p + 2));
    }
    if is_word(tokens, p, 0, "NEX") {
        return Some((ExStatement::Nex, p + 1));
    }
    None
}

fn ex_line(tokens: &Vec<(Token, Range<usize>)>, p: usize) -> (r: (Option<ExStatement>, usize))
    requires
        p <= tokens.len(),
    ensures
        grammar::ex_line(token_views(tokens@), p as int) == (r.0, r.1 as int),
        p <= r.1 <= tokens.len(),
{
    if let Some((found, q)) = ex(tokens, p) {
        if is_token(tokens, q, 0, &Token::Eol) {
            return (Some(found), q + 1);
        }
    }
    (None, p)
}

fn instruction(tokens: &Vec<(Token, Range<usize>)>, p: usize) -> (r: Result<
    (Instruction, usize),
    usize,
>)
    requires
        p < tokens.len(),
    ensures
        match r {
            Ok((read, q)) => grammar::instruction(token_views(tokens@), p as int) == Some(
                (read@, q as int),
            ) && p < q <= tokens.len(),
            Err(place) => grammar::instruction(token_views(tokens@), p as int) is None && place
                == grammar::instruction_fault(token_views(tokens@), p as int) && place
                <= tokens.len(),
        },
{
    if !is_token(tokens, p, 0, &Token::Star) {
        return Err(p);
    }
    let named = string_at(tokens, p, 1);
    let (label, q): (Option<String>, usize) = if named.is_some() && is_token(
        tokens,
        p,
        2,
        &Token::Colon,
    ) {
        (Some(named.unwrap().clone()), p + 3)
    } else {
        (None, p + 1)
    };
    let (address, end_of_head): (Option<MachineAddress>, usize) = match unsigned_integer(
        tokens,
        q,
        0,
    ) {
        Some(address) => (Some(address), q + 1),
        None => (None, q),
    };
    if !is_token(tokens, end_of_head, 0, &Token::Eol) {
        return Err(end_of_head);
    }
    let (test_and_sequence_statement, past_sequence) = sequence_line(
        tokens,
        skip_eols(tokens, end_of_head + 1),
    );
    let (memory_statement, past_memory) = memory(tokens, skip_eols(tokens, past_sequence));
    let (calculation_statement, past_calculation) = calculation_line(tokens, skip_eols(tokens, past_memory));
    let (ex_statement, past_ex) = ex_line(tokens, skip_eols(tokens, past_calculation));
    let end = skip_eols(tokens, past_ex);
    Ok(
        (
            Instruction {
                label,
                address,
                test_and_sequence_statement,
                memory_statement,
                calculation_statement,
                ex_statement,
            },
            end,
        ),
    )
}

/// The values of a list of errors, in order.
pub open spec fn parse_error_views(errors: Seq<ParseError>) -> Seq<ParseErrorView> {
    Seq::new(errors.len(), |i: int| errors[i]@)
}

/// The errors that report the places `places` among the tokens.
pub open spec fn fault_views(tokens: Seq<SpannedView>, places: Seq<int>) -> Seq<ParseErrorView> {
    Seq::new(places.len(), |i: int| fault_view(tokens, places[i]))
}

/// Reads a program from its tokens. Where the tokens are a program, the
/// program is handed back and the list of errors is empty. Otherwise there is
/// no program, and the list holds one error for each place where the tokens
/// are at fault, in the order of the text: reading goes on behind a fault at
/// the next `*` or `.END`.
pub fn parse(tokens: Vec<(Token, Range<usize>)>) -> (r: (Option<Ast>, Vec<ParseError>))
    ensures
        match r.0 {
            Some(ast) => grammar::program(token_views(tokens@)) == Some(ast@),
            None => grammar::program(token_views(tokens@)) is None,
        },
        parse_error_views(r.1@) == fault_views(
            spanned_views(tokens@),
            grammar::faults(token_views(tokens@)),
        ),
{
    let ghost t = token_views(tokens@);
    let ghost spanned = spanned_views(tokens@);
    let mut errors: Vec<ParseError> = Vec::new();
    let ghost mut noted: Seq<int> = Seq::empty();
    proof {
        grammar::lemma_skip_eols(t, 0);
    }
    let opening = skip_eols(&tokens, 0);
    let named = string_at(&tokens, opening, 1);
    let (title, start): (Option<String>, usize) = if !is_directive(&tokens, opening, 0, "TITLE") {
        errors.push(fault(&tokens, opening));
        proof {
            noted = noted.push(opening as int);
        }
        (None, seek(&tokens, opening))
    } else if named.is_none() {
        errors.push(fault(&tokens, opening + 1));
        proof {
            noted = noted.push(opening + 1);
        }
        (None, seek(&tokens, opening + 1))
    } else if !is_token(&tokens, opening, 2, &Token::Eol) {
        errors.push(fault(&tokens, opening + 2));
        proof {
            noted = noted.push(opening + 2);
        }
        (None, seek(&tokens, opening + 2))
    } else {
        (Some(named.unwrap().clone()), skip_eols(&tokens, opening + 3))
    };
    assert(noted =~= grammar::one_or_none(grammar::title_fault(t)));
    assert(start == grammar::body_start(t));
    let ghost body = grammar::scan(t, start as int);
    let ghost mut seen: Seq<int> = Seq::empty();
    let mut instructions: Vec<Instruction> = Vec::new();
    let mut p = start;
    loop
        invariant
            t == token_views(tokens@),
            spanned == spanned_views(tokens@),
            p <= tokens.len(),
            body.instructions == instruction_views(instructions@) + grammar::scan(
                t,
                p as int,
            ).instructions,
            body.faults == seen + grammar::scan(t, p as int).faults,
            body.end == grammar::scan(t, p as int).end,
            noted == grammar::one_or_none(grammar::title_fault(t)) + seen,
            parse_error_views(errors@) == fault_views(spanned, noted),
        ensures
            p <= tokens.len(),
            body.instructions == instruction_views(instructions@),
            body.faults == seen,
            body.end == p,
            noted == grammar::one_or_none(grammar::title_fault(t)) + seen,
            parse_error_views(errors@) == fault_views(spanned, noted),
        decreases tokens.len() - p,
    {
        if p >= tokens.len() || is_directive(&tokens, p, 0, "END") {
            assert(instruction_views(instructions@) + Seq::<InstructionView>::empty()
                =~= instruction_views(instructions@));
            assert(seen + Seq::<int>::empty() =~= seen);
            break ;
        }
        let ghost rest = grammar::scan(t, p as int);
        match instruction(&tokens, p) {
            Ok((read, q)) => {
                let ghost before = instruction_views(instructions@);
                let ghost value = read@;
                instructions.push(read);
                proof {
                    let next = grammar::scan(t, q as int);
                    assert(instruction_views(instructions@) =~= before.push(value));
                    assert(rest.instructions == seq![value] + next.instructions);
                    assert(before + (seq![value] + next.instructions) =~= before.push(value)
                        + next.instructions);
                }
                p = q;
            },
            Err(place) => {
                let ghost before = parse_error_views(errors@);
                let error = fault(&tokens, place);
                let ghost value = error@;
                errors.push(error);
                let resume = seek(&tokens, p + 1);
                proof {
                    let next = grammar::scan(t, resume as int);
                    assert(rest.faults == seq![place as int] + next.faults);
                    assert(seen + (seq![place as int] + next.faults) =~= seen.push(place as int)
                        + next.faults);
                    assert(parse_error_views(errors@) =~= before.push(value));
                    assert(fault_views(spanned, noted.push(place as int)) =~= fault_views(
                        spanned,
                        noted,
                    ).push(value));
                    assert(noted.push(place as int) =~= grammar::one_or_none(
                        grammar::title_fault(t),
                    ) + seen.push(place as int));
                    noted = noted.push(place as int);
                    seen = seen.push(place as int);
                }
                p = resume;
            },
        }
    }
    let last: Option<usize> = if !is_directive(&tokens, p, 0, "END") {
        Some(p)
    } else if instructions.len() == 0 && errors.len() == 0 {
        Some(p)
    } else {
        let q = skip_eols(&tokens, p + 1);
        if q < tokens.len() {
            Some(q)
        } else {
            None
        }
    };
    proof {
        assert(errors@.len() == parse_error_views(errors@).len());
        assert(noted.len() == fault_views(spanned, noted).len());
        assert(instructions@.len() == instruction_views(instructions@).len());
        assert(last matches Some(place) ==> grammar::end_fault(t, body) == Some(place as int));
        assert(last is None ==> grammar::end_fault(t, body) is None);
    }
    if let Some(place) = last {
        let ghost before = parse_error_views(errors@);
        let error = fault(&tokens, place);
        let ghost value = error@;
        errors.push(error);
        proof {
            assert(parse_error_views(errors@) =~= before.push(value));
            assert(fault_views(spanned, noted.push(place as int)) =~= fault_views(
                spanned,
                noted,
            ).push(value));
            assert(noted.push(place as int) =~= grammar::faults(t));
        }
        (None, errors)
    } else {
        proof {
            assert(noted + Seq::<int>::empty() =~= noted);
            assert(noted =~= grammar::faults(t));
            assert(errors@.len() == parse_error_views(errors@).len());
        }
        if errors.len() == 0 {
            match title {
                Some(title) => (Some(Ast { title, instructions }), errors),
                None => (None, errors),
            }
        } else {
            (None, errors)
        }
    }
}

} // verus!
