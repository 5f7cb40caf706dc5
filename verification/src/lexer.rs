//! The tokenizer: from the bytes of the source text to tokens with their
//! places.
//!
//! Blanks (space, tab, carriage return, form feed) separate tokens and are
//! dropped. At any other byte the longest token that starts there is taken:
//!
//! - a dot and an identifier: a directive;
//! - `D"` and a decimal number without leading zeros, `B"` and binary digits;
//! - a letter followed by letters and digits: an identifier;
//! - a digit followed by hexadecimal digits: a hexadecimal number;
//! - `*`, `+`, `-`, `$`, `@`, `:=`, `:`, `=`;
//! - a line feed, or a comment from `;` up to a carriage return with the line
//!   feed that follows it: the end of a line.
//!
//! A number that does not fit in 16 bits is an error token of the same
//! extent. A dot without an identifier and a character that starts no token
//! are error tokens of one character. A comment that no carriage return and
//! line feed end is an error token that reaches to the carriage return, or to
//! the end of the text.

use vstd::prelude::*;
use vstd::slice::*;
use vstd::string::StringSliceAdditionalSpecFns;
use core::ops::Range;
use crate::text::ascii_chars;
use crate::token::{Token, TokenView};

verus! {

/// `@`.
pub const AT: u8 = 0x40;

/// `:`.
pub const COLON: u8 = 0x3A;

/// Carriage return.
pub const CR: u8 = 0x0D;

/// `$`.
pub const DOLLAR: u8 = 0x24;

/// `.`.
pub const DOT: u8 = 0x2E;

/// `=`.
pub const EQUAL: u8 = 0x3D;

/// Form feed.
pub const FF: u8 = 0x0C;

/// Line feed.
pub const LF: u8 = 0x0A;

/// `a`.
pub const LOWER_A: u8 = 0x61;

/// `f`.
pub const LOWER_F: u8 = 0x66;

/// `z`.
pub const LOWER_Z: u8 = 0x7A;

/// `-`.
pub const MINUS: u8 = 0x2D;

/// `9`.
pub const NINE: u8 = 0x39;

/// `1`.
pub const ONE: u8 = 0x31;

/// `+`.
pub const PLUS: u8 = 0x2B;

/// `"`.
pub const QUOTE: u8 = 0x22;

/// `;`.
pub const SEMICOLON: u8 = 0x3B;

/// Space.
pub const SPACE: u8 = 0x20;

/// `*`.
pub const STAR: u8 = 0x2A;

/// Tab.
pub const TAB: u8 = 0x09;

/// `A`.
pub const UPPER_A: u8 = 0x41;

/// `B`.
pub const UPPER_B: u8 = 0x42;

/// `D`.
pub const UPPER_D: u8 = 0x44;

/// `F`.
pub const UPPER_F: u8 = 0x46;

/// `Z`.
pub const UPPER_Z: u8 = 0x5A;

/// `0`.
pub const ZERO: u8 = 0x30;

/// The classes of bytes that a token may run over.
#[derive(Clone, Copy, Debug, PartialEq, Eq, Structural)]
pub enum Class {
    /// Space, tab, carriage return, form feed.
    Blank,
    /// Letters and decimal digits.
    Alphanumeric,
    /// Decimal digits.
    Decimal,
    /// Hexadecimal digits, in either case.
    Hexadecimal,
    /// `0` and `1`.
    Binary,
    /// Anything but a carriage return.
    Comment,
    /// The bytes `0x80` to `0xBF`, which continue a character in UTF-8.
    Continuation,
}

/// The byte is a letter of either case.
pub open spec fn is_letter(b: u8) -> bool {
    (UPPER_A <= b <= UPPER_Z) || (LOWER_A <= b <= LOWER_Z)
}

/// The byte is a decimal digit.
pub open spec fn is_digit(b: u8) -> bool {
    ZERO <= b <= NINE
}

impl Class {
    /// The byte belongs to the class.
    pub open spec fn holds(self, b: u8) -> bool {
        match self {
            Class::Blank => b == SPACE || b == CR || b == TAB || b == FF,
            Class::Alphanumeric => is_letter(b) || is_digit(b),
            Class::Decimal => is_digit(b),
            Class::Hexadecimal => is_digit(b) || (UPPER_A <= b <= UPPER_F) || (LOWER_A <= b <= LOWER_F),
            Class::Binary => b == ZERO || b == ONE,
            Class::Comment => b != CR,
            Class::Continuation => 0x80 <= b <= 0xBF,
        }
    }

    /// Whether the byte belongs to the class.
    #[verifier::when_used_as_spec(holds)]
    pub fn test(self, b: u8) -> (r: bool)
        ensures
            r == self.holds(b),
    {
        match self {
            Class::Blank => b == SPACE || b == CR || b == TAB || b == FF,
            Class::Alphanumeric => (UPPER_A <= b && b <= UPPER_Z) || (LOWER_A <= b && b <= LOWER_Z) || (ZERO
                <= b && b <= NINE),
            Class::Decimal => ZERO <= b && b <= NINE,
            Class::Hexadecimal => (ZERO <= b && b <= NINE) || (UPPER_A <= b && b <= UPPER_F) || (LOWER_A
                <= b && b <= LOWER_F),
            Class::Binary => b == ZERO || b == ONE,
            Class::Comment => b != CR,
            Class::Continuation => 0x80 <= b && b <= 0xBF,
        }
    }
}

/// Where the run of bytes of class `class` that starts at `start` ends: the
/// first place from `start` on that holds no byte of the class.
pub open spec fn run_end(bytes: Seq<u8>, start: int, class: Class) -> int
    decreases bytes.len() - start,
{
    if 0 <= start < bytes.len() && class.holds(bytes[start]) {
        run_end(bytes, start + 1, class)
    } else {
        start
    }
}

/// A run ends at or behind its start and within the text.
pub proof fn lemma_run_end(bytes: Seq<u8>, start: int, class: Class)
    requires
        0 <= start <= bytes.len(),
    ensures
        start <= run_end(bytes, start, class) <= bytes.len(),
    decreases bytes.len() - start,
{
    if start < bytes.len() && class.holds(bytes[start]) {
        lemma_run_end(bytes, start + 1, class);
    }
}

/// The value of a digit in any of the three bases; 0 for any other byte.
pub open spec fn digit_value(b: u8) -> nat {
    if ZERO <= b <= NINE {
        (b - ZERO) as nat
    } else if UPPER_A <= b <= UPPER_F {
        (b - UPPER_A + 10) as nat
    } else if LOWER_A <= b <= LOWER_F {
        (b - LOWER_A + 10) as nat
    } else {
        0
    }
}

/// The number that the digits stand for in base `radix`.
pub open spec fn radix_value(digits: Seq<u8>, radix: nat) -> nat
    decreases digits.len(),
{
    if digits.len() == 0 {
        0
    } else {
        radix_value(digits.drop_last(), radix) * radix + digit_value(digits.last())
    }
}

/// The token that a number gives: it carries the value where that fits in
/// 16 bits, and is an error otherwise.
pub open spec fn number_token(kind: Class, value: nat) -> TokenView {
    if value > 0xFFFF {
        TokenView::Error
    } else {
        match kind {
            Class::Decimal => TokenView::Decimal(value as u16),
            Class::Binary => TokenView::Binary(value as u16),
            _ => TokenView::Hexadecimal(value as u16),
        }
    }
}

/// The byte at `i`, or 0 behind the end of the text. No token holds a 0.
pub open spec fn byte_at(bytes: Seq<u8>, i: int) -> u8 {
    if 0 <= i < bytes.len() {
        bytes[i]
    } else {
        0
    }
}

/// The token that starts at `start`, where a byte stands that is no blank,
/// and the place where it ends.
pub open spec fn token_at(bytes: Seq<u8>, start: int) -> (TokenView, int) {
    let first = byte_at(bytes, start);
    let second = byte_at(bytes, start + 1);
    let third = byte_at(bytes, start + 2);
    if first == DOT {
        if is_letter(second) {
            let end = run_end(bytes, start + 2, Class::Alphanumeric);
            (TokenView::DotString(ascii_chars(bytes.subrange(start + 1, end))), end)
        } else {
            (TokenView::Error, start + 1)
        }
    } else if first == UPPER_D && second == QUOTE && is_digit(third) {
        let end = if third == ZERO {
            start + 3
        } else {
            run_end(bytes, start + 3, Class::Decimal)
        };
        (number_token(Class::Decimal, radix_value(bytes.subrange(start + 2, end), 10)), end)
    } else if first == UPPER_B && second == QUOTE && Class::Binary.holds(third) {
        let end = run_end(bytes, start + 3, Class::Binary);
        (number_token(Class::Binary, radix_value(bytes.subrange(start + 2, end), 2)), end)
    } else if is_letter(first) {
        let end = run_end(bytes, start + 1, Class::Alphanumeric);
        (TokenView::String(ascii_chars(bytes.subrange(start, end))), end)
    } else if is_digit(first) {
        let end = run_end(bytes, start + 1, Class::Hexadecimal);
        (number_token(Class::Hexadecimal, radix_value(bytes.subrange(start, end), 16)), end)
    } else if first == STAR {
        (TokenView::Star, start + 1)
    } else if first == PLUS {
        (TokenView::Plus, start + 1)
    } else if first == MINUS {
        (TokenView::Minus, start + 1)
    } else if first == DOLLAR {
        (TokenView::Dollar, start + 1)
    } else if first == AT {
        (TokenView::At, start + 1)
    } else if first == COLON {
        if second == EQUAL {
            (TokenView::ColonEqual, start + 2)
        } else {
            (TokenView::Colon, start + 1)
        }
    } else if first == EQUAL {
        (TokenView::Equal, start + 1)
    } else if first == LF {
        (TokenView::Eol, start + 1)
    } else if first == SEMICOLON {
        let end = run_end(bytes, start + 1, Class::Comment);
        if byte_at(bytes, end) == CR && byte_at(bytes, end + 1) == LF {
            (TokenView::Eol, end + 2)
        } else {
            (TokenView::Error, end)
        }
    } else {
        (TokenView::Error, run_end(bytes, start + 1, Class::Continuation))
    }
}

/// A token is not empty and ends within the text.
pub proof fn lemma_token_at(bytes: Seq<u8>, start: int)
    requires
        0 <= start < bytes.len(),
    ensures
        start < token_at(bytes, start).1 <= bytes.len(),
{
    lemma_run_end(bytes, start + 1, Class::Alphanumeric);
    lemma_run_end(bytes, start + 1, Class::Hexadecimal);
    lemma_run_end(bytes, start + 1, Class::Comment);
    lemma_run_end(bytes, start + 1, Class::Continuation);
    if start + 2 <= bytes.len() {
        lemma_run_end(bytes, start + 2, Class::Alphanumeric);
    }
    if start + 3 <= bytes.len() {
        lemma_run_end(bytes, start + 3, Class::Decimal);
        lemma_run_end(bytes, start + 3, Class::Binary);
    }
}

/// A token with its place: the token, the offset of its first byte and the
/// offset behind its last byte.
pub struct SpannedView {
    pub token: TokenView,
    pub start: int,
    pub end: int,
}

/// The tokens of the text from the offset `from` on.
pub open spec fn tokens_from(bytes: Seq<u8>, from: int) -> Seq<SpannedView>
    decreases bytes.len() - from,
    via tokens_from_decreases
{
    let start = run_end(bytes, from, Class::Blank);
    if 0 <= from <= start < bytes.len() {
        let (token, end) = token_at(bytes, start);
        seq![SpannedView { token, start, end }] + tokens_from(bytes, end)
    } else {
        Seq::empty()
    }
}

#[via_fn]
proof fn tokens_from_decreases(bytes: Seq<u8>, from: int) {
    let start = run_end(bytes, from, Class::Blank);
    if 0 <= from <= start < bytes.len() {
        lemma_token_at(bytes, start);
    }
}

/// The tokens of a text stand in the order of the text: each takes at least
/// one byte of it, and none starts before the one in front of it has ended.
pub proof fn lemma_tokens_in_order(bytes: Seq<u8>, from: int)
    requires
        0 <= from <= bytes.len(),
    ensures
        forall|i: int|
            0 <= i < tokens_from(bytes, from).len() ==> from <= (#[trigger] tokens_from(
                bytes,
                from,
            )[i]).start < tokens_from(bytes, from)[i].end <= bytes.len(),
        forall|i: int, j: int|
            0 <= i < j < tokens_from(bytes, from).len() ==> (#[trigger] tokens_from(
                bytes,
                from,
            )[i]).end <= (#[trigger] tokens_from(bytes, from)[j]).start,
    decreases bytes.len() - from,
{
    let start = run_end(bytes, from, Class::Blank);
    lemma_run_end(bytes, from, Class::Blank);
    if start < bytes.len() {
        lemma_token_at(bytes, start);
        let (token, end) = token_at(bytes, start);
        let first = SpannedView { token, start, end };
        let rest = tokens_from(bytes, end);
        lemma_tokens_in_order(bytes, end);
        assert(tokens_from(bytes, from) == seq![first] + rest);
        assert forall|i: int| 0 <= i < tokens_from(bytes, from).len() implies from <= (
        #[trigger] tokens_from(bytes, from)[i]).start < tokens_from(bytes, from)[i].end
            <= bytes.len() by {
            if i > 0 {
                assert(tokens_from(bytes, from)[i] == rest[i - 1]);
            }
        }
        assert forall|i: int, j: int| 0 <= i < j < tokens_from(bytes, from).len() implies (
        #[trigger] tokens_from(bytes, from)[i]).end <= (#[trigger] tokens_from(
            bytes,
            from,
        )[j]).start by {
            assert(tokens_from(bytes, from)[j] == rest[j - 1]);
            if i > 0 {
                assert(tokens_from(bytes, from)[i] == rest[i - 1]);
            }
        }
    }
}

/// The values of a list of tokens with their places.
pub open spec fn spanned_views(tokens: Seq<(Token, Range<usize>)>) -> Seq<SpannedView> {
    Seq::new(
        tokens.len(),
        |i: int|
            SpannedView {
                token: tokens[i].0@,
                start: tokens[i].1.start as int,
                end: tokens[i].1.end as int,
            },
    )
}

fn scan(bytes: &[u8], start: usize, class: Class) -> (end: usize)
    requires
        start <= bytes@.len(),
    ensures
        end == run_end(bytes@, start as int, class),
        start <= end <= bytes@.len(),
{
    let mut end = start;
    while end < bytes.len() && class.test(bytes[end])
        invariant
            start <= end <= bytes@.len(),
            run_end(bytes@, end as int, class) == run_end(bytes@, start as int, class),
        decreases bytes@.len() - end,
    {
        end += 1;
    }
    end
}

fn peek(bytes: &[u8], i: usize) -> (b: u8)
    ensures
        b == byte_at(bytes@, i as int),
{
    if i < bytes.len() {
        bytes[i]
    } else {
        0
    }
}

fn text(bytes: &[u8], from: usize, to: usize) -> (r: String)
    requires
        from <= to <= bytes@.len(),
    ensures
        r@ == ascii_chars(bytes@.subrange(from as int, to as int)),
{
    let mut r = String::new();
    let mut i = from;
    while i < to
        invariant
            from <= i <= to <= bytes@.len(),
            r@ == ascii_chars(bytes@.subrange(from as int, i as int)),
        decreases to - i,
    {
        r.push(bytes[i] as char);
        assert(r@ =~= ascii_chars(bytes@.subrange(from as int, i + 1)));
        i += 1;
    }
    r
}

proof fn lemma_value_grows(value: nat, radix: nat, digit: nat)
    by (nonlinear_arith)
    requires
        radix >= 1,
    ensures
        value * radix + digit >= value,
{
}

proof fn lemma_value_bound(value: nat, radix: nat, digit: nat)
    by (nonlinear_arith)
    requires
        value <= 0xFFFF,
        radix <= 16,
        digit <= 15,
    ensures
        value * radix + digit <= 0xFFFF * 16 + 15,
{
}

/// The number that the digits from `from` up to `to` stand for in base
/// `radix`, if it fits in 16 bits.
pub(crate) fn number(bytes: &[u8], from: usize, to: usize, radix: u32) -> (r: Option<u16>)
    requires
        from <= to <= bytes@.len(),
        1 <= radix <= 16,
    ensures
        r == if radix_value(bytes@.subrange(from as int, to as int), radix as nat) <= 0xFFFF {
            Some(radix_value(bytes@.subrange(from as int, to as int), radix as nat) as u16)
        } else {
            None
        },
{
    let mut value: u32 = 0;
    let mut fits = true;
    let mut i = from;
    while i < to
        invariant
            from <= i <= to <= bytes@.len(),
            1 <= radix <= 16,
            value <= 0xFFFF,
            fits ==> value == radix_value(bytes@.subrange(from as int, i as int), radix as nat),
            !fits ==> radix_value(bytes@.subrange(from as int, i as int), radix as nat) > 0xFFFF,
        decreases to - i,
    {
        let b = bytes[i];
        let digit: u32 = if ZERO <= b && b <= NINE {
            (b - ZERO) as u32
        } else if UPPER_A <= b && b <= UPPER_F {
            (b - UPPER_A) as u32 + 10
        } else if LOWER_A <= b && b <= LOWER_F {
            (b - LOWER_A) as u32 + 10
        } else {
            0
        };
        proof {
            let before = bytes@.subrange(from as int, i as int);
            let after = bytes@.subrange(from as int, i + 1);
            assert(after.drop_last() =~= before);
            assert(after.last() == b);
            assert(digit == digit_value(b));
            lemma_value_grows(radix_value(before, radix as nat), radix as nat, digit as nat);
            lemma_value_bound(value as nat, radix as nat, digit as nat);
        }
        if fits {
            let next = value * radix + digit;
            if next > 0xFFFF {
                fits = false;
            } else {
                value = next;
            }
        }
        i += 1;
    }
    if fits {
        Some(value as u16)
    } else {
        None
    }
}

fn next_token(bytes: &[u8], start: usize) -> (r: (Token, usize))
    requires
        start < bytes@.len(),
    ensures
        (r.0@, r.1 as int) == token_at(bytes@, start as int),
        start < r.1 <= bytes@.len(),
{
    proof {
        lemma_token_at(bytes@, start as int);
    }
    let first = bytes[start];
    let second = if start < usize::MAX {
        peek(bytes, start + 1)
    } else {
        0
    };
    let third = if start < usize::MAX - 1 {
        peek(bytes, start + 2)
    } else {
        0
    };
    let letter = (UPPER_A <= first && first <= UPPER_Z) || (LOWER_A <= first && first <= LOWER_Z);
    if first == DOT {
        if (UPPER_A <= second && second <= UPPER_Z) || (LOWER_A <= second && second <= LOWER_Z) {
            let end = scan(bytes, start + 2, Class::Alphanumeric);
            (Token::DotString(text(bytes, start + 1, end)), end)
        } else {
            (Token::Error, start + 1)
        }
    } else if first == UPPER_D && second == QUOTE && ZERO <= third && third <= NINE {
        let end = if third == ZERO {
            start + 3
        } else {
            scan(bytes, start + 3, Class::Decimal)
        };
        match number(bytes, start + 2, end, 10) {
            Some(value) => (Token::Decimal(value), end),
            None => (Token::Error, end),
        }
    } else if first == UPPER_B && second == QUOTE && (third == ZERO || third == ONE) {
        let end = scan(bytes, start + 3, Class::Binary);
        match number(bytes, start + 2, end, 2) {
            Some(value) => (Token::Binary(value), end),
            None => (Token::Error, end),
        }
    } else if letter {
        let end = scan(bytes, start + 1, Class::Alphanumeric);
        (Token::String(text(bytes, start, end)), end)
    } else if ZERO <= first && first <= NINE {
        let end = scan(bytes, start + 1, Class::Hexadecimal);
        match number(bytes, start, end, 16) {
            Some(value) => (Token::Hexadecimal(value), end),
            None => (Token::Error, end),
        }
    } else if first == STAR {
        (Token::Star, start + 1)
    } else if first == PLUS {
        (Token::Plus, start + 1)
    } else if first == MINUS {
        (Token::Minus, start + 1)
    } else if first == DOLLAR {
        (Token::Dollar, start + 1)
    } else if first == AT {
        (Token::At, start + 1)
    } else if first == COLON {
        if second == EQUAL {
            (Token::ColonEqual, start + 2)
        } else {
            (Token::Colon, start + 1)
        }
    } else if first == EQUAL {
        (Token::Equal, start + 1)
    } else if first == LF {
        (Token::Eol, start + 1)
    } else if first == SEMICOLON {
        let end = scan(bytes, start + 1, Class::Comment);
        if peek(bytes, end) == CR && end < usize::MAX && peek(bytes, end + 1) == LF {
            (Token::Eol, end + 2)
        } else {
            (Token::Error, end)
        }
    } else {
        (Token::Error, scan(bytes, start + 1, Class::Continuation))
    }
}

/// Splits the bytes of a text into tokens, each with the range of offsets
/// that it takes.
pub fn tokenize_bytes(bytes: &[u8]) -> (tokens: Vec<(Token, Range<usize>)>)
    ensures
        spanned_views(tokens@) == tokens_from(bytes@, 0),
{
    let mut tokens: Vec<(Token, Range<usize>)> = Vec::new();
    let mut from: usize = 0;
    loop
        invariant
            from <= bytes@.len(),
            tokens_from(bytes@, 0) == spanned_views(tokens@) + tokens_from(bytes@, from as int),
        ensures
            spanned_views(tokens@) == tokens_from(bytes@, 0),
        decreases bytes@.len() - from,
    {
        let start = scan(bytes, from, Class::Blank);
        if start >= bytes.len() {
            assert(tokens_from(bytes@, from as int) =~= Seq::<SpannedView>::empty());
            assert(spanned_views(tokens@) + Seq::<SpannedView>::empty() =~= spanned_views(
                tokens@,
            ));
            break ;
        }
        let (token, end) = next_token(bytes, start);
        let ghost before = spanned_views(tokens@);
        let ghost this = SpannedView { token: token@, start: start as int, end: end as int };
        tokens.push((token, start..end));
        proof {
            assert(spanned_views(tokens@) =~= before + seq![this]);
            assert(tokens_from(bytes@, from as int) == seq![this] + tokens_from(
                bytes@,
                end as int,
            ));
            assert(before + (seq![this] + tokens_from(bytes@, end as int)) =~= (before
                + seq![this]) + tokens_from(bytes@, end as int));
        }
        from = end;
    }
    tokens
}

/// Splits a source text into tokens, each with the range of byte offsets
/// that it takes in the text.
pub fn tokenize(input: &str) -> (tokens: Vec<(Token, Range<usize>)>)
    ensures
        spanned_views(tokens@) == tokens_from(input.spec_bytes(), 0),
{
    tokenize_bytes(input.as_bytes())
}

/// The tokens of a list of tokens with their places.
pub open spec fn token_parts(tokens: Seq<SpannedView>) -> Seq<TokenView> {
    Seq::new(tokens.len(), |i: int| tokens[i].token)
}

/// The places of the error tokens of a list, in order.
pub open spec fn error_spans(tokens: Seq<SpannedView>) -> Seq<(int, int)>
    decreases tokens.len(),
{
    if tokens.len() == 0 {
        Seq::empty()
    } else if tokens.last().token == TokenView::Error {
        error_spans(tokens.drop_last()).push((tokens.last().start, tokens.last().end))
    } else {
        error_spans(tokens.drop_last())
    }
}

/// The ends of a list of ranges, in order.
pub open spec fn span_views(spans: Seq<Range<usize>>) -> Seq<(int, int)> {
    Seq::new(spans.len(), |i: int| (spans[i].start as int, spans[i].end as int))
}

/// Collects the ranges of the error tokens, in order.
pub fn lex_errors(tokens: &Vec<(Token, Range<usize>)>) -> (spans: Vec<Range<usize>>)
    ensures
        span_views(spans@) == error_spans(spanned_views(tokens@)),
{
    let ghost views = spanned_views(tokens@);
    let mut spans: Vec<Range<usize>> = Vec::new();
    let mut index: usize = 0;
    while index < tokens.len()
        invariant
            index <= tokens.len(),
            views == spanned_views(tokens@),
            span_views(spans@) == error_spans(views.take(index as int)),
        decreases tokens.len() - index,
    {
        proof {
            assert(views.take(index + 1).drop_last() =~= views.take(index as int));
            assert(views.take(index + 1).last() == views[index as int]);
        }
        let ghost before = span_views(spans@);
        if let Token::Error = &tokens[index].0 {
            spans.push(tokens[index].1.start..tokens[index].1.end);
            assert(span_views(spans@) =~= before.push(
                (tokens[index as int].1.start as int, tokens[index as int].1.end as int),
            ));
        }
        index += 1;
    }
    assert(views.take(index as int) =~= views);
    spans
}

} // verus!
