//! The tokens of the microprogram source text.

use vstd::prelude::*;
use crate::text::str_eq;

verus! {

/// One token. Identifiers keep their text; numeric literals keep their value.
#[derive(Clone, Debug, Eq, Hash, PartialEq)]
pub enum Token {
    /// A directive: a dot followed by an identifier. The dot is not kept.
    DotString(String),
    /// An identifier: a letter followed by letters and digits.
    String(String),
    /// A bare literal, read in base 16.
    Hexadecimal(u16),
    /// `D"` followed by decimal digits.
    Decimal(u16),
    /// `B"` followed by binary digits.
    Binary(u16),
    Star,
    Plus,
    Minus,
    Dollar,
    At,
    ColonEqual,
    Colon,
    Equal,
    /// A line feed, together with the comment in front of it if there is one.
    Eol,
    /// Text that is no token, or a literal that does not fit in 16 bits.
    Error,
}

/// The mathematical value of a [`Token`].
pub enum TokenView {
    DotString(Seq<char>),
    String(Seq<char>),
    Hexadecimal(u16),
    Decimal(u16),
    Binary(u16),
    Star,
    Plus,
    Minus,
    Dollar,
    At,
    ColonEqual,
    Colon,
    Equal,
    Eol,
    Error,
}

impl View for Token {
    type V = TokenView;

    open spec fn view(&self) -> TokenView {
        match self {
            Token::DotString(s) => TokenView::DotString(s@),
            Token::String(s) => TokenView::String(s@),
            Token::Hexadecimal(n) => TokenView::Hexadecimal(*n),
            Token::Decimal(n) => TokenView::Decimal(*n),
            Token::Binary(n) => TokenView::Binary(*n),
            Token::Star => TokenView::Star,
            Token::Plus => TokenView::Plus,
            Token::Minus => TokenView::Minus,
            Token::Dollar => TokenView::Dollar,
            Token::At => TokenView::At,
            Token::ColonEqual => TokenView::ColonEqual,
            Token::Colon => TokenView::Colon,
            Token::Equal => TokenView::Equal,
            Token::Eol => TokenView::Eol,
            Token::Error => TokenView::Error,
        }
    }
}

impl Token {
    /// A copy of the token.
    pub fn duplicate(&self) -> (r: Token)
        ensures
            r@ == self@,
    {
        match self {
            Token::DotString(s) => Token::DotString(s.clone()),
            Token::String(s) => Token::String(s.clone()),
            Token::Hexadecimal(n) => Token::Hexadecimal(*n),
            Token::Decimal(n) => Token::Decimal(*n),
            Token::Binary(n) => Token::Binary(*n),
            Token::Star => Token::Star,
            Token::Plus => Token::Plus,
            Token::Minus => Token::Minus,
            Token::Dollar => Token::Dollar,
            Token::At => Token::At,
            Token::ColonEqual => Token::ColonEqual,
            Token::Colon => Token::Colon,
            Token::Equal => Token::Equal,
            Token::Eol => Token::Eol,
            Token::Error => Token::Error,
        }
    }

    /// Whether two tokens are of the same kind and carry the same text or value.
    pub fn same(&self, other: &Token) -> (r: bool)
        ensures
            r == (self@ == other@),
    {
        match (self, other) {
            (Token::DotString(a), Token::DotString(b)) => str_eq(a.as_str(), b.as_str()),
            (Token::String(a), Token::String(b)) => str_eq(a.as_str(), b.as_str()),
            (Token::Hexadecimal(a), Token::Hexadecimal(b)) => *a == *b,
            (Token::Decimal(a), Token::Decimal(b)) => *a == *b,
            (Token::Binary(a), Token::Binary(b)) => *a == *b,
            (Token::Star, Token::Star) => true,
            (Token::Plus, Token::Plus) => true,
            (Token::Minus, Token::Minus) => true,
            (Token::Dollar, Token::Dollar) => true,
            (Token::At, Token::At) => true,
            (Token::ColonEqual, Token::ColonEqual) => true,
            (Token::Colon, Token::Colon) => true,
            (Token::Equal, Token::Equal) => true,
            (Token::Eol, Token::Eol) => true,
            (Token::Error, Token::Error) => true,
            _ => false,
        }
    }
}

} // verus!
