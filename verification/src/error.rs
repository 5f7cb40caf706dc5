//! The ways in which assembling a microprogram can fail.

use vstd::prelude::*;
use core::ops::Range;
use crate::lexer::span_views;
use crate::parser::{ParseError, ParseErrorView, parse_error_views};

verus! {

/// Why a microprogram could not be assembled.
#[derive(Debug, Eq, PartialEq)]
pub enum AsmError {
    /// The text holds what is no token: the ranges of all such places.
    Lex(Vec<Range<usize>>),
    /// The tokens are no program: all the places where they are at fault.
    Parse(Vec<ParseError>),
    /// A pinned address breaks the alignment that a dispatch to its label needs.
    BadAlignment,
    /// An instruction would lie beyond the last ROM address, `0xFFF`.
    AddressOutOfRange,
    /// An instruction reached code generation without an address.
    MissingAddress,
    /// A sequence field names a label that no instruction defines.
    UnresolvedLabel(String),
    /// The fields of an instruction cannot share one word.
    IllegalEncoding,
}

/// The mathematical value of an [`AsmError`].
pub enum AsmErrorView {
    Lex(Seq<(int, int)>),
    Parse(Seq<ParseErrorView>),
    BadAlignment,
    AddressOutOfRange,
    MissingAddress,
    UnresolvedLabel(Seq<char>),
    IllegalEncoding,
}

impl View for AsmError {
    type V = AsmErrorView;

    open spec fn view(&self) -> AsmErrorView {
        match self {
            AsmError::Lex(spans) => AsmErrorView::Lex(span_views(spans@)),
            AsmError::Parse(errors) => AsmErrorView::Parse(parse_error_views(errors@)),
            AsmError::BadAlignment => AsmErrorView::BadAlignment,
            AsmError::AddressOutOfRange => AsmErrorView::AddressOutOfRange,
            AsmError::MissingAddress => AsmErrorView::MissingAddress,
            AsmError::UnresolvedLabel(name) => AsmErrorView::UnresolvedLabel(name@),
            AsmError::IllegalEncoding => AsmErrorView::IllegalEncoding,
        }
    }
}

} // verus!
