//! The parse error taxonomy. Every error is fatal: the format has no
//! redundancy, so a single bad field desynchronises all later tag reads.

use vstd::prelude::*;

verus! {

/// Executable parse error.
///
/// - `TruncatedInput`: fewer bytes remain than a field declares.
/// - `MalformedTag`: a 4-byte tag is not valid text.
/// - `UnknownSection`: a well-formed tag outside the closed tag enumeration;
///   carries the offending tag bytes.
/// - `InvalidText`: a sound filename is not valid text.
/// - `BudgetUnderflow`: a nested size accounting inside a bounded section
///   would go negative.
#[derive(Debug, PartialEq, Eq)]
pub enum ParseError {
    TruncatedInput,
    MalformedTag,
    UnknownSection(Vec<u8>),
    InvalidText,
    BudgetUnderflow,
}

/// Mathematical counterpart of [`ParseError`], used by the spec-level
/// parsing functions.
pub enum ErrKind {
    TruncatedInput,
    MalformedTag,
    UnknownSection(Seq<u8>),
    InvalidText,
    BudgetUnderflow,
}

impl View for ParseError {
    type V = ErrKind;

    open spec fn view(&self) -> ErrKind {
        match self {
            ParseError::TruncatedInput => ErrKind::TruncatedInput,
            ParseError::MalformedTag => ErrKind::MalformedTag,
            ParseError::UnknownSection(t) => ErrKind::UnknownSection(t@),
            ParseError::InvalidText => ErrKind::InvalidText,
            ParseError::BudgetUnderflow => ErrKind::BudgetUnderflow,
        }
    }
}

} // verus!
