//! The errors a parse can return. Every failure names the offending field or
//! element, so a caller can log it and close the connection.

use vstd::prelude::*;

verus! {

/// Why a parse failed.
#[derive(Debug, PartialEq, Eq)]
pub enum CodecError {
    /// A mandatory attribute was absent; carries the attribute's literal key.
    MissingAttribute(String),
    /// The root element had the wrong name; carries (expected, found).
    UnexpectedElement(String, String),
    /// An element that may appear once appeared again; carries its name.
    DuplicateElement(String),
    /// A child element stood before its parent's opening tag; carries the
    /// child's name.
    SequencingError(String),
    /// The reply to a starttls request had an unrecognized root.
    InvalidResponse,
    /// No recognizable structure: a malformed tag, or no element at all.
    ParseFailure,
}

/// Mathematical model of a `CodecError`.
#[verifier::ext_equal]
pub enum SpecError {
    MissingAttribute(Seq<char>),
    UnexpectedElement(Seq<char>, Seq<char>),
    DuplicateElement(Seq<char>),
    SequencingError(Seq<char>),
    InvalidResponse,
    ParseFailure,
}

impl View for CodecError {
    type V = SpecError;

    open spec fn view(&self) -> SpecError {
        match self {
            CodecError::MissingAttribute(k) => SpecError::MissingAttribute(k@),
            CodecError::UnexpectedElement(e, f) => SpecError::UnexpectedElement(e@, f@),
            CodecError::DuplicateElement(n) => SpecError::DuplicateElement(n@),
            CodecError::SequencingError(n) => SpecError::SequencingError(n@),
            CodecError::InvalidResponse => SpecError::InvalidResponse,
            CodecError::ParseFailure => SpecError::ParseFailure,
        }
    }
}

} // verus!
