//! The error type of every fallible operation of the library.
use vstd::prelude::*;

verus! {

/// Why text did not parse as an integer (the kinds of `std::num::IntErrorKind`
/// that decimal parsing can produce).
#[derive(Debug, Clone, Copy, PartialEq, Eq, Structural)]
pub enum IntErrorKind {
    /// The text is empty.
    Empty,
    /// A character is not a decimal digit (a lone sign counts as one).
    InvalidDigit,
    /// The value is above the type's maximum.
    PosOverflow,
    /// The value is below the type's minimum.
    NegOverflow,
}

/// The underlying failure behind [`TopikError::Encoding`].
#[derive(Debug, Clone, Copy, PartialEq, Eq, Structural)]
pub enum EncodingFailure {
    /// The payload bytes are not valid UTF-8.
    InvalidUtf8,
    /// The payload text is not an integer of the payload type.
    InvalidInteger(IntErrorKind),
    /// The payload text is not a floating-point number.
    InvalidFloat,
}

/// Errors of topic parsing and payload encoding.
#[derive(Debug, PartialEq, Eq)]
pub enum TopikError {
    /// A segment (or the whole topic) could not be parsed.
    ParseError { topic: String, reason: String },
    /// The topic has fewer segments than the topic definition.
    MissingSegment { position: usize, topic: String },
    /// A literal segment differs from the topic definition.
    LiteralMismatch { position: usize, expected: String, got: String },
    /// A payload could not be decoded; wraps the underlying failure.
    Encoding(EncodingFailure),
    /// A payload could not be decoded, with a message and no underlying error.
    EncodingMessage(String),
}

/// The mathematical value of a [`TopikError`]: its strings as character
/// sequences.
pub enum ErrorView {
    ParseError { topic: Seq<char>, reason: Seq<char> },
    MissingSegment { position: nat, topic: Seq<char> },
    LiteralMismatch { position: nat, expected: Seq<char>, got: Seq<char> },
    Encoding(EncodingFailure),
    EncodingMessage(Seq<char>),
}

impl View for TopikError {
    type V = ErrorView;

    open spec fn view(&self) -> ErrorView {
        match self {
            TopikError::ParseError { topic, reason } => ErrorView::ParseError {
                topic: topic@,
                reason: reason@,
            },
            TopikError::MissingSegment { position, topic } => ErrorView::MissingSegment {
                position: *position as nat,
                topic: topic@,
            },
            TopikError::LiteralMismatch { position, expected, got } => ErrorView::LiteralMismatch {
                position: *position as nat,
                expected: expected@,
                got: got@,
            },
            TopikError::Encoding(f) => ErrorView::Encoding(*f),
            TopikError::EncodingMessage(m) => ErrorView::EncodingMessage(m@),
        }
    }
}

} // verus!
