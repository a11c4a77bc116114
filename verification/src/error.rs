//! The failures that listing a page of questions can report, and the text
//! each of them shows to a client.

use vstd::prelude::*;
use vstd::string::*;

verus! {

/// Why a piece of text does not denote an index.
#[derive(Debug, Clone, Copy, PartialEq, Eq, Structural)]
pub enum IntErrorKind {
    /// The text holds no character at all.
    Empty,
    /// A character that is no decimal digit stands where a digit is expected.
    InvalidDigit,
    /// The digits denote a number above `usize::MAX`.
    PosOverflow,
}

impl IntErrorKind {
    /// The wording of each kind.
    pub open spec fn text(self) -> Seq<char> {
        match self {
            IntErrorKind::Empty => "cannot parse integer from empty string"@,
            IntErrorKind::InvalidDigit => "invalid digit found in string"@,
            IntErrorKind::PosOverflow => "number too large to fit in target type"@,
        }
    }

    /// Renders the kind as text.
    pub fn to_string(&self) -> (out: String)
        ensures
            out@ == self.text(),
    {
        match self {
            IntErrorKind::Empty => String::from_str("cannot parse integer from empty string"),
            IntErrorKind::InvalidDigit => String::from_str("invalid digit found in string"),
            IntErrorKind::PosOverflow => String::from_str("number too large to fit in target type"),
        }
    }
}

/// What can go wrong when a pagination window is read from query parameters.
#[derive(Debug, Clone, Copy, PartialEq, Eq, Structural)]
pub enum Error {
    /// `start` or `end` is present but is not an index; the payload says why.
    ParseError(IntErrorKind),
    /// `start`, `end` or both are absent.
    MissingParameters,
}

impl Error {
    /// The text shown to a client for this error.
    pub open spec fn text(self) -> Seq<char> {
        match self {
            Error::ParseError(kind) => "Cannot parse parameter: "@ + kind.text(),
            Error::MissingParameters => "Missing parameter"@,
        }
    }

    /// Renders the error as the text shown to a client.
    pub fn to_string(&self) -> (out: String)
        ensures
            out@ == self.text(),
    {
        match self {
            Error::ParseError(kind) => {
                let detail = kind.to_string();
                String::from_str("Cannot parse parameter: ").concat(detail.as_str())
            },
            Error::MissingParameters => String::from_str("Missing parameter"),
        }
    }
}

} // verus!
