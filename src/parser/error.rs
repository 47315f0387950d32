use vstd::prelude::*;

use crate::lexer::{SpecToken, Token};

verus! {

/// A failure to parse a token sequence.
#[derive(Debug, PartialEq, Eq)]
pub enum Error {
    /// A grammar position required a token of the kind of `expected` and
    /// found `got`.
    ExpectedToken { expected: Token, got: Token },
    /// An expression was required and `got` cannot begin one.
    UnexpectedToken { got: Token },
    /// A grammar position required a token and the sequence was exhausted.
    EOF,
}

/// The mathematical model of a parse failure.
pub enum SpecParseError {
    ExpectedToken { expected: SpecToken, got: SpecToken },
    UnexpectedToken { got: SpecToken },
    EOF,
}

impl View for Error {
    type V = SpecParseError;

    open spec fn view(&self) -> SpecParseError {
        match self {
            Error::ExpectedToken { expected, got } => SpecParseError::ExpectedToken {
                expected: expected@,
                got: got@,
            },
            Error::UnexpectedToken { got } => SpecParseError::UnexpectedToken { got: got@ },
            Error::EOF => SpecParseError::EOF,
        }
    }
}

} // verus!
