use vstd::prelude::*;

verus! {

/// A failure to produce a token.
#[derive(Clone, Debug, PartialEq, Eq)]
pub enum Error {
    /// The source holds no further token: the clean end of the stream.
    Eof,
    /// A byte that starts no token, or a literal that is not a valid token;
    /// carries the offending text.
    Token(String),
}

/// The mathematical model of a lexing failure.
pub enum SpecLexError {
    Eof,
    Token(Seq<char>),
}

impl View for Error {
    type V = SpecLexError;

    open spec fn view(&self) -> SpecLexError {
        match self {
            Error::Eof => SpecLexError::Eof,
            Error::Token(s) => SpecLexError::Token(s@),
        }
    }
}

} // verus!
