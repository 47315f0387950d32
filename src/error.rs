use vstd::prelude::*;

use crate::lexer;
use crate::parser;

verus! {

/// A failure of the front end: lexing or parsing.
#[derive(Debug, PartialEq, Eq)]
pub enum Error {
    Lexing(lexer::Error),
    Parsing(parser::Error),
}

impl From<lexer::Error> for Error {
    fn from(e: lexer::Error) -> (r: Error)
        ensures
            r == Error::Lexing(e),
    {
        Error::Lexing(e)
    }
}

impl vstd::std_specs::convert::FromSpecImpl<lexer::Error> for Error {
    open spec fn obeys_from_spec() -> bool {
        true
    }

    open spec fn from_spec(e: lexer::Error) -> Error {
        Error::Lexing(e)
    }
}

impl From<parser::Error> for Error {
    fn from(e: parser::Error) -> (r: Error)
        ensures
            r == Error::Parsing(e),
    {
        Error::Parsing(e)
    }
}

impl vstd::std_specs::convert::FromSpecImpl<parser::Error> for Error {
    open spec fn obeys_from_spec() -> bool {
        true
    }

    open spec fn from_spec(e: parser::Error) -> Error {
        Error::Parsing(e)
    }
}

} // verus!
