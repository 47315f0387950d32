//! Front end of a small expression language: a lexer that turns source bytes
//! into tokens, and a Pratt parser that turns tokens into a program tree.

pub mod error;
pub mod lexer;
pub mod parser;

pub use error::Error;
