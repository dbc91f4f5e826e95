//! The ways in which parsing and emission fail.

use crate::token::{token_views, SpecToken, Token};
use vstd::prelude::*;

verus! {

/// A failure of the parser or of the emitter. The first failure ends the compilation.
#[derive(Debug, PartialEq)]
pub enum Error {
    /// A token that cannot stand where it was found. `expected` lists what could have stood
    /// there and `tokens` holds what followed the offending token.
    UnexpectedToken { wanted: &'static str, expected: Vec<Token>, found: Token, tokens: Vec<Token> },
    /// A construct that is malformed as a whole, such as an assignment to something other
    /// than a variable.
    InvalidSyntax,
    /// The tokens ran out where more were required.
    UnexpectedEnd { wanted: &'static str },
    /// A name was declared a second time.
    DuplicateDeclaration { var: String },
    /// A name was read or assigned before its declaration.
    UndeclaredVariable { var: String },
}

/// The view of an [`Error`].
pub enum SpecError {
    UnexpectedToken {
        wanted: Seq<char>,
        expected: Seq<SpecToken>,
        found: SpecToken,
        tokens: Seq<SpecToken>,
    },
    InvalidSyntax,
    UnexpectedEnd { wanted: Seq<char> },
    DuplicateDeclaration { var: Seq<char> },
    UndeclaredVariable { var: Seq<char> },
}

impl View for Error {
    type V = SpecError;

    open spec fn view(&self) -> SpecError {
        match *self {
            Error::UnexpectedToken { wanted, expected, found, tokens } => SpecError::UnexpectedToken {
                wanted: wanted@,
                expected: token_views(expected@),
                found: found@,
                tokens: token_views(tokens@),
            },
            Error::InvalidSyntax => SpecError::InvalidSyntax,
            Error::UnexpectedEnd { wanted } => SpecError::UnexpectedEnd { wanted: wanted@ },
            Error::DuplicateDeclaration { var } => SpecError::DuplicateDeclaration { var: var@ },
            Error::UndeclaredVariable { var } => SpecError::UndeclaredVariable { var: var@ },
        }
    }
}

} // verus!
