//! Errors reported on a scene description that cannot be read.

use vstd::prelude::*;
use crate::location::Location;
use crate::token::{Token, TokenKind};

verus! {

/// What the parser looked for.
#[derive(Clone, Debug)]
pub enum Expected {
    /// A token of this kind.
    Kind(TokenKind),
    /// The identifier spelled by these characters.
    Word(Vec<char>),
}

/// Type and data for a syntax error.
#[derive(Clone, Debug)]
pub enum SyntaxErrorType {
    /// Input sequence could not be read as a valid token.
    InvalidToken,
    /// Input sequence that looks like a number is no number literal.
    InvalidNumber { num: Vec<char> },
    /// Expected something and got another token, or the end of the input
    /// (`found` is `None`).
    Expect { expected: Expected, found: Option<Token> },
    /// Undefined field given.
    Undefined(Vec<char>),
    /// Missing a field.
    Missing,
    /// No such class, or no such unit.
    NoClass(Vec<char>),
}

/// A syntax error, with the location in the text where it was noticed.
#[derive(Clone, Debug)]
pub struct SyntaxError {
    pub etype: SyntaxErrorType,
    pub location: Location,
}

} // verus!
