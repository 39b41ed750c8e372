//! The two error taxonomies: tokenizing errors raised by the character
//! cursor, parsing errors raised by the token cursor, and a combined type
//! for callers that run both phases through one failure channel.

use crate::token::Token;
use vstd::prelude::*;

verus! {

/// Reason for a character-level scanning failure.
#[derive(Debug)]
pub enum TokenizeErrorKind {
    ExpectedChar { expected: char, got: char },
    UnexpectedChar { got: char },
    UnexpectedEndOfInput,
    Custom { message: &'static str },
}

/// A failure raised by the character cursor, carrying the byte offset where
/// it occurred.
#[derive(Debug)]
pub struct TokenizeError {
    pub index: u32,
    pub kind: TokenizeErrorKind,
}

impl TokenizeError {
    /// Byte offset where the failure occurred.
    pub fn index(&self) -> (r: u32)
        ensures
            r == self.index,
    {
        self.index
    }

    /// The reason for the failure.
    pub fn kind(&self) -> (r: &TokenizeErrorKind)
        ensures
            r == &self.kind,
    {
        &self.kind
    }
}

/// Reason for a token-level parsing failure.
#[derive(Debug, Clone)]
pub enum ParseErrorKind<Kind> {
    UnexpectedToken(Token<Kind>),
    ExpectedToken { expected: Kind, got: Token<Kind> },
    ExpectedString { expected: String, got: String, token: Token<Kind> },
    UnexpectedEndOfInput,
}

/// A failure raised by the token cursor.
#[derive(Debug, Clone)]
pub struct ParseError<Kind> {
    pub kind: ParseErrorKind<Kind>,
}

/// A combined failure channel for callers that run tokenizing and parsing as
/// sequential phases.
#[derive(Debug)]
pub enum Error<Kind> {
    Tokenizer(TokenizeError),
    Parser(ParseError<Kind>),
}

} // verus!
