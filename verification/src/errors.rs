//! The failure taxonomy: malformed tokens, unmet grammar expectations, and
//! runtime faults. All three surface to the host as a message string; a
//! runtime fault is the only kind a script-level `try` can observe.
use vstd::prelude::*;

use crate::token::{SpecToken, Token};

verus! {

/// A failure of the lexer, the parser or the evaluator.
#[derive(Debug, PartialEq)]
pub enum ZanoError {
    /// A malformed token: an unterminated string or block comment, or an
    /// unrecognized character, with the line it was found on.
    LexError { message: String, line: usize },
    /// An unmet grammar expectation, with the offending token.
    ParseError { message: String, token: Token },
    /// A runtime fault: an undefined identifier or function, an operator
    /// type mismatch, a user `throw`, or a native collaborator's failure.
    RuntimeError { message: String },
}

/// The mathematical form of a failure.
pub enum SpecError {
    Lex { message: Seq<char>, line: nat },
    Parse { message: Seq<char>, token: SpecToken },
    Runtime { message: Seq<char> },
}

impl View for ZanoError {
    type V = SpecError;

    open spec fn view(&self) -> SpecError {
        match self {
            ZanoError::LexError { message, line } => SpecError::Lex {
                message: message@,
                line: *line as nat,
            },
            ZanoError::ParseError { message, token } => SpecError::Parse {
                message: message@,
                token: token@,
            },
            ZanoError::RuntimeError { message } => SpecError::Runtime { message: message@ },
        }
    }
}

impl ZanoError {
    /// The display text of the failure: what a `catch` binds and what the
    /// host reports.
    pub fn message(&self) -> (r: &String)
        ensures
            r@ == self@.spec_message(),
    {
        match self {
            ZanoError::LexError { message, .. } => message,
            ZanoError::ParseError { message, .. } => message,
            ZanoError::RuntimeError { message } => message,
        }
    }
}

impl SpecError {
    /// The display text of a failure.
    pub open spec fn spec_message(self) -> Seq<char> {
        match self {
            SpecError::Lex { message, .. } => message,
            SpecError::Parse { message, .. } => message,
            SpecError::Runtime { message } => message,
        }
    }
}

} // verus!
