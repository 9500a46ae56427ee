//! Lexical tokens.
use vstd::prelude::*;

verus! {

/// The kinds of lexical tokens the scanner produces.
#[derive(Clone, Copy, Debug, PartialEq, Eq, Structural)]
pub enum TokenKind {
    Number,
    String,
    Boolean,
    Null,
    Undefined,
    Identifier,
    Let,
    Const,
    Var,
    Function,
    If,
    Else,
    While,
    Return,
    Async,
    Await,
    Try,
    Catch,
    Throw,
    Plus,
    Minus,
    Star,
    Slash,
    Percent,
    Equal,
    EqualEqual,
    Bang,
    BangEqual,
    Greater,
    GreaterEqual,
    Less,
    LessEqual,
    AndAnd,
    OrOr,
    LeftParen,
    RightParen,
    LeftBrace,
    RightBrace,
    LeftBracket,
    RightBracket,
    Colon,
    Comma,
    Semicolon,
    Dot,
    Eof,
    Newline,
}

/// One token: its kind, the raw text it was scanned from, and the line it
/// stood on, for diagnostics.
#[derive(Debug, PartialEq)]
pub struct Token {
    pub kind: TokenKind,
    pub lexeme: String,
    pub line: usize,
}

/// The mathematical form of a token.
pub struct SpecToken {
    pub kind: TokenKind,
    pub lexeme: Seq<char>,
    pub line: nat,
}

impl View for Token {
    type V = SpecToken;

    open spec fn view(&self) -> SpecToken {
        SpecToken { kind: self.kind, lexeme: self.lexeme@, line: self.line as nat }
    }
}

/// The views of a sequence of tokens.
pub open spec fn spec_tokens_view(ts: Seq<Token>) -> Seq<SpecToken> {
    Seq::new(ts.len(), |i: int| ts[i]@)
}

} // verus!
