//! The lexer: source text to an ordered token sequence.
//!
//! `//` comments run to the end of the line; `/* */` comments nest and must
//! balance. Single- and double-quoted strings take their content verbatim,
//! with no escape processing; an unterminated string or block comment is a
//! terminal error, as is an unrecognized character. Numbers are digits with
//! one optional fraction part; identifiers are reclassified against a fixed
//! keyword table. Newlines are significant tokens and advance the line
//! counter. Positions count Unicode characters, never bytes.
use vstd::prelude::*;

use crate::errors::{SpecError, ZanoError};
use crate::num::spec_is_digit;
use crate::token::{spec_tokens_view, SpecToken, Token, TokenKind};

verus! {

broadcast use vstd::seq::group_seq_axioms, vstd::std_specs::vec::group_vec_axioms;

/// An ASCII letter.
pub open spec fn spec_is_alpha(c: char) -> bool {
    ('a' <= c && c <= 'z') || ('A' <= c && c <= 'Z')
}

/// A character that may start an identifier.
pub open spec fn spec_is_ident_start(c: char) -> bool {
    spec_is_alpha(c) || c == '_'
}

/// A character that may continue an identifier.
pub open spec fn spec_is_ident_char(c: char) -> bool {
    spec_is_alpha(c) || spec_is_digit(c) || c == '_'
}

/// The next line number: one more, saturating at the machine limit (the
/// counter is diagnostic only).
pub open spec fn spec_bump_line(line: nat) -> nat {
    if line < usize::MAX as nat {
        line + 1
    } else {
        line
    }
}

/// The character at `pos`, or the NUL sentinel past the end.
pub open spec fn spec_peek(src: Seq<char>, pos: int) -> char {
    if 0 <= pos < src.len() {
        src[pos]
    } else {
        '\0'
    }
}

/// The first position at or after `pos` that does not hold a digit.
pub open spec fn spec_digits_end(src: Seq<char>, pos: int) -> int
    decreases src.len() - pos,
{
    if pos < 0 || pos >= src.len() || !spec_is_digit(src[pos]) {
        pos
    } else {
        spec_digits_end(src, pos + 1)
    }
}

/// The first position at or after `pos` that does not continue an
/// identifier.
pub open spec fn spec_ident_end(src: Seq<char>, pos: int) -> int
    decreases src.len() - pos,
{
    if pos < 0 || pos >= src.len() || !spec_is_ident_char(src[pos]) {
        pos
    } else {
        spec_ident_end(src, pos + 1)
    }
}

/// Where a numeric literal that started one position before `pos` ends: the
/// integer digits, then one fraction part if a dot directly followed by a
/// digit stands there.
pub open spec fn spec_number_end(src: Seq<char>, pos: int) -> int {
    let d = spec_digits_end(src, pos);
    if d < src.len() && src[d] == '.' && spec_is_digit(spec_peek(src, d + 1)) {
        spec_digits_end(src, d + 1)
    } else {
        d
    }
}

/// The first position at or after `pos` holding a newline, or the end of
/// the input: where a line comment stops.
pub open spec fn spec_line_comment_end(src: Seq<char>, pos: int) -> int
    decreases src.len() - pos,
{
    if pos < 0 || pos >= src.len() || src[pos] == '\n' {
        if pos < 0 {
            0
        } else if pos > src.len() {
            src.len() as int
        } else {
            pos
        }
    } else {
        spec_line_comment_end(src, pos + 1)
    }
}

/// Walks forward from `pos` to the closing quote `q`: the position of the
/// closer if one exists, and the line counter advanced over the newlines
/// passed.
pub open spec fn spec_string_end(src: Seq<char>, pos: int, line: nat, q: char) -> (
    Option<int>,
    nat,
)
    decreases src.len() - pos,
{
    if pos < 0 || pos >= src.len() {
        (None, line)
    } else if src[pos] == q {
        (Some(pos), line)
    } else {
        spec_string_end(
            src,
            pos + 1,
            if src[pos] == '\n' {
                spec_bump_line(line)
            } else {
                line
            },
            q,
        )
    }
}

/// Walks a nested block comment from `pos` at nesting `depth`: the position
/// just past the closer that returns the depth to zero, if the comment
/// balances, and the line counter advanced over the newlines passed.
pub open spec fn spec_comment_end(src: Seq<char>, pos: int, depth: nat, line: nat) -> (
    Option<int>,
    nat,
)
    decreases src.len() - pos,
{
    if depth == 0 {
        (Some(pos), line)
    } else if pos < 0 || pos >= src.len() {
        (None, line)
    } else if src[pos] == '/' && spec_peek(src, pos + 1) == '*' {
        spec_comment_end(src, pos + 2, depth + 1, line)
    } else if src[pos] == '*' && spec_peek(src, pos + 1) == '/' {
        spec_comment_end(src, pos + 2, (depth - 1) as nat, line)
    } else {
        spec_comment_end(
            src,
            pos + 1,
            depth,
            if src[pos] == '\n' {
                spec_bump_line(line)
            } else {
                line
            },
        )
    }
}

/// The keyword table: what an identifier's text means.
pub open spec fn spec_keyword_kind(s: Seq<char>) -> TokenKind {
    if s == "let"@ {
        TokenKind::Let
    } else if s == "const"@ {
        TokenKind::Const
    } else if s == "var"@ {
        TokenKind::Var
    } else if s == "function"@ {
        TokenKind::Function
    } else if s == "if"@ {
        TokenKind::If
    } else if s == "else"@ {
        TokenKind::Else
    } else if s == "while"@ {
        TokenKind::While
    } else if s == "return"@ {
        TokenKind::Return
    } else if s == "async"@ {
        TokenKind::Async
    } else if s == "await"@ {
        TokenKind::Await
    } else if s == "try"@ {
        TokenKind::Try
    } else if s == "catch"@ {
        TokenKind::Catch
    } else if s == "throw"@ {
        TokenKind::Throw
    } else if s == "true"@ || s == "false"@ {
        TokenKind::Boolean
    } else if s == "null"@ {
        TokenKind::Null
    } else if s == "undefined"@ {
        TokenKind::Undefined
    } else {
        TokenKind::Identifier
    }
}

/// A token as the scanner builds it.
pub open spec fn spec_token(kind: TokenKind, lexeme: Seq<char>, line: nat) -> SpecToken {
    SpecToken { kind, lexeme, line }
}

/// The message for an unrecognized character.
pub open spec fn spec_unexpected_char_message(c: char) -> Seq<char> {
    "Unexpected character: "@.push(c)
}

/// What one scanning step does, from a position strictly inside the input:
/// a token and the new position and line; just a new position and line (for
/// whitespace and comments); or a terminal error.
pub enum LexStep {
    Emit(SpecToken, int, nat),
    Skip(int, nat),
    Fail(Seq<char>, nat),
}

/// One scanning step at `pos` on `line`.
pub open spec fn spec_scan_token(src: Seq<char>, pos: int, line: nat) -> LexStep {
    if pos < 0 || pos >= src.len() {
        LexStep::Skip(pos + 1, line)
    } else {
        let c = src[pos];
        let one = src.subrange(pos, pos + 1);
        let two = src.subrange(pos, if pos + 2 <= src.len() {
            pos + 2
        } else {
            pos + 1
        });
        if c == ' ' || c == '\r' || c == '\t' {
            LexStep::Skip(pos + 1, line)
        } else if c == '\n' {
            LexStep::Emit(spec_token(TokenKind::Newline, one, line), pos + 1, spec_bump_line(line))
        } else if c == '(' {
            LexStep::Emit(spec_token(TokenKind::LeftParen, one, line), pos + 1, line)
        } else if c == ')' {
            LexStep::Emit(spec_token(TokenKind::RightParen, one, line), pos + 1, line)
        } else if c == '{' {
            LexStep::Emit(spec_token(TokenKind::LeftBrace, one, line), pos + 1, line)
        } else if c == '}' {
            LexStep::Emit(spec_token(TokenKind::RightBrace, one, line), pos + 1, line)
        } else if c == '[' {
            LexStep::Emit(spec_token(TokenKind::LeftBracket, one, line), pos + 1, line)
        } else if c == ']' {
            LexStep::Emit(spec_token(TokenKind::RightBracket, one, line), pos + 1, line)
        } else if c == ':' {
            LexStep::Emit(spec_token(TokenKind::Colon, one, line), pos + 1, line)
        } else if c == ',' {
            LexStep::Emit(spec_token(TokenKind::Comma, one, line), pos + 1, line)
        } else if c == '.' {
            LexStep::Emit(spec_token(TokenKind::Dot, one, line), pos + 1, line)
        } else if c == '-' {
            LexStep::Emit(spec_token(TokenKind::Minus, one, line), pos + 1, line)
        } else if c == '+' {
            LexStep::Emit(spec_token(TokenKind::Plus, one, line), pos + 1, line)
        } else if c == ';' {
            LexStep::Emit(spec_token(TokenKind::Semicolon, one, line), pos + 1, line)
        } else if c == '*' {
            LexStep::Emit(spec_token(TokenKind::Star, one, line), pos + 1, line)
        } else if c == '%' {
            LexStep::Emit(spec_token(TokenKind::Percent, one, line), pos + 1, line)
        } else if c == '!' {
            if spec_peek(src, pos + 1) == '=' {
                LexStep::Emit(spec_token(TokenKind::BangEqual, two, line), pos + 2, line)
            } else {
                LexStep::Emit(spec_token(TokenKind::Bang, one, line), pos + 1, line)
            }
        } else if c == '=' {
            if spec_peek(src, pos + 1) == '=' {
                LexStep::Emit(spec_token(TokenKind::EqualEqual, two, line), pos + 2, line)
            } else {
                LexStep::Emit(spec_token(TokenKind::Equal, one, line), pos + 1, line)
            }
        } else if c == '<' {
            if spec_peek(src, pos + 1) == '=' {
                LexStep::Emit(spec_token(TokenKind::LessEqual, two, line), pos + 2, line)
            } else {
                LexStep::Emit(spec_token(TokenKind::Less, one, line), pos + 1, line)
            }
        } else if c == '>' {
            if spec_peek(src, pos + 1) == '=' {
                LexStep::Emit(spec_token(TokenKind::GreaterEqual, two, line), pos + 2, line)
            } else {
                LexStep::Emit(spec_token(TokenKind::Greater, one, line), pos + 1, line)
            }
        } else if c == '&' {
            if spec_peek(src, pos + 1) == '&' {
                LexStep::Emit(spec_token(TokenKind::AndAnd, two, line), pos + 2, line)
            } else {
                LexStep::Fail(spec_unexpected_char_message(c), line)
            }
        } else if c == '|' {
            if spec_peek(src, pos + 1) == '|' {
                LexStep::Emit(spec_token(TokenKind::OrOr, two, line), pos + 2, line)
            } else {
                LexStep::Fail(spec_unexpected_char_message(c), line)
            }
        } else if c == '/' {
            if spec_peek(src, pos + 1) == '/' {
                LexStep::Skip(spec_line_comment_end(src, pos + 2), line)
            } else if spec_peek(src, pos + 1) == '*' {
                let (end, line2) = spec_comment_end(src, pos + 2, 1, line);
                if end is Some {
                    LexStep::Skip(end->0, line2)
                } else {
                    LexStep::Fail("Unterminated block comment"@, line2)
                }
            } else {
                LexStep::Emit(spec_token(TokenKind::Slash, one, line), pos + 1, line)
            }
        } else if c == '"' || c == '\'' {
            let (end, line2) = spec_string_end(src, pos + 1, line, c);
            if end is Some {
                LexStep::Emit(
                    spec_token(TokenKind::String, src.subrange(pos + 1, end->0), line2),
                    end->0 + 1,
                    line2,
                )
            } else {
                LexStep::Fail("Unterminated string"@, line2)
            }
        } else if spec_is_digit(c) {
            let end = spec_number_end(src, pos + 1);
            LexStep::Emit(
                spec_token(TokenKind::Number, src.subrange(pos, end), line),
                end,
                line,
            )
        } else if spec_is_ident_start(c) {
            let end = spec_ident_end(src, pos + 1);
            LexStep::Emit(
                spec_token(
                    spec_keyword_kind(src.subrange(pos, end)),
                    src.subrange(pos, end),
                    line,
                ),
                end,
                line,
            )
        } else {
            LexStep::Fail(spec_unexpected_char_message(c), line)
        }
    }
}

/// The tokens of the input from `pos` on `line` to the end, closed by the
/// end-of-input sentinel, or the first terminal error.
pub open spec fn spec_scan_from(src: Seq<char>, pos: int, line: nat) -> Result<
    Seq<SpecToken>,
    SpecError,
>
    decreases src.len() - pos,
{
    if pos >= src.len() {
        Ok(seq![spec_token(TokenKind::Eof, Seq::empty(), line)])
    } else {
        match spec_scan_token(src, pos, line) {
            LexStep::Emit(t, pos2, line2) => {
                if pos < pos2 <= src.len() {
                    match spec_scan_from(src, pos2, line2) {
                        Ok(rest) => Ok(seq![t] + rest),
                        Err(e) => Err(e),
                    }
                } else {
                    Err(SpecError::Lex { message: Seq::empty(), line })
                }
            },
            LexStep::Skip(pos2, line2) => {
                if pos < pos2 <= src.len() {
                    spec_scan_from(src, pos2, line2)
                } else {
                    Err(SpecError::Lex { message: Seq::empty(), line })
                }
            },
            LexStep::Fail(message, line2) => Err(SpecError::Lex { message, line: line2 }),
        }
    }
}

/// The token sequence of a whole input, starting on line one.
pub open spec fn spec_scan(src: Seq<char>) -> Result<Seq<SpecToken>, SpecError> {
    spec_scan_from(src, 0, 1)
}

/// The lexer's working state: the source, the tokens scanned so far, the
/// start of the token in progress, the current position (both in
/// characters) and the current line.
pub struct Lexer {
    source: String,
    tokens: Vec<Token>,
    start: usize,
    current: usize,
    line: usize,
}

/// A decimal digit.
fn is_digit_char(c: char) -> (r: bool)
    ensures
        r == spec_is_digit(c),
{
    '0' <= c && c <= '9'
}

/// A character that may start an identifier.
fn is_ident_start_char(c: char) -> (r: bool)
    ensures
        r == spec_is_ident_start(c),
{
    ('a' <= c && c <= 'z') || ('A' <= c && c <= 'Z') || c == '_'
}

/// A character that may continue an identifier.
fn is_ident_char(c: char) -> (r: bool)
    ensures
        r == spec_is_ident_char(c),
{
    ('a' <= c && c <= 'z') || ('A' <= c && c <= 'Z') || ('0' <= c && c <= '9') || c == '_'
}

/// Whether a string holds exactly the given text.
fn str_is(s: &String, lit: &str) -> (r: bool)
    ensures
        r == (s@ == lit@),
{
    *s == lit.to_owned()
}

/// Relies on String::push: appends one character at the end.
#[verifier::external_body]
fn push_char(s: &mut String, c: char)
    ensures
        final(s)@ == old(s)@.push(c),
{
    s.push(c);
}

impl Lexer {
    /// The lexer's state is consistent: the token in progress and the
    /// position lie inside the source.
    pub closed spec fn wf(self) -> bool {
        self.start <= self.current <= self.source@.len()
    }

    /// The source text this lexer reads.
    pub closed spec fn src(self) -> Seq<char> {
        self.source@
    }

    /// The views of the tokens scanned so far.
    pub closed spec fn toks(self) -> Seq<SpecToken> {
        spec_tokens_view(self.tokens@)
    }

    /// The current position, in characters.
    pub closed spec fn pos(self) -> int {
        self.current as int
    }

    /// The current line.
    pub closed spec fn line_no(self) -> nat {
        self.line as nat
    }

    /// A fresh lexer over `source`, at the start, on line one.
    pub fn new(source: String) -> (r: Lexer)
        ensures
            r.src() == source@,
            r.toks() == Seq::<SpecToken>::empty(),
            r.pos() == 0,
            r.line_no() == 1,
            r.wf(),
    {
        let r = Lexer { source, tokens: Vec::new(), start: 0, current: 0, line: 1 };
        proof {
            assert(r.toks() =~= Seq::<SpecToken>::empty());
        }
        r
    }

    /// Whether the whole input has been consumed.
    fn is_at_end(&self) -> (r: bool)
        ensures
            r == (self.current >= self.src().len()),
    {
        self.current >= self.source.as_str().unicode_len()
    }

    /// The character at the current position, or NUL at the end.
    fn peek(&self) -> (c: char)
        requires
            self.wf(),
        ensures
            c == spec_peek(self.src(), self.current as int),
    {
        if self.is_at_end() {
            '\0'
        } else {
            self.source.as_str().get_char(self.current)
        }
    }

    /// The character one past the current position, or NUL at the end.
    fn peek_next(&self) -> (c: char)
        requires
            self.wf(),
        ensures
            c == spec_peek(self.src(), self.current as int + 1),
    {
        let n = self.source.as_str().unicode_len();
        if self.current >= n || self.current + 1 >= n {
            '\0'
        } else {
            self.source.as_str().get_char(self.current + 1)
        }
    }

    /// Consumes and returns the current character.
    fn advance(&mut self) -> (c: char)
        requires
            old(self).wf(),
            old(self).current < old(self).src().len(),
        ensures
            c == old(self).src()[old(self).current as int],
            final(self).current == old(self).current + 1,
            final(self).source == old(self).source,
            final(self).tokens == old(self).tokens,
            final(self).start == old(self).start,
            final(self).line == old(self).line,
            final(self).wf(),
    {
        let n = self.source.as_str().unicode_len();
        let c = self.source.as_str().get_char(self.current);
        self.current = self.current + 1;
        c
    }

    /// Consumes the current character exactly when it is `expected`.
    fn match_char(&mut self, expected: char) -> (r: bool)
        requires
            old(self).wf(),
        ensures
            r == (spec_peek(old(self).src(), old(self).current as int) == expected && old(
                self,
            ).current < old(self).src().len()),
            final(self).current == if r {
                old(self).current + 1
            } else {
                old(self).current as int
            },
            final(self).source == old(self).source,
            final(self).tokens == old(self).tokens,
            final(self).start == old(self).start,
            final(self).line == old(self).line,
            final(self).wf(),
    {
        let n = self.source.as_str().unicode_len();
        if self.current >= n {
            return false;
        }
        if self.source.as_str().get_char(self.current) != expected {
            return false;
        }
        self.current = self.current + 1;
        true
    }

    /// Emits a token whose lexeme is the text scanned since `start`.
    fn add_token(&mut self, kind: TokenKind)
        requires
            old(self).wf(),
        ensures
            spec_tokens_view(final(self).tokens@) == spec_tokens_view(old(self).tokens@).push(
                spec_token(
                    kind,
                    old(self).src().subrange(old(self).start as int, old(self).current as int),
                    old(self).line as nat,
                ),
            ),
            final(self).source == old(self).source,
            final(self).start == old(self).start,
            final(self).current == old(self).current,
            final(self).line == old(self).line,
            final(self).wf(),
    {
        let text = self.source.as_str().substring_char(self.start, self.current).to_owned();
        self.add_token_with_literal(kind, text);
    }

    /// Advances the line counter, which saturates at the machine limit.
    fn bump_line(&mut self)
        ensures
            final(self).line == spec_bump_line(old(self).line as nat),
            final(self).source == old(self).source,
            final(self).tokens == old(self).tokens,
            final(self).start == old(self).start,
            final(self).current == old(self).current,
    {
        if self.line < usize::MAX {
            self.line = self.line + 1;
        }
    }

    /// Emits a token with the given lexeme.
    fn add_token_with_literal(&mut self, kind: TokenKind, lexeme: String)
        ensures
            spec_tokens_view(final(self).tokens@) == spec_tokens_view(old(self).tokens@).push(
                spec_token(kind, lexeme@, old(self).line as nat),
            ),
            final(self).source == old(self).source,
            final(self).start == old(self).start,
            final(self).current == old(self).current,
            final(self).line == old(self).line,
    {
        let line = self.line;
        self.tokens.push(Token { kind, lexeme, line });
        proof {
            assert(spec_tokens_view(self.tokens@) =~= spec_tokens_view(old(self).tokens@).push(
                self.tokens@[self.tokens@.len() - 1]@,
            ));
        }
    }

    /// Scans the rest of a string literal whose opening quote `q` stood one
    /// position back: emits a String token holding the text between the
    /// quotes verbatim, or fails where the input ends first.
    fn scan_string(&mut self, q: char) -> (r: Result<(), ZanoError>)
        requires
            old(self).wf(),
            old(self).start + 1 == old(self).current,
        ensures
            final(self).source == old(self).source,
            final(self).start == old(self).start,
            final(self).wf(),
            match spec_string_end(old(self).src(), old(self).current as int, old(self).line as nat, q) {
                (Some(e), l2) => {
                    &&& r is Ok
                    &&& final(self).current == e + 1
                    &&& final(self).current > old(self).start
                    &&& final(self).line == l2
                    &&& spec_tokens_view(final(self).tokens@) == spec_tokens_view(
                        old(self).tokens@,
                    ).push(
                        spec_token(
                            TokenKind::String,
                            old(self).src().subrange(old(self).current as int, e),
                            l2,
                        ),
                    )
                },
                (None, l2) => {
                    &&& r matches Err(e) && e@ == (SpecError::Lex {
                        message: "Unterminated string"@,
                        line: l2,
                    })
                    &&& final(self).tokens == old(self).tokens
                },
            },
    {
        let ghost src = self.src();
        let ghost c0 = self.current as int;
        let ghost l0 = self.line as nat;
        let n = self.source.as_str().unicode_len();
        while self.current < n && self.source.as_str().get_char(self.current) != q
            invariant
                self.wf(),
                self.source == old(self).source,
                self.start == old(self).start,
                self.tokens == old(self).tokens,
                c0 <= self.current as int,
                spec_string_end(src, c0, l0, q) == spec_string_end(
                    src,
                    self.current as int,
                    self.line as nat,
                    q,
                ),
            decreases src.len() - self.current,
        {
            if self.source.as_str().get_char(self.current) == '\n' {
                self.bump_line();
            }
            self.current = self.current + 1;
        }
        if self.current >= n {
            let line = self.line;
            return Err(ZanoError::LexError { message: "Unterminated string".to_owned(), line });
        }
        let e = self.current;
        self.current = self.current + 1;
        let text = self.source.as_str().substring_char(self.start + 1, e).to_owned();
        self.add_token_with_literal(TokenKind::String, text);
        Ok(())
    }

    /// Scans the rest of a numeric literal whose first digit stood one
    /// position back: the remaining digits, then one fraction part if a dot
    /// directly followed by a digit stands there, and emits a Number token.
    fn scan_number(&mut self)
        requires
            old(self).wf(),
            old(self).start + 1 == old(self).current,
        ensures
            final(self).source == old(self).source,
            final(self).start == old(self).start,
            final(self).line == old(self).line,
            final(self).wf(),
            final(self).current == spec_number_end(old(self).src(), old(self).current as int),
            final(self).current > old(self).start,
            spec_tokens_view(final(self).tokens@) == spec_tokens_view(old(self).tokens@).push(
                spec_token(
                    TokenKind::Number,
                    old(self).src().subrange(old(self).start as int, final(self).current as int),
                    old(self).line as nat,
                ),
            ),
    {
        let ghost src = self.src();
        let ghost c0 = self.current as int;
        let n = self.source.as_str().unicode_len();
        while self.current < n && is_digit_char(self.source.as_str().get_char(self.current))
            invariant
                self.wf(),
                self.source == old(self).source,
                self.start == old(self).start,
                self.tokens == old(self).tokens,
                self.line == old(self).line,
                c0 <= self.current as int,
                spec_digits_end(src, c0) == spec_digits_end(src, self.current as int),
            decreases src.len() - self.current,
        {
            self.current = self.current + 1;
        }
        proof {
            assert(spec_digits_end(src, self.current as int) == self.current as int);
        }
        if self.peek() == '.' && is_digit_char(self.peek_next()) {
            self.current = self.current + 1;
            let ghost d1 = self.current as int;
            while self.current < n && is_digit_char(self.source.as_str().get_char(self.current))
                invariant
                    self.wf(),
                    self.source == old(self).source,
                    self.start == old(self).start,
                    self.tokens == old(self).tokens,
                    self.line == old(self).line,
                    d1 <= self.current as int,
                    spec_digits_end(src, d1) == spec_digits_end(src, self.current as int),
                decreases src.len() - self.current,
            {
                self.current = self.current + 1;
            }
            proof {
                assert(spec_digits_end(src, self.current as int) == self.current as int);
            }
        }
        self.add_token(TokenKind::Number);
    }

    /// Scans the rest of an identifier whose first character stood one
    /// position back, and emits it under its keyword kind, or as an
    /// Identifier where no keyword matches.
    fn scan_identifier(&mut self)
        requires
            old(self).wf(),
            old(self).start + 1 == old(self).current,
        ensures
            final(self).source == old(self).source,
            final(self).start == old(self).start,
            final(self).line == old(self).line,
            final(self).wf(),
            final(self).current == spec_ident_end(old(self).src(), old(self).current as int),
            final(self).current > old(self).start,
            spec_tokens_view(final(self).tokens@) == spec_tokens_view(old(self).tokens@).push(
                spec_token(
                    spec_keyword_kind(
                        old(self).src().subrange(
                            old(self).start as int,
                            final(self).current as int,
                        ),
                    ),
                    old(self).src().subrange(old(self).start as int, final(self).current as int),
                    old(self).line as nat,
                ),
            ),
    {
        let ghost src = self.src();
        let ghost c0 = self.current as int;
        let n = self.source.as_str().unicode_len();
        while self.current < n && is_ident_char(self.source.as_str().get_char(self.current))
            invariant
                self.wf(),
                self.source == old(self).source,
                self.start == old(self).start,
                self.tokens == old(self).tokens,
                self.line == old(self).line,
                c0 <= self.current as int,
                spec_ident_end(src, c0) == spec_ident_end(src, self.current as int),
            decreases src.len() - self.current,
        {
            self.current = self.current + 1;
        }
        proof {
            assert(spec_ident_end(src, self.current as int) == self.current as int);
        }
        let text = self.source.as_str().substring_char(self.start, self.current).to_owned();
        let kind = if str_is(&text, "let") {
            TokenKind::Let
        } else if str_is(&text, "const") {
            TokenKind::Const
        } else if str_is(&text, "var") {
            TokenKind::Var
        } else if str_is(&text, "function") {
            TokenKind::Function
        } else if str_is(&text, "if") {
            TokenKind::If
        } else if str_is(&text, "else") {
            TokenKind::Else
        } else if str_is(&text, "while") {
            TokenKind::While
        } else if str_is(&text, "return") {
            TokenKind::Return
        } else if str_is(&text, "async") {
            TokenKind::Async
        } else if str_is(&text, "await") {
            TokenKind::Await
        } else if str_is(&text, "try") {
            TokenKind::Try
        } else if str_is(&text, "catch") {
            TokenKind::Catch
        } else if str_is(&text, "throw") {
            TokenKind::Throw
        } else if str_is(&text, "true") || str_is(&text, "false") {
            TokenKind::Boolean
        } else if str_is(&text, "null") {
            TokenKind::Null
        } else if str_is(&text, "undefined") {
            TokenKind::Undefined
        } else {
            TokenKind::Identifier
        };
        self.add_token_with_literal(kind, text);
    }

    /// Scans the rest of a block comment whose opener stood two positions
    /// back, honouring nesting; fails where the input ends with the comment
    /// still open.
    fn scan_block_comment(&mut self) -> (r: Result<(), ZanoError>)
        requires
            old(self).wf(),
            old(self).current >= 2,
        ensures
            final(self).source == old(self).source,
            final(self).start == old(self).start,
            final(self).tokens == old(self).tokens,
            final(self).wf(),
            match spec_comment_end(old(self).src(), old(self).current as int, 1, old(self).line as nat) {
                (Some(p), l2) => {
                    &&& r is Ok
                    &&& final(self).current == p
                    &&& final(self).current >= old(self).current
                    &&& final(self).line == l2
                },
                (None, l2) => r matches Err(e) && e@ == (SpecError::Lex {
                    message: "Unterminated block comment"@,
                    line: l2,
                }),
            },
    {
        let ghost src = self.src();
        let ghost c0 = self.current as int;
        let ghost l0 = self.line as nat;
        let n = self.source.as_str().unicode_len();
        let mut depth: usize = 1;
        while depth > 0 && self.current < n
            invariant
                self.wf(),
                self.source == old(self).source,
                self.start == old(self).start,
                self.tokens == old(self).tokens,
                c0 <= self.current as int,
                2 * depth <= self.current,
                spec_comment_end(src, c0, 1, l0) == spec_comment_end(
                    src,
                    self.current as int,
                    depth as nat,
                    self.line as nat,
                ),
            decreases src.len() - self.current,
        {
            if self.peek() == '/' && self.peek_next() == '*' {
                self.current = self.current + 2;
                depth = depth + 1;
            } else if self.peek() == '*' && self.peek_next() == '/' {
                self.current = self.current + 2;
                depth = depth - 1;
            } else {
                if self.source.as_str().get_char(self.current) == '\n' {
                    self.bump_line();
                }
                self.current = self.current + 1;
            }
        }
        if depth > 0 {
            let line = self.line;
            return Err(
                ZanoError::LexError { message: "Unterminated block comment".to_owned(), line },
            );
        }
        Ok(())
    }

    /// Skips a line comment whose two slashes stood just back: everything up
    /// to, and not including, the next newline.
    fn skip_line_comment(&mut self)
        requires
            old(self).wf(),
        ensures
            final(self).source == old(self).source,
            final(self).start == old(self).start,
            final(self).tokens == old(self).tokens,
            final(self).line == old(self).line,
            final(self).wf(),
            final(self).current == spec_line_comment_end(old(self).src(), old(self).current as int),
            final(self).current >= old(self).current,
    {
        let ghost src = self.src();
        let ghost c0 = self.current as int;
        let n = self.source.as_str().unicode_len();
        while self.current < n && self.source.as_str().get_char(self.current) != '\n'
            invariant
                self.wf(),
                self.source == old(self).source,
                self.start == old(self).start,
                self.tokens == old(self).tokens,
                self.line == old(self).line,
                c0 <= self.current as int,
                spec_line_comment_end(src, c0) == spec_line_comment_end(src, self.current as int),
            decreases src.len() - self.current,
        {
            self.current = self.current + 1;
        }
    }
}

impl Lexer {
    /// One scanning step: consumes one token's worth of input, emitting at
    /// most one token, or fails on a malformed one.
    fn scan_token(&mut self) -> (r: Result<(), ZanoError>)
        requires
            old(self).wf(),
            old(self).current < old(self).src().len(),
        ensures
            final(self).source == old(self).source,
            match spec_scan_token(old(self).src(), old(self).current as int, old(self).line as nat) {
                LexStep::Emit(t, p2, l2) => {
                    &&& r is Ok
                    &&& final(self).wf()
                    &&& spec_tokens_view(final(self).tokens@) == spec_tokens_view(
                        old(self).tokens@,
                    ).push(t)
                    &&& final(self).current as int == p2
                    &&& final(self).line as nat == l2
                    &&& old(self).current < final(self).current
                },
                LexStep::Skip(p2, l2) => {
                    &&& r is Ok
                    &&& final(self).wf()
                    &&& final(self).tokens == old(self).tokens
                    &&& final(self).current as int == p2
                    &&& final(self).line as nat == l2
                    &&& old(self).current < final(self).current
                },
                LexStep::Fail(m, l2) => r matches Err(e) && e@ == (SpecError::Lex {
                    message: m,
                    line: l2,
                }),
            },
    {
        self.start = self.current;
        let c = self.advance();
        match c {
            ' ' | '\r' | '\t' => Ok(()),
            '\n' => {
                self.add_token(TokenKind::Newline);
                self.bump_line();
                Ok(())
            },
            '(' => {
                self.add_token(TokenKind::LeftParen);
                Ok(())
            },
            ')' => {
                self.add_token(TokenKind::RightParen);
                Ok(())
            },
            '{' => {
                self.add_token(TokenKind::LeftBrace);
                Ok(())
            },
            '}' => {
                self.add_token(TokenKind::RightBrace);
                Ok(())
            },
            '[' => {
                self.add_token(TokenKind::LeftBracket);
                Ok(())
            },
            ']' => {
                self.add_token(TokenKind::RightBracket);
                Ok(())
            },
            ':' => {
                self.add_token(TokenKind::Colon);
                Ok(())
            },
            ',' => {
                self.add_token(TokenKind::Comma);
                Ok(())
            },
            '.' => {
                self.add_token(TokenKind::Dot);
                Ok(())
            },
            '-' => {
                self.add_token(TokenKind::Minus);
                Ok(())
            },
            '+' => {
                self.add_token(TokenKind::Plus);
                Ok(())
            },
            ';' => {
                self.add_token(TokenKind::Semicolon);
                Ok(())
            },
            '*' => {
                self.add_token(TokenKind::Star);
                Ok(())
            },
            '%' => {
                self.add_token(TokenKind::Percent);
                Ok(())
            },
            '!' => {
                let kind = if self.match_char('=') {
                    TokenKind::BangEqual
                } else {
                    TokenKind::Bang
                };
                self.add_token(kind);
                Ok(())
            },
            '=' => {
                let kind = if self.match_char('=') {
                    TokenKind::EqualEqual
                } else {
                    TokenKind::Equal
                };
                self.add_token(kind);
                Ok(())
            },
            '<' => {
                let kind = if self.match_char('=') {
                    TokenKind::LessEqual
                } else {
                    TokenKind::Less
                };
                self.add_token(kind);
                Ok(())
            },
            '>' => {
                let kind = if self.match_char('=') {
                    TokenKind::GreaterEqual
                } else {
                    TokenKind::Greater
                };
                self.add_token(kind);
                Ok(())
            },
            '&' => {
                if self.match_char('&') {
                    self.add_token(TokenKind::AndAnd);
                    Ok(())
                } else {
                    let line = self.line;
                    let mut message = "Unexpected character: ".to_owned();
                    push_char(&mut message, '&');
                    Err(ZanoError::LexError { message, line })
                }
            },
            '|' => {
                if self.match_char('|') {
                    self.add_token(TokenKind::OrOr);
                    Ok(())
                } else {
                    let line = self.line;
                    let mut message = "Unexpected character: ".to_owned();
                    push_char(&mut message, '|');
                    Err(ZanoError::LexError { message, line })
                }
            },
            '/' => {
                if self.match_char('/') {
                    self.skip_line_comment();
                    Ok(())
                } else if self.match_char('*') {
                    match self.scan_block_comment() {
                        Ok(()) => Ok(()),
                        Err(e) => Err(e),
                    }
                } else {
                    self.add_token(TokenKind::Slash);
                    Ok(())
                }
            },
            '"' => {
                match self.scan_string('"') {
                    Ok(()) => Ok(()),
                    Err(e) => Err(e),
                }
            },
            '\'' => {
                match self.scan_string('\'') {
                    Ok(()) => Ok(()),
                    Err(e) => Err(e),
                }
            },
            _ => {
                if is_digit_char(c) {
                    self.scan_number();
                    Ok(())
                } else if is_ident_start_char(c) {
                    self.scan_identifier();
                    Ok(())
                } else {
                    let line = self.line;
                    let mut message = "Unexpected character: ".to_owned();
                    push_char(&mut message, c);
                    Err(ZanoError::LexError { message, line })
                }
            },
        }
    }

    /// Scans the whole remaining input into tokens, closing them with the
    /// end-of-input sentinel, or fails on the first malformed token.
    pub fn scan_tokens(&mut self) -> (r: Result<Vec<Token>, ZanoError>)
        requires
            old(self).wf(),
        ensures
            match spec_scan_from(old(self).src(), old(self).pos(), old(self).line_no()) {
                Ok(ts) => r matches Ok(v) && spec_tokens_view(v@) == old(self).toks() + ts,
                Err(e) => r matches Err(err) && err@ == e,
            },
    {
        let ghost src = self.src();
        let ghost p0 = self.pos();
        let ghost l0 = self.line_no();
        let ghost t0 = self.toks();
        while !self.is_at_end()
            invariant
                self.wf(),
                self.source == old(self).source,
                t0.len() <= self.toks().len(),
                self.toks().subrange(0, t0.len() as int) == t0,
                match spec_scan_from(src, self.current as int, self.line as nat) {
                    Ok(rest) => spec_scan_from(src, p0, l0) == Ok::<Seq<SpecToken>, SpecError>(
                        self.toks().skip(t0.len() as int) + rest,
                    ),
                    Err(e) => spec_scan_from(src, p0, l0) == Err::<Seq<SpecToken>, SpecError>(e),
                },
            decreases src.len() - self.current,
        {
            let ghost pre = *self;
            let step_result = self.scan_token();
            proof {
                let step = spec_scan_token(src, pre.current as int, pre.line as nat);
                match step {
                    LexStep::Emit(t, p2, l2) => {
                        assert(self.toks() =~= pre.toks().push(t));
                        assert(self.toks().subrange(0, t0.len() as int) =~= pre.toks().subrange(
                            0,
                            t0.len() as int,
                        ));
                        assert(self.toks().skip(t0.len() as int) =~= pre.toks().skip(
                            t0.len() as int,
                        ).push(t));
                        match spec_scan_from(src, self.current as int, self.line as nat) {
                            Ok(rest2) => {
                                assert(spec_scan_from(src, pre.current as int, pre.line as nat)
                                    == Ok::<Seq<SpecToken>, SpecError>(seq![t] + rest2));
                                assert(pre.toks().skip(t0.len() as int) + (seq![t] + rest2) =~= self.toks().skip(
                                    t0.len() as int,
                                ) + rest2);
                            },
                            Err(e) => {
                                assert(spec_scan_from(src, pre.current as int, pre.line as nat)
                                    == Err::<Seq<SpecToken>, SpecError>(e));
                            },
                        }
                    },
                    LexStep::Skip(p2, l2) => {
                    },
                    LexStep::Fail(m, l2) => {
                    },
                }
            }
            match step_result {
                Ok(()) => {},
                Err(e) => {
                    return Err(e);
                },
            }
        }
        self.add_token_with_literal(TokenKind::Eof, String::new());
        proof {
            let ghost added = self.toks().skip(t0.len() as int);
            assert(self.toks().subrange(0, t0.len() as int) =~= t0);
            match spec_scan_from(src, p0, l0) {
                Ok(ts) => {
                    assert(t0 + ts =~= self.toks());
                },
                Err(e) => {},
            }
        }
        let out = clone_tokens(&self.tokens);
        proof {
            assert(spec_tokens_view(out@) == self.toks());
        }
        Ok(out)
    }
}

/// An elementwise copy of a token vector.
fn clone_tokens(ts: &Vec<Token>) -> (r: Vec<Token>)
    ensures
        spec_tokens_view(r@) == spec_tokens_view(ts@),
        r@.len() == ts@.len(),
{
    let mut out: Vec<Token> = Vec::new();
    let mut i: usize = 0;
    while i < ts.len()
        invariant
            i <= ts.len(),
            out@.len() == i as int,
            forall|j: int| 0 <= j < i as int ==> #[trigger] out@[j]@ == ts@[j]@,
        decreases ts.len() - i,
    {
        let t = Token { kind: ts[i].kind, lexeme: ts[i].lexeme.clone(), line: ts[i].line };
        out.push(t);
        i = i + 1;
    }
    proof {
        assert(spec_tokens_view(out@) =~= spec_tokens_view(ts@));
    }
    out
}

} // verus!
