//! The parser: tokens to an ordered statement sequence.
//!
//! One-token-lookahead recursive descent with no backtracking; expressions
//! are parsed by precedence climbing, lowest to highest: assignment,
//! logical or, logical and, equality, relational, additive, multiplicative,
//! `await`, then the postfix chain of calls, members and index brackets,
//! then primaries. Assignment is right-associative and only a bare
//! identifier is a legal target; after an `=` that follows any other
//! expression the left side is returned unchanged. Semicolons are optional;
//! newlines inside blocks and object literals are skippable noise. The
//! token sequence must end with the end-of-input sentinel.
use vstd::prelude::*;

use crate::ast::{
    spec_exprs_of_vec, spec_exprs_view, spec_expr_pairs_of_vec, spec_expr_pairs_view,
    spec_names_view, spec_stmts_of_vec, spec_stmts_view, BinaryOp, Expression, SpecExpr, SpecStmt,
    Statement,
};
use crate::errors::{SpecError, ZanoError};
use crate::num::{apf_parse, num_parse};
use crate::token::{spec_tokens_view, SpecToken, Token, TokenKind};
use crate::value::{SpecValue, ZanoValue};

verus! {

broadcast use vstd::seq::group_seq_axioms, vstd::std_specs::vec::group_vec_axioms;

/// The token at `pos`, or the end-of-input sentinel out of range.
pub open spec fn spec_tok(ts: Seq<SpecToken>, pos: int) -> SpecToken {
    if 0 <= pos < ts.len() {
        ts[pos]
    } else {
        SpecToken { kind: TokenKind::Eof, lexeme: Seq::empty(), line: 0 }
    }
}

/// An unmet grammar expectation at the given token.
pub open spec fn spec_perr(message: Seq<char>, t: SpecToken) -> SpecError {
    SpecError::Parse { message, token: t }
}

/// Never reached from a well-formed production: every production consumes
/// input, and this error only bounds the recursion of the definitions
/// below.
pub open spec fn spec_stall(ts: Seq<SpecToken>, pos: int) -> SpecError {
    spec_perr(Seq::empty(), spec_tok(ts, pos))
}

/// The position just past a semicolon, where one stands: semicolons are
/// consumed if present and never required.
pub open spec fn spec_skip_semi(ts: Seq<SpecToken>, pos: int) -> int {
    if spec_tok(ts, pos).kind == TokenKind::Semicolon {
        pos + 1
    } else {
        pos
    }
}

/// The position of the next token that is not a newline.
pub open spec fn spec_skip_newlines(ts: Seq<SpecToken>, pos: int) -> int
    decreases ts.len() - pos,
{
    if spec_tok(ts, pos).kind == TokenKind::Newline {
        spec_skip_newlines(ts, pos + 1)
    } else {
        pos
    }
}

/// A parse outcome: the node and the position just past it, or the error.
pub type PResult<T> = Result<(T, int), SpecError>;

/// A primary expression: a literal, an identifier, a parenthesized
/// expression, an array literal or an object literal.
pub open spec fn spec_primary(ts: Seq<SpecToken>, pos: int) -> PResult<SpecExpr>
    decreases ts.len() - pos, 5int,
{
    let t = spec_tok(ts, pos);
    if t.kind == TokenKind::Boolean {
        Ok((SpecExpr::Literal(SpecValue::Boolean(t.lexeme == "true"@)), pos + 1))
    } else if t.kind == TokenKind::Null {
        Ok((SpecExpr::Literal(SpecValue::Null), pos + 1))
    } else if t.kind == TokenKind::Undefined {
        Ok((SpecExpr::Literal(SpecValue::Undefined), pos + 1))
    } else if t.kind == TokenKind::Number {
        match num_parse(t.lexeme) {
            Some(b) => Ok((SpecExpr::Literal(SpecValue::Number(b)), pos + 1)),
            None => Err(spec_perr("Invalid number literal"@, t)),
        }
    } else if t.kind == TokenKind::String {
        Ok((SpecExpr::Literal(SpecValue::String(t.lexeme)), pos + 1))
    } else if t.kind == TokenKind::Identifier {
        Ok((SpecExpr::Identifier(t.lexeme), pos + 1))
    } else if t.kind == TokenKind::LeftParen {
        match spec_expression(ts, pos + 1) {
            Ok((e, p2)) => if pos + 1 <= p2 <= ts.len() {
                if spec_tok(ts, p2).kind == TokenKind::RightParen {
                    Ok((e, p2 + 1))
                } else {
                    Err(spec_perr("Expected ')' after expression"@, spec_tok(ts, p2)))
                }
            } else {
                Err(spec_stall(ts, pos))
            },
            Err(e) => Err(e),
        }
    } else if t.kind == TokenKind::LeftBracket {
        match spec_array_items(ts, pos + 1) {
            Ok((els, p2)) => Ok((SpecExpr::Array(els), p2)),
            Err(e) => Err(e),
        }
    } else if t.kind == TokenKind::LeftBrace {
        match spec_object_items(ts, pos + 1) {
            Ok((pairs, p2)) => Ok((SpecExpr::Object(pairs), p2)),
            Err(e) => Err(e),
        }
    } else {
        Err(spec_perr("Unexpected token"@, t))
    }
}

/// The elements of an array literal, just after its opening bracket, and
/// the closing bracket.
pub open spec fn spec_array_items(ts: Seq<SpecToken>, pos: int) -> PResult<Seq<SpecExpr>>
    decreases ts.len() - pos, 27int,
{
    if spec_tok(ts, pos).kind == TokenKind::RightBracket {
        Ok((Seq::empty(), pos + 1))
    } else {
        spec_array_elements(ts, pos)
    }
}

/// One or more comma-separated array elements followed by the closing
/// bracket.
pub open spec fn spec_array_elements(ts: Seq<SpecToken>, pos: int) -> PResult<Seq<SpecExpr>>
    decreases ts.len() - pos, 26int,
{
    match spec_expression(ts, pos) {
        Ok((e, p2)) => if pos < p2 <= ts.len() {
            if spec_tok(ts, p2).kind == TokenKind::Comma {
                match spec_array_elements(ts, p2 + 1) {
                    Ok((rest, p3)) => Ok((seq![e] + rest, p3)),
                    Err(er) => Err(er),
                }
            } else if spec_tok(ts, p2).kind == TokenKind::RightBracket {
                Ok((seq![e], p2 + 1))
            } else {
                Err(spec_perr("Expected ']' after array elements"@, spec_tok(ts, p2)))
            }
        } else {
            Err(spec_stall(ts, pos))
        },
        Err(e) => Err(e),
    }
}

/// The arguments of a call, just after its opening parenthesis, and the
/// closing parenthesis.
pub open spec fn spec_call_args(ts: Seq<SpecToken>, pos: int) -> PResult<Seq<SpecExpr>>
    decreases ts.len() - pos, 27int,
{
    if spec_tok(ts, pos).kind == TokenKind::RightParen {
        Ok((Seq::empty(), pos + 1))
    } else {
        spec_call_args_elements(ts, pos)
    }
}

/// One or more comma-separated arguments followed by the closing
/// parenthesis.
pub open spec fn spec_call_args_elements(ts: Seq<SpecToken>, pos: int) -> PResult<Seq<SpecExpr>>
    decreases ts.len() - pos, 26int,
{
    match spec_expression(ts, pos) {
        Ok((e, p2)) => if pos < p2 <= ts.len() {
            if spec_tok(ts, p2).kind == TokenKind::Comma {
                match spec_call_args_elements(ts, p2 + 1) {
                    Ok((rest, p3)) => Ok((seq![e] + rest, p3)),
                    Err(er) => Err(er),
                }
            } else if spec_tok(ts, p2).kind == TokenKind::RightParen {
                Ok((seq![e], p2 + 1))
            } else {
                Err(spec_perr("Expected ')' after arguments"@, spec_tok(ts, p2)))
            }
        } else {
            Err(spec_stall(ts, pos))
        },
        Err(e) => Err(e),
    }
}

/// The entries of an object literal, just after its opening brace, and the
/// closing brace. Newlines around entries are skippable noise; keys are
/// identifiers or string literals.
pub open spec fn spec_object_items(ts: Seq<SpecToken>, pos: int) -> PResult<
    Seq<(Seq<char>, SpecExpr)>,
>
    decreases ts.len() - pos, 27int,
{
    let p1 = spec_skip_newlines(ts, pos);
    if !(pos <= p1 <= ts.len()) {
        Err(spec_stall(ts, pos))
    } else if spec_tok(ts, p1).kind == TokenKind::RightBrace {
        Ok((Seq::empty(), p1 + 1))
    } else {
        spec_object_entries(ts, p1)
    }
}

/// One or more comma-separated `key: value` entries followed by the closing
/// brace.
pub open spec fn spec_object_entries(ts: Seq<SpecToken>, pos: int) -> PResult<
    Seq<(Seq<char>, SpecExpr)>,
>
    decreases ts.len() - pos, 26int,
{
    let p1 = spec_skip_newlines(ts, pos);
    if !(pos <= p1 <= ts.len()) {
        Err(spec_stall(ts, pos))
    } else {
        let kt = spec_tok(ts, p1);
        if !(kt.kind == TokenKind::String || kt.kind == TokenKind::Identifier) {
            Err(spec_perr("Expected property name"@, kt))
        } else if spec_tok(ts, p1 + 1).kind != TokenKind::Colon {
            Err(spec_perr("Expected ':' after property name"@, spec_tok(ts, p1 + 1)))
        } else {
            match spec_expression(ts, p1 + 2) {
                Ok((v, p3)) => if pos < p3 <= ts.len() {
                    let p4 = spec_skip_newlines(ts, p3);
                    if !(p3 <= p4 <= ts.len()) {
                        Err(spec_stall(ts, p3))
                    } else if spec_tok(ts, p4).kind == TokenKind::Comma {
                        let p5 = spec_skip_newlines(ts, p4 + 1);
                        if p4 < p5 <= ts.len() {
                            match spec_object_entries(ts, p5) {
                                Ok((rest, p6)) => Ok((seq![(kt.lexeme, v)] + rest, p6)),
                                Err(er) => Err(er),
                            }
                        } else {
                            Err(spec_stall(ts, p4))
                        }
                    } else if spec_tok(ts, p4).kind == TokenKind::RightBrace {
                        Ok((seq![(kt.lexeme, v)], p4 + 1))
                    } else {
                        Err(spec_perr("Expected '}' after object properties"@, spec_tok(ts, p4)))
                    }
                } else {
                    Err(spec_stall(ts, p1 + 2))
                },
                Err(e) => Err(e),
            }
        }
    }
}

/// The postfix chain after a primary: calls, member accesses and index
/// brackets, applied left to right to `e`.
pub open spec fn spec_call_rest(ts: Seq<SpecToken>, pos: int, e: SpecExpr) -> PResult<SpecExpr>
    decreases ts.len() - pos, 6int,
{
    if spec_tok(ts, pos).kind == TokenKind::LeftParen {
        match spec_call_args(ts, pos + 1) {
            Ok((args, p2)) => if pos < p2 <= ts.len() {
                spec_call_rest(ts, p2, SpecExpr::Call { callee: Box::new(e), args })
            } else {
                Err(spec_stall(ts, pos))
            },
            Err(er) => Err(er),
        }
    } else if spec_tok(ts, pos).kind == TokenKind::Dot {
        if spec_tok(ts, pos + 1).kind == TokenKind::Identifier {
            if pos + 2 <= ts.len() {
                spec_call_rest(
                    ts,
                    pos + 2,
                    SpecExpr::Member { object: Box::new(e), property: spec_tok(ts, pos + 1).lexeme },
                )
            } else {
                Err(spec_stall(ts, pos))
            }
        } else {
            Err(spec_perr("Expected property name after '.'"@, spec_tok(ts, pos + 1)))
        }
    } else if spec_tok(ts, pos).kind == TokenKind::LeftBracket {
        match spec_expression(ts, pos + 1) {
            Ok((ix, p2)) => if pos < p2 <= ts.len() {
                if spec_tok(ts, p2).kind == TokenKind::RightBracket {
                    if p2 + 1 <= ts.len() {
                        spec_call_rest(
                            ts,
                            p2 + 1,
                            SpecExpr::Index { object: Box::new(e), index: Box::new(ix) },
                        )
                    } else {
                        Err(spec_stall(ts, p2))
                    }
                } else {
                    Err(spec_perr("Expected ']' after array index"@, spec_tok(ts, p2)))
                }
            } else {
                Err(spec_stall(ts, pos))
            },
            Err(er) => Err(er),
        }
    } else {
        Ok((e, pos))
    }
}

/// A primary followed by its postfix chain.
pub open spec fn spec_call(ts: Seq<SpecToken>, pos: int) -> PResult<SpecExpr>
    decreases ts.len() - pos, 7int,
{
    match spec_primary(ts, pos) {
        Ok((e, p2)) => if pos <= p2 <= ts.len() {
            spec_call_rest(ts, p2, e)
        } else {
            Err(spec_stall(ts, pos))
        },
        Err(er) => Err(er),
    }
}

/// A unary expression: any number of `await` prefixes over a postfix
/// chain.
pub open spec fn spec_unary(ts: Seq<SpecToken>, pos: int) -> PResult<SpecExpr>
    decreases ts.len() - pos, 8int,
{
    if spec_tok(ts, pos).kind == TokenKind::Await {
        match spec_unary(ts, pos + 1) {
            Ok((e, p2)) => Ok((SpecExpr::Await(Box::new(e)), p2)),
            Err(er) => Err(er),
        }
    } else {
        spec_call(ts, pos)
    }
}

/// The multiplicative operator a token denotes, if any.
pub open spec fn spec_factor_op(k: TokenKind) -> Option<BinaryOp> {
    if k == TokenKind::Slash {
        Some(BinaryOp::Div)
    } else if k == TokenKind::Star {
        Some(BinaryOp::Mul)
    } else if k == TokenKind::Percent {
        Some(BinaryOp::Mod)
    } else {
        None
    }
}

/// The rest of a multiplicative chain to the left-folded `e`.
pub open spec fn spec_factor_rest(ts: Seq<SpecToken>, pos: int, e: SpecExpr) -> PResult<SpecExpr>
    decreases ts.len() - pos, 9int,
{
    match spec_factor_op(spec_tok(ts, pos).kind) {
        Some(op) => match spec_unary(ts, pos + 1) {
            Ok((r, p2)) => if pos < p2 <= ts.len() {
                spec_factor_rest(
                    ts,
                    p2,
                    SpecExpr::Binary { left: Box::new(e), operator: op, right: Box::new(r) },
                )
            } else {
                Err(spec_stall(ts, pos))
            },
            Err(er) => Err(er),
        },
        None => Ok((e, pos)),
    }
}

/// A multiplicative chain: unary expressions joined by `*`, `/` and `%`.
pub open spec fn spec_factor(ts: Seq<SpecToken>, pos: int) -> PResult<SpecExpr>
    decreases ts.len() - pos, 10int,
{
    match spec_unary(ts, pos) {
        Ok((e, p2)) => if pos <= p2 <= ts.len() {
            spec_factor_rest(ts, p2, e)
        } else {
            Err(spec_stall(ts, pos))
        },
        Err(er) => Err(er),
    }
}

/// The additive operator a token denotes, if any.
pub open spec fn spec_term_op(k: TokenKind) -> Option<BinaryOp> {
    if k == TokenKind::Minus {
        Some(BinaryOp::Sub)
    } else if k == TokenKind::Plus {
        Some(BinaryOp::Add)
    } else {
        None
    }
}

/// The rest of an additive chain to the left-folded `e`.
pub open spec fn spec_term_rest(ts: Seq<SpecToken>, pos: int, e: SpecExpr) -> PResult<SpecExpr>
    decreases ts.len() - pos, 11int,
{
    match spec_term_op(spec_tok(ts, pos).kind) {
        Some(op) => match spec_factor(ts, pos + 1) {
            Ok((r, p2)) => if pos < p2 <= ts.len() {
                spec_term_rest(
                    ts,
                    p2,
                    SpecExpr::Binary { left: Box::new(e), operator: op, right: Box::new(r) },
                )
            } else {
                Err(spec_stall(ts, pos))
            },
            Err(er) => Err(er),
        },
        None => Ok((e, pos)),
    }
}

/// An additive chain: multiplicative chains joined by `+` and `-`.
pub open spec fn spec_term(ts: Seq<SpecToken>, pos: int) -> PResult<SpecExpr>
    decreases ts.len() - pos, 12int,
{
    match spec_factor(ts, pos) {
        Ok((e, p2)) => if pos <= p2 <= ts.len() {
            spec_term_rest(ts, p2, e)
        } else {
            Err(spec_stall(ts, pos))
        },
        Err(er) => Err(er),
    }
}

/// The relational operator a token denotes, if any.
pub open spec fn spec_comparison_op(k: TokenKind) -> Option<BinaryOp> {
    if k == TokenKind::Greater {
        Some(BinaryOp::Greater)
    } else if k == TokenKind::GreaterEqual {
        Some(BinaryOp::GreaterEqual)
    } else if k == TokenKind::Less {
        Some(BinaryOp::Less)
    } else if k == TokenKind::LessEqual {
        Some(BinaryOp::LessEqual)
    } else {
        None
    }
}

/// The rest of a relational chain to the left-folded `e`.
pub open spec fn spec_comparison_rest(ts: Seq<SpecToken>, pos: int, e: SpecExpr) -> PResult<
    SpecExpr,
>
    decreases ts.len() - pos, 13int,
{
    match spec_comparison_op(spec_tok(ts, pos).kind) {
        Some(op) => match spec_term(ts, pos + 1) {
            Ok((r, p2)) => if pos < p2 <= ts.len() {
                spec_comparison_rest(
                    ts,
                    p2,
                    SpecExpr::Binary { left: Box::new(e), operator: op, right: Box::new(r) },
                )
            } else {
                Err(spec_stall(ts, pos))
            },
            Err(er) => Err(er),
        },
        None => Ok((e, pos)),
    }
}

/// A relational chain: additive chains joined by `<`, `>`, `<=` and `>=`.
pub open spec fn spec_comparison(ts: Seq<SpecToken>, pos: int) -> PResult<SpecExpr>
    decreases ts.len() - pos, 14int,
{
    match spec_term(ts, pos) {
        Ok((e, p2)) => if pos <= p2 <= ts.len() {
            spec_comparison_rest(ts, p2, e)
        } else {
            Err(spec_stall(ts, pos))
        },
        Err(er) => Err(er),
    }
}

/// The equality operator a token denotes, if any.
pub open spec fn spec_equality_op(k: TokenKind) -> Option<BinaryOp> {
    if k == TokenKind::BangEqual {
        Some(BinaryOp::NotEqual)
    } else if k == TokenKind::EqualEqual {
        Some(BinaryOp::Equal)
    } else {
        None
    }
}

/// The rest of an equality chain to the left-folded `e`.
pub open spec fn spec_equality_rest(ts: Seq<SpecToken>, pos: int, e: SpecExpr) -> PResult<SpecExpr>
    decreases ts.len() - pos, 15int,
{
    match spec_equality_op(spec_tok(ts, pos).kind) {
        Some(op) => match spec_comparison(ts, pos + 1) {
            Ok((r, p2)) => if pos < p2 <= ts.len() {
                spec_equality_rest(
                    ts,
                    p2,
                    SpecExpr::Binary { left: Box::new(e), operator: op, right: Box::new(r) },
                )
            } else {
                Err(spec_stall(ts, pos))
            },
            Err(er) => Err(er),
        },
        None => Ok((e, pos)),
    }
}

/// An equality chain: relational chains joined by `==` and `!=`.
pub open spec fn spec_equality(ts: Seq<SpecToken>, pos: int) -> PResult<SpecExpr>
    decreases ts.len() - pos, 16int,
{
    match spec_comparison(ts, pos) {
        Ok((e, p2)) => if pos <= p2 <= ts.len() {
            spec_equality_rest(ts, p2, e)
        } else {
            Err(spec_stall(ts, pos))
        },
        Err(er) => Err(er),
    }
}

/// The rest of a logical-and chain to the left-folded `e`.
pub open spec fn spec_and_rest(ts: Seq<SpecToken>, pos: int, e: SpecExpr) -> PResult<SpecExpr>
    decreases ts.len() - pos, 17int,
{
    if spec_tok(ts, pos).kind == TokenKind::AndAnd {
        match spec_equality(ts, pos + 1) {
            Ok((r, p2)) => if pos < p2 <= ts.len() {
                spec_and_rest(
                    ts,
                    p2,
                    SpecExpr::Binary {
                        left: Box::new(e),
                        operator: BinaryOp::And,
                        right: Box::new(r),
                    },
                )
            } else {
                Err(spec_stall(ts, pos))
            },
            Err(er) => Err(er),
        }
    } else {
        Ok((e, pos))
    }
}

/// A logical-and chain: equality chains joined by `&&`.
pub open spec fn spec_and(ts: Seq<SpecToken>, pos: int) -> PResult<SpecExpr>
    decreases ts.len() - pos, 18int,
{
    match spec_equality(ts, pos) {
        Ok((e, p2)) => if pos <= p2 <= ts.len() {
            spec_and_rest(ts, p2, e)
        } else {
            Err(spec_stall(ts, pos))
        },
        Err(er) => Err(er),
    }
}

/// The rest of a logical-or chain to the left-folded `e`.
pub open spec fn spec_or_rest(ts: Seq<SpecToken>, pos: int, e: SpecExpr) -> PResult<SpecExpr>
    decreases ts.len() - pos, 19int,
{
    if spec_tok(ts, pos).kind == TokenKind::OrOr {
        match spec_and(ts, pos + 1) {
            Ok((r, p2)) => if pos < p2 <= ts.len() {
                spec_or_rest(
                    ts,
                    p2,
                    SpecExpr::Binary {
                        left: Box::new(e),
                        operator: BinaryOp::Or,
                        right: Box::new(r),
                    },
                )
            } else {
                Err(spec_stall(ts, pos))
            },
            Err(er) => Err(er),
        }
    } else {
        Ok((e, pos))
    }
}

/// A logical-or chain: logical-and chains joined by `||`.
pub open spec fn spec_or(ts: Seq<SpecToken>, pos: int) -> PResult<SpecExpr>
    decreases ts.len() - pos, 20int,
{
    match spec_and(ts, pos) {
        Ok((e, p2)) => if pos <= p2 <= ts.len() {
            spec_or_rest(ts, p2, e)
        } else {
            Err(spec_stall(ts, pos))
        },
        Err(er) => Err(er),
    }
}

/// An assignment: right-associative, and legal only when the left side
/// parsed as a bare identifier; after an `=` that follows any other
/// expression the left side is returned unchanged, with the `=` consumed.
pub open spec fn spec_assignment(ts: Seq<SpecToken>, pos: int) -> PResult<SpecExpr>
    decreases ts.len() - pos, 24int,
{
    match spec_or(ts, pos) {
        Ok((e, p2)) => if pos <= p2 <= ts.len() {
            if spec_tok(ts, p2).kind == TokenKind::Equal {
                match e {
                    SpecExpr::Identifier(name) => match spec_assignment(ts, p2 + 1) {
                        Ok((v, p3)) => Ok(
                            (SpecExpr::Assignment { target: name, value: Box::new(v) }, p3),
                        ),
                        Err(er) => Err(er),
                    },
                    _ => Ok((e, p2 + 1)),
                }
            } else {
                Ok((e, p2))
            }
        } else {
            Err(spec_stall(ts, pos))
        },
        Err(er) => Err(er),
    }
}

/// An expression.
pub open spec fn spec_expression(ts: Seq<SpecToken>, pos: int) -> PResult<SpecExpr>
    decreases ts.len() - pos, 25int,
{
    spec_assignment(ts, pos)
}

/// A comma-separated parameter-name list followed by nothing it consumes:
/// the names and the position after the last one.
pub open spec fn spec_params(ts: Seq<SpecToken>, pos: int) -> PResult<Seq<Seq<char>>>
    decreases ts.len() - pos,
{
    let t = spec_tok(ts, pos);
    if t.kind != TokenKind::Identifier {
        Err(spec_perr("Expected parameter name"@, t))
    } else if spec_tok(ts, pos + 1).kind == TokenKind::Comma {
        if pos + 2 <= ts.len() {
            match spec_params(ts, pos + 2) {
                Ok((rest, p2)) => Ok((seq![t.lexeme] + rest, p2)),
                Err(er) => Err(er),
            }
        } else {
            Err(spec_stall(ts, pos))
        }
    } else {
        Ok((seq![t.lexeme], pos + 1))
    }
}

/// A variable declaration, just after its `let`, `const` or `var` keyword:
/// a name, an optional `=` initializer, and an optional semicolon.
pub open spec fn spec_var_declaration(ts: Seq<SpecToken>, pos: int, is_const: bool) -> PResult<
    SpecStmt,
>
    decreases ts.len() - pos, 29int,
{
    let t = spec_tok(ts, pos);
    if t.kind != TokenKind::Identifier {
        Err(spec_perr("Expected variable name"@, t))
    } else if spec_tok(ts, pos + 1).kind == TokenKind::Equal {
        match spec_expression(ts, pos + 2) {
            Ok((v, p2)) => Ok(
                (
                    SpecStmt::VarDeclaration { name: t.lexeme, value: Some(v), is_const },
                    spec_skip_semi(ts, p2),
                ),
            ),
            Err(er) => Err(er),
        }
    } else {
        Ok(
            (
                SpecStmt::VarDeclaration { name: t.lexeme, value: None, is_const },
                spec_skip_semi(ts, pos + 1),
            ),
        )
    }
}

/// A function declaration, just after its `function` keyword: a name, a
/// parenthesized parameter list, and a braced body.
pub open spec fn spec_function_declaration(ts: Seq<SpecToken>, pos: int) -> PResult<SpecStmt>
    decreases ts.len() - pos, 29int,
{
    let t = spec_tok(ts, pos);
    if t.kind != TokenKind::Identifier {
        Err(spec_perr("Expected function name"@, t))
    } else if spec_tok(ts, pos + 1).kind != TokenKind::LeftParen {
        Err(spec_perr("Expected '(' after function name"@, spec_tok(ts, pos + 1)))
    } else {
        let after = if spec_tok(ts, pos + 2).kind == TokenKind::RightParen {
            Ok((Seq::<Seq<char>>::empty(), pos + 2))
        } else if pos + 2 <= ts.len() {
            spec_params(ts, pos + 2)
        } else {
            Err(spec_stall(ts, pos))
        };
        match after {
            Ok((params, p2)) => if spec_tok(ts, p2).kind != TokenKind::RightParen {
                Err(spec_perr("Expected ')' after parameters"@, spec_tok(ts, p2)))
            } else if spec_tok(ts, p2 + 1).kind != TokenKind::LeftBrace {
                Err(spec_perr("Expected '{' before function body"@, spec_tok(ts, p2 + 1)))
            } else if pos < p2 + 2 <= ts.len() {
                match spec_block_items(ts, p2 + 2) {
                    Ok((body, p3)) => Ok(
                        (
                            SpecStmt::FunctionDeclaration {
                                name: t.lexeme,
                                params,
                                body,
                                is_async: false,
                            },
                            p3,
                        ),
                    ),
                    Err(er) => Err(er),
                }
            } else {
                Err(spec_stall(ts, p2))
            },
            Err(er) => Err(er),
        }
    }
}

/// An `if` statement, just after its keyword: a parenthesized condition, a
/// statement, and an optional `else` statement.
pub open spec fn spec_if_statement(ts: Seq<SpecToken>, pos: int) -> PResult<SpecStmt>
    decreases ts.len() - pos, 29int,
{
    if spec_tok(ts, pos).kind != TokenKind::LeftParen {
        Err(spec_perr("Expected '(' after 'if'"@, spec_tok(ts, pos)))
    } else {
        match spec_expression(ts, pos + 1) {
            Ok((cond, p2)) => if pos < p2 <= ts.len() {
                if spec_tok(ts, p2).kind != TokenKind::RightParen {
                    Err(spec_perr("Expected ')' after if condition"@, spec_tok(ts, p2)))
                } else {
                    match spec_statement(ts, p2 + 1) {
                        Ok((then_branch, p3)) => if pos < p3 <= ts.len() {
                            if spec_tok(ts, p3).kind == TokenKind::Else {
                                match spec_statement(ts, p3 + 1) {
                                    Ok((else_branch, p4)) => Ok(
                                        (
                                            SpecStmt::If {
                                                condition: cond,
                                                then_branch: Box::new(then_branch),
                                                else_branch: Some(Box::new(else_branch)),
                                            },
                                            p4,
                                        ),
                                    ),
                                    Err(er) => Err(er),
                                }
                            } else {
                                Ok(
                                    (
                                        SpecStmt::If {
                                            condition: cond,
                                            then_branch: Box::new(then_branch),
                                            else_branch: None,
                                        },
                                        p3,
                                    ),
                                )
                            }
                        } else {
                            Err(spec_stall(ts, p2))
                        },
                        Err(er) => Err(er),
                    }
                }
            } else {
                Err(spec_stall(ts, pos))
            },
            Err(er) => Err(er),
        }
    }
}

/// A `while` statement, just after its keyword: a parenthesized condition
/// and a body statement.
pub open spec fn spec_while_statement(ts: Seq<SpecToken>, pos: int) -> PResult<SpecStmt>
    decreases ts.len() - pos, 29int,
{
    if spec_tok(ts, pos).kind != TokenKind::LeftParen {
        Err(spec_perr("Expected '(' after 'while'"@, spec_tok(ts, pos)))
    } else {
        match spec_expression(ts, pos + 1) {
            Ok((cond, p2)) => if pos < p2 <= ts.len() {
                if spec_tok(ts, p2).kind != TokenKind::RightParen {
                    Err(spec_perr("Expected ')' after while condition"@, spec_tok(ts, p2)))
                } else {
                    match spec_statement(ts, p2 + 1) {
                        Ok((body, p3)) => Ok(
                            (SpecStmt::While { condition: cond, body: Box::new(body) }, p3),
                        ),
                        Err(er) => Err(er),
                    }
                }
            } else {
                Err(spec_stall(ts, pos))
            },
            Err(er) => Err(er),
        }
    }
}

/// A `return` statement, just after its keyword: an optional value, absent
/// where a semicolon or newline directly follows, and an optional
/// semicolon.
pub open spec fn spec_return_statement(ts: Seq<SpecToken>, pos: int) -> PResult<SpecStmt>
    decreases ts.len() - pos, 29int,
{
    let k = spec_tok(ts, pos).kind;
    if k == TokenKind::Semicolon || k == TokenKind::Newline {
        Ok((SpecStmt::Return(None), spec_skip_semi(ts, pos)))
    } else {
        match spec_expression(ts, pos) {
            Ok((v, p2)) => Ok((SpecStmt::Return(Some(v)), spec_skip_semi(ts, p2))),
            Err(er) => Err(er),
        }
    }
}

/// The optional parenthesized parameter after `catch`: absent where no
/// parenthesis or an empty pair stands there.
pub open spec fn spec_catch_param(ts: Seq<SpecToken>, pos: int) -> PResult<Option<Seq<char>>> {
    if spec_tok(ts, pos).kind != TokenKind::LeftParen {
        Ok((None, pos))
    } else if spec_tok(ts, pos + 1).kind == TokenKind::Identifier {
        if spec_tok(ts, pos + 2).kind == TokenKind::RightParen {
            Ok((Some(spec_tok(ts, pos + 1).lexeme), pos + 3))
        } else {
            Err(spec_perr("Expected ')' after catch parameter"@, spec_tok(ts, pos + 2)))
        }
    } else if spec_tok(ts, pos + 1).kind == TokenKind::RightParen {
        Ok((None, pos + 2))
    } else {
        Err(spec_perr("Expected ')' after catch parameter"@, spec_tok(ts, pos + 1)))
    }
}

/// A `try` statement, just after its keyword: a braced body, then an
/// optional `catch` with an optional parenthesized parameter and a braced
/// handler. `try` without `catch` is legal.
pub open spec fn spec_try_statement(ts: Seq<SpecToken>, pos: int) -> PResult<SpecStmt>
    decreases ts.len() - pos, 29int,
{
    if spec_tok(ts, pos).kind != TokenKind::LeftBrace {
        Err(spec_perr("Expected '{' after 'try'"@, spec_tok(ts, pos)))
    } else {
        match spec_block_items(ts, pos + 1) {
            Ok((body, p2)) => if pos < p2 <= ts.len() {
                if spec_tok(ts, p2).kind != TokenKind::Catch {
                    Ok(
                        (
                            SpecStmt::Try {
                                try_block: Box::new(SpecStmt::Block(body)),
                                catch_param: None,
                                catch_block: None,
                            },
                            p2,
                        ),
                    )
                } else {
                    match spec_catch_param(ts, p2 + 1) {
                        Ok((catch_param, p3)) => if spec_tok(ts, p3).kind != TokenKind::LeftBrace {
                            Err(spec_perr("Expected '{' after catch"@, spec_tok(ts, p3)))
                        } else if pos < p3 + 1 <= ts.len() {
                            match spec_block_items(ts, p3 + 1) {
                                Ok((handler, p4)) => Ok(
                                    (
                                        SpecStmt::Try {
                                            try_block: Box::new(SpecStmt::Block(body)),
                                            catch_param,
                                            catch_block: Some(
                                                Box::new(SpecStmt::Block(handler)),
                                            ),
                                        },
                                        p4,
                                    ),
                                ),
                                Err(er) => Err(er),
                            }
                        } else {
                            Err(spec_stall(ts, p3))
                        },
                        Err(er) => Err(er),
                    }
                }
            } else {
                Err(spec_stall(ts, pos))
            },
            Err(er) => Err(er),
        }
    }
}

/// A `throw` statement, just after its keyword: the thrown expression and
/// an optional semicolon.
pub open spec fn spec_throw_statement(ts: Seq<SpecToken>, pos: int) -> PResult<SpecStmt>
    decreases ts.len() - pos, 29int,
{
    match spec_expression(ts, pos) {
        Ok((v, p2)) => Ok((SpecStmt::Throw(v), spec_skip_semi(ts, p2))),
        Err(er) => Err(er),
    }
}

/// The statements of a brace-delimited block, just after its opening brace,
/// and the closing brace. Newlines and stray semicolons between
/// statements are skippable noise.
pub open spec fn spec_block_items(ts: Seq<SpecToken>, pos: int) -> PResult<Seq<SpecStmt>>
    decreases ts.len() - pos, 35int,
{
    let k = spec_tok(ts, pos).kind;
    if k == TokenKind::RightBrace {
        Ok((Seq::empty(), pos + 1))
    } else if k == TokenKind::Eof {
        Err(spec_perr("Expected '}' after block"@, spec_tok(ts, pos)))
    } else if k == TokenKind::Newline || k == TokenKind::Semicolon {
        if pos + 1 <= ts.len() {
            spec_block_items(ts, pos + 1)
        } else {
            Err(spec_stall(ts, pos))
        }
    } else {
        match spec_statement(ts, pos) {
            Ok((s, p2)) => if pos < p2 <= ts.len() {
                match spec_block_items(ts, p2) {
                    Ok((rest, p3)) => Ok((seq![s] + rest, p3)),
                    Err(er) => Err(er),
                }
            } else {
                Err(spec_stall(ts, pos))
            },
            Err(er) => Err(er),
        }
    }
}

/// One statement, dispatched on its leading keyword; anything else parses
/// as an expression statement.
pub open spec fn spec_statement(ts: Seq<SpecToken>, pos: int) -> PResult<SpecStmt>
    decreases ts.len() - pos, 30int,
{
    let k = spec_tok(ts, pos).kind;
    if k == TokenKind::Let || k == TokenKind::Const || k == TokenKind::Var {
        match spec_var_declaration(ts, pos + 1, k == TokenKind::Const) {
            Ok((s, p2)) => Ok((s, p2)),
            Err(er) => Err(er),
        }
    } else if k == TokenKind::Function {
        spec_function_declaration(ts, pos + 1)
    } else if k == TokenKind::If {
        spec_if_statement(ts, pos + 1)
    } else if k == TokenKind::While {
        spec_while_statement(ts, pos + 1)
    } else if k == TokenKind::Return {
        spec_return_statement(ts, pos + 1)
    } else if k == TokenKind::Try {
        spec_try_statement(ts, pos + 1)
    } else if k == TokenKind::Throw {
        spec_throw_statement(ts, pos + 1)
    } else if k == TokenKind::LeftBrace {
        match spec_block_items(ts, pos + 1) {
            Ok((stmts, p2)) => Ok((SpecStmt::Block(stmts), p2)),
            Err(er) => Err(er),
        }
    } else {
        match spec_expression(ts, pos) {
            Ok((e, p2)) => Ok((SpecStmt::Expression(e), spec_skip_semi(ts, p2))),
            Err(er) => Err(er),
        }
    }
}

/// The whole program: statements up to the end-of-input sentinel, with
/// newlines and stray semicolons between them skippable noise.
pub open spec fn spec_program(ts: Seq<SpecToken>, pos: int) -> PResult<Seq<SpecStmt>>
    decreases ts.len() - pos, 40int,
{
    let k = spec_tok(ts, pos).kind;
    if k == TokenKind::Eof {
        Ok((Seq::empty(), pos))
    } else if k == TokenKind::Newline || k == TokenKind::Semicolon {
        if pos + 1 <= ts.len() {
            spec_program(ts, pos + 1)
        } else {
            Err(spec_stall(ts, pos))
        }
    } else {
        match spec_statement(ts, pos) {
            Ok((s, p2)) => if pos < p2 <= ts.len() {
                match spec_program(ts, p2) {
                    Ok((rest, p3)) => Ok((seq![s] + rest, p3)),
                    Err(er) => Err(er),
                }
            } else {
                Err(spec_stall(ts, pos))
            },
            Err(er) => Err(er),
        }
    }
}

/// The ordered statement sequence of a token sequence, or the first unmet
/// grammar expectation.
pub open spec fn spec_parse(ts: Seq<SpecToken>) -> Result<Seq<SpecStmt>, SpecError> {
    match spec_program(ts, 0) {
        Ok((stmts, _)) => Ok(stmts),
        Err(er) => Err(er),
    }
}

/// The token sequence holds the end-of-input sentinel somewhere at or after
/// `pos`.
pub open spec fn spec_has_eof_from(ts: Seq<SpecToken>, pos: int) -> bool {
    exists|i: int| pos <= i < ts.len() && ts[i].kind == TokenKind::Eof
}

/// The parser's working state: the tokens and the current position.
pub struct Parser {
    tokens: Vec<Token>,
    current: usize,
}

/// An exact copy of one token.
fn clone_token(t: &Token) -> (r: Token)
    ensures
        r@ == t@,
{
    Token { kind: t.kind, lexeme: t.lexeme.clone(), line: t.line }
}

impl Parser {
    /// The views of the tokens this parser reads.
    pub closed spec fn toks(self) -> Seq<SpecToken> {
        spec_tokens_view(self.tokens@)
    }

    /// The current position.
    pub closed spec fn pos(self) -> int {
        self.current as int
    }

    /// The parser's state is consistent: the position lies inside the
    /// tokens and the end-of-input sentinel still lies ahead.
    pub closed spec fn wf(self) -> bool {
        &&& self.current < self.tokens@.len()
        &&& spec_has_eof_from(self.toks(), self.current as int)
    }

    /// A fresh parser over `tokens`, at the start. The tokens must hold the
    /// end-of-input sentinel, as the lexer always provides.
    pub fn new(tokens: Vec<Token>) -> (r: Parser)
        ensures
            r.toks() == spec_tokens_view(tokens@),
            r.pos() == 0,
            spec_has_eof_from(spec_tokens_view(tokens@), 0) ==> r.wf(),
    {
        let r = Parser { tokens, current: 0 };
        proof {
            if spec_has_eof_from(r.toks(), 0) {
                let i = choose|i: int| 0 <= i < r.toks().len() && r.toks()[i].kind
                    == TokenKind::Eof;
                assert(r.tokens@.len() > 0);
            }
        }
        r
    }

    /// Whether the current token is the end-of-input sentinel.
    fn is_at_end(&self) -> (r: bool)
        requires
            self.wf(),
        ensures
            r == (spec_tok(self.toks(), self.pos()).kind == TokenKind::Eof),
    {
        proof {
            assert(self.toks()[self.current as int] == self.tokens@[self.current as int]@);
        }
        self.tokens[self.current].kind == TokenKind::Eof
    }

    /// The current token.
    fn peek(&self) -> (r: &Token)
        requires
            self.wf(),
        ensures
            r@ == spec_tok(self.toks(), self.pos()),
    {
        proof {
            assert(self.toks()[self.current as int] == self.tokens@[self.current as int]@);
        }
        &self.tokens[self.current]
    }

    /// Whether the current token has the given kind; false at the
    /// end-of-input sentinel.
    fn check(&self, kind: TokenKind) -> (r: bool)
        requires
            self.wf(),
        ensures
            r == (spec_tok(self.toks(), self.pos()).kind == kind && spec_tok(
                self.toks(),
                self.pos(),
            ).kind != TokenKind::Eof),
    {
        if self.is_at_end() {
            false
        } else {
            self.peek().kind == kind
        }
    }

    /// Consumes the current token, unless it is the end-of-input sentinel.
    fn advance(&mut self)
        requires
            old(self).wf(),
        ensures
            final(self).toks() == old(self).toks(),
            final(self).wf(),
            final(self).pos() == if spec_tok(old(self).toks(), old(self).pos()).kind
                == TokenKind::Eof {
                old(self).pos()
            } else {
                old(self).pos() + 1
            },
    {
        if !self.is_at_end() {
            proof {
                let ts = self.toks();
                let i = choose|i: int|
                    self.current as int <= i < ts.len() && ts[i].kind == TokenKind::Eof;
                assert(spec_has_eof_from(ts, self.current as int + 1));
            }
            let n = self.tokens.len();
            self.current = self.current + 1;
        }
    }

    /// Consumes the current token exactly when it has the given kind.
    fn match_token(&mut self, kind: TokenKind) -> (r: bool)
        requires
            old(self).wf(),
        ensures
            final(self).toks() == old(self).toks(),
            final(self).wf(),
            r == (spec_tok(old(self).toks(), old(self).pos()).kind == kind && spec_tok(
                old(self).toks(),
                old(self).pos(),
            ).kind != TokenKind::Eof),
            final(self).pos() == if r {
                old(self).pos() + 1
            } else {
                old(self).pos()
            },
    {
        if self.check(kind) {
            self.advance();
            true
        } else {
            false
        }
    }

    /// Consumes and returns the current token where it has the given kind,
    /// and otherwise fails with `message` at the offending token.
    fn consume(&mut self, kind: TokenKind, message: &str) -> (r: Result<Token, ZanoError>)
        requires
            old(self).wf(),
        ensures
            final(self).toks() == old(self).toks(),
            final(self).wf(),
            if spec_tok(old(self).toks(), old(self).pos()).kind == kind && spec_tok(
                old(self).toks(),
                old(self).pos(),
            ).kind != TokenKind::Eof {
                &&& r matches Ok(t) && t@ == spec_tok(old(self).toks(), old(self).pos())
                &&& final(self).pos() == old(self).pos() + 1
            } else {
                &&& r matches Err(e) && e@ == spec_perr(
                    message@,
                    spec_tok(old(self).toks(), old(self).pos()),
                )
                &&& final(self).pos() == old(self).pos()
            },
    {
        if self.check(kind) {
            let t = clone_token(self.peek());
            self.advance();
            Ok(t)
        } else {
            let token = clone_token(self.peek());
            Err(ZanoError::ParseError { message: message.to_owned(), token })
        }
    }

    /// Consumes a semicolon where one stands.
    fn consume_semicolon(&mut self)
        requires
            old(self).wf(),
        ensures
            final(self).toks() == old(self).toks(),
            final(self).wf(),
            final(self).pos() == spec_skip_semi(old(self).toks(), old(self).pos()),
            old(self).pos() <= final(self).pos() <= old(self).toks().len(),
    {
        if self.check(TokenKind::Semicolon) {
            self.advance();
        }
    }

    /// Consumes the newline tokens that stand at the current position.
    fn skip_newlines(&mut self)
        requires
            old(self).wf(),
        ensures
            final(self).toks() == old(self).toks(),
            final(self).wf(),
            final(self).pos() == spec_skip_newlines(old(self).toks(), old(self).pos()),
            old(self).pos() <= final(self).pos() <= old(self).toks().len(),
    {
        let ghost ts = self.toks();
        let ghost p0 = self.pos();
        while self.check(TokenKind::Newline)
            invariant
                self.wf(),
                self.toks() == ts,
                p0 <= self.pos() <= ts.len(),
                spec_skip_newlines(ts, p0) == spec_skip_newlines(ts, self.pos()),
            decreases ts.len() - self.pos(),
        {
            self.advance();
        }
    }
}

/// Whether a string holds exactly the given text.
fn lexeme_is(s: &String, lit: &str) -> (r: bool)
    ensures
        r == (s@ == lit@),
{
    *s == lit.to_owned()
}

impl Parser {
    /// A primary expression: a literal, an identifier, a parenthesized
    /// expression, an array literal or an object literal.
    #[verifier::rlimit(100)]
    #[verifier::spinoff_prover]
    fn primary(&mut self) -> (r: Result<Expression, ZanoError>)
        requires
            old(self).wf(),
        ensures
            final(self).toks() == old(self).toks(),
            final(self).wf(),
            match spec_primary(old(self).toks(), old(self).pos()) {
                Ok((e, p2)) => {
                    &&& r matches Ok(x) && x@ == e
                    &&& final(self).pos() == p2
                    &&& old(self).pos() < p2 <= old(self).toks().len()
                },
                Err(er) => r matches Err(x) && x@ == er,
            },
        decreases old(self).toks().len() - old(self).pos(), 5int,
    {
        let ghost ts = self.toks();
        let ghost p0 = self.pos();
        let k = self.peek().kind;
        if k == TokenKind::Boolean {
            let lex = self.peek().lexeme.clone();
            self.advance();
            let b = lexeme_is(&lex, "true");
            Ok(Expression::Literal(ZanoValue::Boolean(b)))
        } else if k == TokenKind::Null {
            self.advance();
            Ok(Expression::Literal(ZanoValue::Null))
        } else if k == TokenKind::Undefined {
            self.advance();
            Ok(Expression::Literal(ZanoValue::Undefined))
        } else if k == TokenKind::Number {
            let lex = self.peek().lexeme.clone();
            match apf_parse(lex.as_str()) {
                Some(bits) => {
                    self.advance();
                    Ok(Expression::Literal(ZanoValue::Number(bits)))
                },
                None => {
                    let token = clone_token(self.peek());
                    Err(ZanoError::ParseError { message: "Invalid number literal".to_owned(), token })
                },
            }
        } else if k == TokenKind::String {
            let lex = self.peek().lexeme.clone();
            self.advance();
            Ok(Expression::Literal(ZanoValue::String(lex)))
        } else if k == TokenKind::Identifier {
            let lex = self.peek().lexeme.clone();
            self.advance();
            Ok(Expression::Identifier(lex))
        } else if k == TokenKind::LeftParen {
            self.advance();
            let e = match self.expression() {
                Ok(e) => e,
                Err(er) => {
                    return Err(er);
                },
            };
            match self.consume(TokenKind::RightParen, "Expected ')' after expression") {
                Ok(_) => Ok(e),
                Err(er) => Err(er),
            }
        } else if k == TokenKind::LeftBracket {
            self.advance();
            let mut els: Vec<Expression> = Vec::new();
            match self.array_items(&mut els) {
                Ok(()) => {
                    proof {
                        assert(spec_exprs_view(Seq::<Expression>::empty()) =~= Seq::<
                            SpecExpr,
                        >::empty());
                        match spec_array_items(ts, p0 + 1) {
                            Ok((items, _)) => {
                                assert(Seq::<SpecExpr>::empty() + items =~= items);
                                assert(spec_exprs_of_vec(els) == spec_exprs_view(els@));
                                assert(spec_exprs_of_vec(els) == items);
                            },
                            Err(_) => {},
                        }
                    }
                    Ok(Expression::Array(els))
                },
                Err(er) => Err(er),
            }
        } else if k == TokenKind::LeftBrace {
            self.advance();
            let mut pairs: Vec<(String, Expression)> = Vec::new();
            match self.object_items(&mut pairs) {
                Ok(()) => {
                    proof {
                        assert(spec_expr_pairs_view(Seq::<(String, Expression)>::empty()) =~= Seq::<
                            (Seq<char>, SpecExpr),
                        >::empty());
                        match spec_object_items(ts, p0 + 1) {
                            Ok((items, _)) => {
                                assert(Seq::<(Seq<char>, SpecExpr)>::empty() + items =~= items);
                                assert(spec_expr_pairs_of_vec(pairs) == spec_expr_pairs_view(
                                    pairs@,
                                ));
                                assert(spec_expr_pairs_of_vec(pairs) == items);
                            },
                            Err(_) => {},
                        }
                    }
                    Ok(Expression::Object(pairs))
                },
                Err(er) => Err(er),
            }
        } else {
            let token = clone_token(self.peek());
            Err(ZanoError::ParseError { message: "Unexpected token".to_owned(), token })
        }
    }

    /// The elements of an array literal, just after its opening bracket,
    /// appended to `out`, and the closing bracket.
    fn array_items(&mut self, out: &mut Vec<Expression>) -> (r: Result<(), ZanoError>)
        requires
            old(self).wf(),
        ensures
            final(self).toks() == old(self).toks(),
            final(self).wf(),
            match spec_array_items(old(self).toks(), old(self).pos()) {
                Ok((els, p2)) => {
                    &&& r is Ok
                    &&& spec_exprs_view(final(out)@) == spec_exprs_view(old(out)@) + els
                    &&& final(self).pos() == p2
                    &&& old(self).pos() < p2 <= old(self).toks().len()
                },
                Err(er) => r matches Err(x) && x@ == er,
            },
        decreases old(self).toks().len() - old(self).pos(), 27int,
    {
        broadcast use crate::ast::group_ast_view_lemmas;

        if self.check(TokenKind::RightBracket) {
            self.advance();
            proof {
                assert(spec_exprs_view(out@) + Seq::<SpecExpr>::empty() =~= spec_exprs_view(out@));
            }
            Ok(())
        } else {
            self.array_elements(out)
        }
    }

    /// One or more comma-separated array elements, appended to `out`,
    /// followed by the closing bracket.
    #[verifier::rlimit(100)]
    #[verifier::spinoff_prover]
    fn array_elements(&mut self, out: &mut Vec<Expression>) -> (r: Result<(), ZanoError>)
        requires
            old(self).wf(),
        ensures
            final(self).toks() == old(self).toks(),
            final(self).wf(),
            match spec_array_elements(old(self).toks(), old(self).pos()) {
                Ok((els, p2)) => {
                    &&& r is Ok
                    &&& spec_exprs_view(final(out)@) == spec_exprs_view(old(out)@) + els
                    &&& final(self).pos() == p2
                    &&& old(self).pos() < p2 <= old(self).toks().len()
                },
                Err(er) => r matches Err(x) && x@ == er,
            },
        decreases old(self).toks().len() - old(self).pos(), 26int,
    {
        broadcast use crate::ast::group_ast_view_lemmas;

        let e = match self.expression() {
            Ok(e) => e,
            Err(er) => {
                return Err(er);
            },
        };
        let ghost mid = spec_exprs_view(out@).push(e@);
        out.push(e);
        proof {
            assert(spec_exprs_view(out@) =~= mid);
        }
        if self.match_token(TokenKind::Comma) {
            match self.array_elements(out) {
                Ok(()) => {
                    proof {
                        let els0 = spec_exprs_view(old(out)@);
                        let tail = spec_exprs_view(out@).skip(mid.len() as int);
                        assert(spec_exprs_view(out@) =~= mid + tail);
                        assert(mid + tail =~= els0 + (seq![mid[mid.len() - 1]] + tail));
                    }
                    Ok(())
                },
                Err(er) => Err(er),
            }
        } else {
            match self.consume(TokenKind::RightBracket, "Expected ']' after array elements") {
                Ok(_) => {
                    proof {
                        assert(spec_exprs_view(out@) =~= spec_exprs_view(old(out)@) + seq![
                            mid[mid.len() - 1],
                        ]);
                    }
                    Ok(())
                },
                Err(er) => Err(er),
            }
        }
    }

    /// The arguments of a call, just after its opening parenthesis,
    /// appended to `out`, and the closing parenthesis.
    fn call_args(&mut self, out: &mut Vec<Expression>) -> (r: Result<(), ZanoError>)
        requires
            old(self).wf(),
        ensures
            final(self).toks() == old(self).toks(),
            final(self).wf(),
            match spec_call_args(old(self).toks(), old(self).pos()) {
                Ok((els, p2)) => {
                    &&& r is Ok
                    &&& spec_exprs_view(final(out)@) == spec_exprs_view(old(out)@) + els
                    &&& final(self).pos() == p2
                    &&& old(self).pos() < p2 <= old(self).toks().len()
                },
                Err(er) => r matches Err(x) && x@ == er,
            },
        decreases old(self).toks().len() - old(self).pos(), 27int,
    {
        broadcast use crate::ast::group_ast_view_lemmas;

        if self.check(TokenKind::RightParen) {
            self.advance();
            proof {
                assert(spec_exprs_view(out@) + Seq::<SpecExpr>::empty() =~= spec_exprs_view(out@));
            }
            Ok(())
        } else {
            self.call_args_elements(out)
        }
    }

    /// One or more comma-separated arguments, appended to `out`, followed by
    /// the closing parenthesis.
    fn call_args_elements(&mut self, out: &mut Vec<Expression>) -> (r: Result<(), ZanoError>)
        requires
            old(self).wf(),
        ensures
            final(self).toks() == old(self).toks(),
            final(self).wf(),
            match spec_call_args_elements(old(self).toks(), old(self).pos()) {
                Ok((els, p2)) => {
                    &&& r is Ok
                    &&& spec_exprs_view(final(out)@) == spec_exprs_view(old(out)@) + els
                    &&& final(self).pos() == p2
                    &&& old(self).pos() < p2 <= old(self).toks().len()
                },
                Err(er) => r matches Err(x) && x@ == er,
            },
        decreases old(self).toks().len() - old(self).pos(), 26int,
    {
        broadcast use crate::ast::group_ast_view_lemmas;

        let e = match self.expression() {
            Ok(e) => e,
            Err(er) => {
                return Err(er);
            },
        };
        let ghost mid = spec_exprs_view(out@).push(e@);
        out.push(e);
        proof {
            assert(spec_exprs_view(out@) =~= mid);
        }
        if self.match_token(TokenKind::Comma) {
            match self.call_args_elements(out) {
                Ok(()) => {
                    proof {
                        let els0 = spec_exprs_view(old(out)@);
                        assert(spec_exprs_view(out@) =~= els0 + (seq![mid[mid.len() - 1]]
                            + spec_exprs_view(out@).skip(mid.len() as int)));
                    }
                    Ok(())
                },
                Err(er) => Err(er),
            }
        } else {
            match self.consume(TokenKind::RightParen, "Expected ')' after arguments") {
                Ok(_) => {
                    proof {
                        assert(spec_exprs_view(out@) =~= spec_exprs_view(old(out)@) + seq![
                            mid[mid.len() - 1],
                        ]);
                    }
                    Ok(())
                },
                Err(er) => Err(er),
            }
        }
    }

    /// The entries of an object literal, just after its opening brace,
    /// appended to `out`, and the closing brace.
    fn object_items(&mut self, out: &mut Vec<(String, Expression)>) -> (r: Result<(), ZanoError>)
        requires
            old(self).wf(),
        ensures
            final(self).toks() == old(self).toks(),
            final(self).wf(),
            match spec_object_items(old(self).toks(), old(self).pos()) {
                Ok((ps, p2)) => {
                    &&& r is Ok
                    &&& spec_expr_pairs_view(final(out)@) == spec_expr_pairs_view(old(out)@) + ps
                    &&& final(self).pos() == p2
                    &&& old(self).pos() < p2 <= old(self).toks().len()
                },
                Err(er) => r matches Err(x) && x@ == er,
            },
        decreases old(self).toks().len() - old(self).pos(), 27int,
    {
        broadcast use crate::ast::group_ast_view_lemmas;

        self.skip_newlines();
        if self.check(TokenKind::RightBrace) {
            self.advance();
            proof {
                assert(spec_expr_pairs_view(out@) + Seq::<(Seq<char>, SpecExpr)>::empty()
                    =~= spec_expr_pairs_view(out@));
            }
            Ok(())
        } else {
            self.object_entries(out)
        }
    }

    /// One or more comma-separated `key: value` entries, appended to `out`,
    /// followed by the closing brace.
    #[verifier::rlimit(100)]
    #[verifier::spinoff_prover]
    fn object_entries(&mut self, out: &mut Vec<(String, Expression)>) -> (r: Result<
        (),
        ZanoError,
    >)
        requires
            old(self).wf(),
        ensures
            final(self).toks() == old(self).toks(),
            final(self).wf(),
            match spec_object_entries(old(self).toks(), old(self).pos()) {
                Ok((ps, p2)) => {
                    &&& r is Ok
                    &&& spec_expr_pairs_view(final(out)@) == spec_expr_pairs_view(old(out)@) + ps
                    &&& final(self).pos() == p2
                    &&& old(self).pos() < p2 <= old(self).toks().len()
                },
                Err(er) => r matches Err(x) && x@ == er,
            },
        decreases old(self).toks().len() - old(self).pos(), 26int,
    {
        broadcast use crate::ast::group_ast_view_lemmas;

        self.skip_newlines();
        let kk = self.peek().kind;
        if !(kk == TokenKind::String || kk == TokenKind::Identifier) {
            let token = clone_token(self.peek());
            return Err(ZanoError::ParseError { message: "Expected property name".to_owned(), token });
        }
        let key = self.peek().lexeme.clone();
        self.advance();
        match self.consume(TokenKind::Colon, "Expected ':' after property name") {
            Ok(_) => {},
            Err(er) => {
                return Err(er);
            },
        }
        let v = match self.expression() {
            Ok(v) => v,
            Err(er) => {
                return Err(er);
            },
        };
        let ghost kv = (key@, v@);
        let ghost mid = spec_expr_pairs_view(out@).push(kv);
        out.push((key, v));
        proof {
            assert(spec_expr_pairs_view(out@) =~= mid);
        }
        self.skip_newlines();
        if self.match_token(TokenKind::Comma) {
            self.skip_newlines();
            match self.object_entries(out) {
                Ok(()) => {
                    proof {
                        let ps0 = spec_expr_pairs_view(old(out)@);
                        assert(spec_expr_pairs_view(out@) =~= ps0 + (seq![kv]
                            + spec_expr_pairs_view(out@).skip(mid.len() as int)));
                    }
                    Ok(())
                },
                Err(er) => Err(er),
            }
        } else {
            match self.consume(TokenKind::RightBrace, "Expected '}' after object properties") {
                Ok(_) => {
                    proof {
                        assert(spec_expr_pairs_view(out@) =~= spec_expr_pairs_view(old(out)@)
                            + seq![kv]);
                    }
                    Ok(())
                },
                Err(er) => Err(er),
            }
        }
    }

    /// The postfix chain after a primary: calls, member accesses and index
    /// brackets, applied left to right to `e`.
    #[verifier::rlimit(100)]
    #[verifier::spinoff_prover]
    fn call_rest(&mut self, e: Expression) -> (r: Result<Expression, ZanoError>)
        requires
            old(self).wf(),
        ensures
            final(self).toks() == old(self).toks(),
            final(self).wf(),
            match spec_call_rest(old(self).toks(), old(self).pos(), e@) {
                Ok((fe, p2)) => {
                    &&& r matches Ok(x) && x@ == fe
                    &&& final(self).pos() == p2
                    &&& old(self).pos() <= p2 <= old(self).toks().len()
                },
                Err(er) => r matches Err(x) && x@ == er,
            },
        decreases old(self).toks().len() - old(self).pos(), 6int,
    {
        let ghost ts = self.toks();
        let ghost p0 = self.pos();
        let ghost ev = e@;
        if self.match_token(TokenKind::LeftParen) {
            let mut args: Vec<Expression> = Vec::new();
            match self.call_args(&mut args) {
                Ok(()) => {
                    proof {
                        assert(spec_exprs_view(Seq::<Expression>::empty()) =~= Seq::<
                            SpecExpr,
                        >::empty());
                        match spec_call_args(ts, p0 + 1) {
                            Ok((items, _)) => {
                                assert(Seq::<SpecExpr>::empty() + items =~= items);
                                assert(spec_exprs_of_vec(args) == spec_exprs_view(args@));
                                assert(spec_exprs_of_vec(args) == items);
                            },
                            Err(_) => {},
                        }
                    }
                    let next = Expression::Call { callee: Box::new(e), args };
                    self.call_rest(next)
                },
                Err(er) => Err(er),
            }
        } else if self.match_token(TokenKind::Dot) {
            match self.consume(TokenKind::Identifier, "Expected property name after '.'") {
                Ok(t) => {
                    let next = Expression::Member { object: Box::new(e), property: t.lexeme };
                    self.call_rest(next)
                },
                Err(er) => Err(er),
            }
        } else if self.match_token(TokenKind::LeftBracket) {
            let ix = match self.expression() {
                Ok(ix) => ix,
                Err(er) => {
                    return Err(er);
                },
            };
            match self.consume(TokenKind::RightBracket, "Expected ']' after array index") {
                Ok(_) => {
                    let next = Expression::Index { object: Box::new(e), index: Box::new(ix) };
                    self.call_rest(next)
                },
                Err(er) => Err(er),
            }
        } else {
            Ok(e)
        }
    }

    /// A primary followed by its postfix chain.
    fn call(&mut self) -> (r: Result<Expression, ZanoError>)
        requires
            old(self).wf(),
        ensures
            final(self).toks() == old(self).toks(),
            final(self).wf(),
            match spec_call(old(self).toks(), old(self).pos()) {
                Ok((fe, p2)) => {
                    &&& r matches Ok(x) && x@ == fe
                    &&& final(self).pos() == p2
                    &&& old(self).pos() < p2 <= old(self).toks().len()
                },
                Err(er) => r matches Err(x) && x@ == er,
            },
        decreases old(self).toks().len() - old(self).pos(), 7int,
    {
        let e = match self.primary() {
            Ok(e) => e,
            Err(er) => {
                return Err(er);
            },
        };
        self.call_rest(e)
    }

    /// A unary expression: any number of `await` prefixes over a postfix
    /// chain.
    fn unary(&mut self) -> (r: Result<Expression, ZanoError>)
        requires
            old(self).wf(),
        ensures
            final(self).toks() == old(self).toks(),
            final(self).wf(),
            match spec_unary(old(self).toks(), old(self).pos()) {
                Ok((fe, p2)) => {
                    &&& r matches Ok(x) && x@ == fe
                    &&& final(self).pos() == p2
                    &&& old(self).pos() < p2 <= old(self).toks().len()
                },
                Err(er) => r matches Err(x) && x@ == er,
            },
        decreases old(self).toks().len() - old(self).pos(), 8int,
    {
        if self.match_token(TokenKind::Await) {
            match self.unary() {
                Ok(e) => Ok(Expression::Await(Box::new(e))),
                Err(er) => Err(er),
            }
        } else {
            self.call()
        }
    }
}

impl Parser {
    /// The rest of a multiplicative chain to the left-folded `e`.
    fn factor_rest(&mut self, e: Expression) -> (r: Result<Expression, ZanoError>)
        requires
            old(self).wf(),
        ensures
            final(self).toks() == old(self).toks(),
            final(self).wf(),
            match spec_factor_rest(old(self).toks(), old(self).pos(), e@) {
                Ok((fe, p2)) => {
                    &&& r matches Ok(x) && x@ == fe
                    &&& final(self).pos() == p2
                    &&& old(self).pos() <= p2 <= old(self).toks().len()
                },
                Err(er) => r matches Err(x) && x@ == er,
            },
        decreases old(self).toks().len() - old(self).pos(), 9int,
    {
        let op: Option<BinaryOp> = if self.match_token(TokenKind::Slash) {
            Some(BinaryOp::Div)
        } else if self.match_token(TokenKind::Star) {
            Some(BinaryOp::Mul)
        } else if self.match_token(TokenKind::Percent) {
            Some(BinaryOp::Mod)
        } else {
            None
        };
        match op {
            None => Ok(e),
            Some(op) => {
                let right = match self.unary() {
                    Ok(x) => x,
                    Err(er) => {
                        return Err(er);
                    },
                };
                let next = Expression::Binary {
                    left: Box::new(e),
                    operator: op,
                    right: Box::new(right),
                };
                self.factor_rest(next)
            },
        }
    }

    /// A multiplicative chain: unary expressions joined by `*`, `/` and `%`.
    fn factor(&mut self) -> (r: Result<Expression, ZanoError>)
        requires
            old(self).wf(),
        ensures
            final(self).toks() == old(self).toks(),
            final(self).wf(),
            match spec_factor(old(self).toks(), old(self).pos()) {
                Ok((fe, p2)) => {
                    &&& r matches Ok(x) && x@ == fe
                    &&& final(self).pos() == p2
                    &&& old(self).pos() < p2 <= old(self).toks().len()
                },
                Err(er) => r matches Err(x) && x@ == er,
            },
        decreases old(self).toks().len() - old(self).pos(), 10int,
    {
        let e = match self.unary() {
            Ok(x) => x,
            Err(er) => {
                return Err(er);
            },
        };
        self.factor_rest(e)
    }

    /// The rest of an additive chain to the left-folded `e`.
    fn term_rest(&mut self, e: Expression) -> (r: Result<Expression, ZanoError>)
        requires
            old(self).wf(),
        ensures
            final(self).toks() == old(self).toks(),
            final(self).wf(),
            match spec_term_rest(old(self).toks(), old(self).pos(), e@) {
                Ok((fe, p2)) => {
                    &&& r matches Ok(x) && x@ == fe
                    &&& final(self).pos() == p2
                    &&& old(self).pos() <= p2 <= old(self).toks().len()
                },
                Err(er) => r matches Err(x) && x@ == er,
            },
        decreases old(self).toks().len() - old(self).pos(), 11int,
    {
        let op: Option<BinaryOp> = if self.match_token(TokenKind::Minus) {
            Some(BinaryOp::Sub)
        } else if self.match_token(TokenKind::Plus) {
            Some(BinaryOp::Add)
        } else {
            None
        };
        match op {
            None => Ok(e),
            Some(op) => {
                let right = match self.factor() {
                    Ok(x) => x,
                    Err(er) => {
                        return Err(er);
                    },
                };
                let next = Expression::Binary {
                    left: Box::new(e),
                    operator: op,
                    right: Box::new(right),
                };
                self.term_rest(next)
            },
        }
    }

    /// An additive chain: multiplicative chains joined by `+` and `-`.
    fn term(&mut self) -> (r: Result<Expression, ZanoError>)
        requires
            old(self).wf(),
        ensures
            final(self).toks() == old(self).toks(),
            final(self).wf(),
            match spec_term(old(self).toks(), old(self).pos()) {
                Ok((fe, p2)) => {
                    &&& r matches Ok(x) && x@ == fe
                    &&& final(self).pos() == p2
                    &&& old(self).pos() < p2 <= old(self).toks().len()
                },
                Err(er) => r matches Err(x) && x@ == er,
            },
        decreases old(self).toks().len() - old(self).pos(), 12int,
    {
        let e = match self.factor() {
            Ok(x) => x,
            Err(er) => {
                return Err(er);
            },
        };
        self.term_rest(e)
    }

    /// The rest of a relational chain to the left-folded `e`.
    fn comparison_rest(&mut self, e: Expression) -> (r: Result<Expression, ZanoError>)
        requires
            old(self).wf(),
        ensures
            final(self).toks() == old(self).toks(),
            final(self).wf(),
            match spec_comparison_rest(old(self).toks(), old(self).pos(), e@) {
                Ok((fe, p2)) => {
                    &&& r matches Ok(x) && x@ == fe
                    &&& final(self).pos() == p2
                    &&& old(self).pos() <= p2 <= old(self).toks().len()
                },
                Err(er) => r matches Err(x) && x@ == er,
            },
        decreases old(self).toks().len() - old(self).pos(), 13int,
    {
        let op: Option<BinaryOp> = if self.match_token(TokenKind::Greater) {
            Some(BinaryOp::Greater)
        } else if self.match_token(TokenKind::GreaterEqual) {
            Some(BinaryOp::GreaterEqual)
        } else if self.match_token(TokenKind::Less) {
            Some(BinaryOp::Less)
        } else if self.match_token(TokenKind::LessEqual) {
            Some(BinaryOp::LessEqual)
        } else {
            None
        };
        match op {
            None => Ok(e),
            Some(op) => {
                let right = match self.term() {
                    Ok(x) => x,
                    Err(er) => {
                        return Err(er);
                    },
                };
                let next = Expression::Binary {
                    left: Box::new(e),
                    operator: op,
                    right: Box::new(right),
                };
                self.comparison_rest(next)
            },
        }
    }

    /// A relational chain: additive chains joined by `<`, `>`, `<=`, `>=`.
    fn comparison(&mut self) -> (r: Result<Expression, ZanoError>)
        requires
            old(self).wf(),
        ensures
            final(self).toks() == old(self).toks(),
            final(self).wf(),
            match spec_comparison(old(self).toks(), old(self).pos()) {
                Ok((fe, p2)) => {
                    &&& r matches Ok(x) && x@ == fe
                    &&& final(self).pos() == p2
                    &&& old(self).pos() < p2 <= old(self).toks().len()
                },
                Err(er) => r matches Err(x) && x@ == er,
            },
        decreases old(self).toks().len() - old(self).pos(), 14int,
    {
        let e = match self.term() {
            Ok(x) => x,
            Err(er) => {
                return Err(er);
            },
        };
        self.comparison_rest(e)
    }

    /// The rest of an equality chain to the left-folded `e`.
    fn equality_rest(&mut self, e: Expression) -> (r: Result<Expression, ZanoError>)
        requires
            old(self).wf(),
        ensures
            final(self).toks() == old(self).toks(),
            final(self).wf(),
            match spec_equality_rest(old(self).toks(), old(self).pos(), e@) {
                Ok((fe, p2)) => {
                    &&& r matches Ok(x) && x@ == fe
                    &&& final(self).pos() == p2
                    &&& old(self).pos() <= p2 <= old(self).toks().len()
                },
                Err(er) => r matches Err(x) && x@ == er,
            },
        decreases old(self).toks().len() - old(self).pos(), 15int,
    {
        let op: Option<BinaryOp> = if self.match_token(TokenKind::BangEqual) {
            Some(BinaryOp::NotEqual)
        } else if self.match_token(TokenKind::EqualEqual) {
            Some(BinaryOp::Equal)
        } else {
            None
        };
        match op {
            None => Ok(e),
            Some(op) => {
                let right = match self.comparison() {
                    Ok(x) => x,
                    Err(er) => {
                        return Err(er);
                    },
                };
                let next = Expression::Binary {
                    left: Box::new(e),
                    operator: op,
                    right: Box::new(right),
                };
                self.equality_rest(next)
            },
        }
    }

    /// An equality chain: relational chains joined by `==` and `!=`.
    fn equality(&mut self) -> (r: Result<Expression, ZanoError>)
        requires
            old(self).wf(),
        ensures
            final(self).toks() == old(self).toks(),
            final(self).wf(),
            match spec_equality(old(self).toks(), old(self).pos()) {
                Ok((fe, p2)) => {
                    &&& r matches Ok(x) && x@ == fe
                    &&& final(self).pos() == p2
                    &&& old(self).pos() < p2 <= old(self).toks().len()
                },
                Err(er) => r matches Err(x) && x@ == er,
            },
        decreases old(self).toks().len() - old(self).pos(), 16int,
    {
        let e = match self.comparison() {
            Ok(x) => x,
            Err(er) => {
                return Err(er);
            },
        };
        self.equality_rest(e)
    }

    /// The rest of a logical-and chain to the left-folded `e`.
    fn and_rest(&mut self, e: Expression) -> (r: Result<Expression, ZanoError>)
        requires
            old(self).wf(),
        ensures
            final(self).toks() == old(self).toks(),
            final(self).wf(),
            match spec_and_rest(old(self).toks(), old(self).pos(), e@) {
                Ok((fe, p2)) => {
                    &&& r matches Ok(x) && x@ == fe
                    &&& final(self).pos() == p2
                    &&& old(self).pos() <= p2 <= old(self).toks().len()
                },
                Err(er) => r matches Err(x) && x@ == er,
            },
        decreases old(self).toks().len() - old(self).pos(), 17int,
    {
        if self.match_token(TokenKind::AndAnd) {
            let right = match self.equality() {
                Ok(x) => x,
                Err(er) => {
                    return Err(er);
                },
            };
            let next = Expression::Binary {
                left: Box::new(e),
                operator: BinaryOp::And,
                right: Box::new(right),
            };
            self.and_rest(next)
        } else {
            Ok(e)
        }
    }

    /// A logical-and chain: equality chains joined by `&&`.
    fn and(&mut self) -> (r: Result<Expression, ZanoError>)
        requires
            old(self).wf(),
        ensures
            final(self).toks() == old(self).toks(),
            final(self).wf(),
            match spec_and(old(self).toks(), old(self).pos()) {
                Ok((fe, p2)) => {
                    &&& r matches Ok(x) && x@ == fe
                    &&& final(self).pos() == p2
                    &&& old(self).pos() < p2 <= old(self).toks().len()
                },
                Err(er) => r matches Err(x) && x@ == er,
            },
        decreases old(self).toks().len() - old(self).pos(), 18int,
    {
        let e = match self.equality() {
            Ok(x) => x,
            Err(er) => {
                return Err(er);
            },
        };
        self.and_rest(e)
    }

    /// The rest of a logical-or chain to the left-folded `e`.
    fn or_rest(&mut self, e: Expression) -> (r: Result<Expression, ZanoError>)
        requires
            old(self).wf(),
        ensures
            final(self).toks() == old(self).toks(),
            final(self).wf(),
            match spec_or_rest(old(self).toks(), old(self).pos(), e@) {
                Ok((fe, p2)) => {
                    &&& r matches Ok(x) && x@ == fe
                    &&& final(self).pos() == p2
                    &&& old(self).pos() <= p2 <= old(self).toks().len()
                },
                Err(er) => r matches Err(x) && x@ == er,
            },
        decreases old(self).toks().len() - old(self).pos(), 19int,
    {
        if self.match_token(TokenKind::OrOr) {
            let right = match self.and() {
                Ok(x) => x,
                Err(er) => {
                    return Err(er);
                },
            };
            let next = Expression::Binary {
                left: Box::new(e),
                operator: BinaryOp::Or,
                right: Box::new(right),
            };
            self.or_rest(next)
        } else {
            Ok(e)
        }
    }

    /// A logical-or chain: logical-and chains joined by `||`.
    fn or(&mut self) -> (r: Result<Expression, ZanoError>)
        requires
            old(self).wf(),
        ensures
            final(self).toks() == old(self).toks(),
            final(self).wf(),
            match spec_or(old(self).toks(), old(self).pos()) {
                Ok((fe, p2)) => {
                    &&& r matches Ok(x) && x@ == fe
                    &&& final(self).pos() == p2
                    &&& old(self).pos() < p2 <= old(self).toks().len()
                },
                Err(er) => r matches Err(x) && x@ == er,
            },
        decreases old(self).toks().len() - old(self).pos(), 20int,
    {
        let e = match self.and() {
            Ok(x) => x,
            Err(er) => {
                return Err(er);
            },
        };
        self.or_rest(e)
    }

    /// An assignment: right-associative, and legal only when the left side
    /// parsed as a bare identifier; after an `=` that follows any other
    /// expression the left side is returned unchanged, with the `=`
    /// consumed.
    #[verifier::rlimit(100)]
    #[verifier::spinoff_prover]
    fn assignment(&mut self) -> (r: Result<Expression, ZanoError>)
        requires
            old(self).wf(),
        ensures
            final(self).toks() == old(self).toks(),
            final(self).wf(),
            match spec_assignment(old(self).toks(), old(self).pos()) {
                Ok((fe, p2)) => {
                    &&& r matches Ok(x) && x@ == fe
                    &&& final(self).pos() == p2
                    &&& old(self).pos() < p2 <= old(self).toks().len()
                },
                Err(er) => r matches Err(x) && x@ == er,
            },
        decreases old(self).toks().len() - old(self).pos(), 24int,
    {
        let e = match self.or() {
            Ok(x) => x,
            Err(er) => {
                return Err(er);
            },
        };
        if self.match_token(TokenKind::Equal) {
            match e {
                Expression::Identifier(name) => {
                    let value = match self.assignment() {
                        Ok(v) => v,
                        Err(er) => {
                            return Err(er);
                        },
                    };
                    Ok(Expression::Assignment { target: name, value: Box::new(value) })
                },
                other => Ok(other),
            }
        } else {
            Ok(e)
        }
    }

    /// An expression.
    fn expression(&mut self) -> (r: Result<Expression, ZanoError>)
        requires
            old(self).wf(),
        ensures
            final(self).toks() == old(self).toks(),
            final(self).wf(),
            match spec_expression(old(self).toks(), old(self).pos()) {
                Ok((fe, p2)) => {
                    &&& r matches Ok(x) && x@ == fe
                    &&& final(self).pos() == p2
                    &&& old(self).pos() < p2 <= old(self).toks().len()
                },
                Err(er) => r matches Err(x) && x@ == er,
            },
        decreases old(self).toks().len() - old(self).pos(), 25int,
    {
        self.assignment()
    }
}

impl Parser {
    /// A comma-separated parameter-name list, appended to `out`.
    fn params_list(&mut self, out: &mut Vec<String>) -> (r: Result<(), ZanoError>)
        requires
            old(self).wf(),
        ensures
            final(self).toks() == old(self).toks(),
            final(self).wf(),
            match spec_params(old(self).toks(), old(self).pos()) {
                Ok((names, p2)) => {
                    &&& r is Ok
                    &&& spec_names_view(final(out)@) == spec_names_view(old(out)@) + names
                    &&& final(self).pos() == p2
                    &&& old(self).pos() < p2 <= old(self).toks().len()
                },
                Err(er) => r matches Err(x) && x@ == er,
            },
        decreases old(self).toks().len() - old(self).pos(),
    {
        broadcast use crate::ast::group_ast_view_lemmas;

        let t = match self.consume(TokenKind::Identifier, "Expected parameter name") {
            Ok(t) => t,
            Err(er) => {
                return Err(er);
            },
        };
        let ghost v0 = spec_names_view(out@);
        let ghost nv = t.lexeme@;
        out.push(t.lexeme);
        proof {
            assert(spec_names_view(out@) =~= v0.push(nv));
        }
        if self.match_token(TokenKind::Comma) {
            match self.params_list(out) {
                Ok(()) => {
                    proof {
                        assert(spec_names_view(out@) =~= v0 + (seq![nv] + spec_names_view(
                            out@,
                        ).skip(v0.len() as int + 1)));
                    }
                    Ok(())
                },
                Err(er) => Err(er),
            }
        } else {
            proof {
                assert(spec_names_view(out@) =~= v0 + seq![nv]);
            }
            Ok(())
        }
    }

    /// A variable declaration, just after its keyword.
    fn var_declaration(&mut self, is_const: bool) -> (r: Result<Statement, ZanoError>)
        requires
            old(self).wf(),
        ensures
            final(self).toks() == old(self).toks(),
            final(self).wf(),
            match spec_var_declaration(old(self).toks(), old(self).pos(), is_const) {
                Ok((s, p2)) => {
                    &&& r matches Ok(x) && x@ == s
                    &&& final(self).pos() == p2
                    &&& old(self).pos() < p2 <= old(self).toks().len()
                },
                Err(er) => r matches Err(x) && x@ == er,
            },
        decreases old(self).toks().len() - old(self).pos(), 29int,
    {
        let t = match self.consume(TokenKind::Identifier, "Expected variable name") {
            Ok(t) => t,
            Err(er) => {
                return Err(er);
            },
        };
        if self.match_token(TokenKind::Equal) {
            let value = match self.expression() {
                Ok(v) => v,
                Err(er) => {
                    return Err(er);
                },
            };
            self.consume_semicolon();
            Ok(Statement::VarDeclaration { name: t.lexeme, value: Some(value), is_const })
        } else {
            self.consume_semicolon();
            Ok(Statement::VarDeclaration { name: t.lexeme, value: None, is_const })
        }
    }

    /// A function declaration, just after its keyword.
    #[verifier::rlimit(100)]
    #[verifier::spinoff_prover]
    fn function_declaration(&mut self) -> (r: Result<Statement, ZanoError>)
        requires
            old(self).wf(),
        ensures
            final(self).toks() == old(self).toks(),
            final(self).wf(),
            match spec_function_declaration(old(self).toks(), old(self).pos()) {
                Ok((s, p2)) => {
                    &&& r matches Ok(x) && x@ == s
                    &&& final(self).pos() == p2
                    &&& old(self).pos() < p2 <= old(self).toks().len()
                },
                Err(er) => r matches Err(x) && x@ == er,
            },
        decreases old(self).toks().len() - old(self).pos(), 29int,
    {
        broadcast use crate::ast::group_ast_view_lemmas;

        let ghost ts = self.toks();
        let ghost p0 = self.pos();
        let name = match self.consume(TokenKind::Identifier, "Expected function name") {
            Ok(t) => t,
            Err(er) => {
                return Err(er);
            },
        };
        match self.consume(TokenKind::LeftParen, "Expected '(' after function name") {
            Ok(_) => {},
            Err(er) => {
                return Err(er);
            },
        }
        let mut params: Vec<String> = Vec::new();
        if !self.check(TokenKind::RightParen) {
            match self.params_list(&mut params) {
                Ok(()) => {},
                Err(er) => {
                    return Err(er);
                },
            }
        }
        proof {
            assert(spec_names_view(Seq::<String>::empty()) =~= Seq::<Seq<char>>::empty());
            if spec_tok(ts, p0 + 2).kind != TokenKind::RightParen {
                match spec_params(ts, p0 + 2) {
                    Ok((names, _)) => {
                        assert(Seq::<Seq<char>>::empty() + names =~= names);
                    },
                    Err(_) => {},
                }
            } else {
                assert(spec_names_view(params@) =~= Seq::<Seq<char>>::empty());
            }
        }
        match self.consume(TokenKind::RightParen, "Expected ')' after parameters") {
            Ok(_) => {},
            Err(er) => {
                return Err(er);
            },
        }
        match self.consume(TokenKind::LeftBrace, "Expected '{' before function body") {
            Ok(_) => {},
            Err(er) => {
                return Err(er);
            },
        }
        let mut body: Vec<Statement> = Vec::new();
        match self.block_rest(&mut body) {
            Ok(()) => {
                proof {
                    assert(spec_stmts_view(Seq::<Statement>::empty()) =~= Seq::<SpecStmt>::empty());
                    let pb = if spec_tok(ts, p0 + 2).kind == TokenKind::RightParen {
                        p0 + 2
                    } else {
                        match spec_params(ts, p0 + 2) {
                            Ok((_, pp)) => pp,
                            Err(_) => p0,
                        }
                    };
                    match spec_block_items(ts, pb + 2) {
                        Ok((items, _)) => {
                            assert(Seq::<SpecStmt>::empty() + items =~= items);
                            assert(spec_stmts_of_vec(body) == spec_stmts_view(body@));
                        },
                        Err(_) => {},
                    }
                }
                Ok(
                    Statement::FunctionDeclaration {
                        name: name.lexeme,
                        params,
                        body,
                        is_async: false,
                    },
                )
            },
            Err(er) => Err(er),
        }
    }

    /// An `if` statement, just after its keyword.
    #[verifier::rlimit(100)]
    #[verifier::spinoff_prover]
    fn if_statement(&mut self) -> (r: Result<Statement, ZanoError>)
        requires
            old(self).wf(),
        ensures
            final(self).toks() == old(self).toks(),
            final(self).wf(),
            match spec_if_statement(old(self).toks(), old(self).pos()) {
                Ok((s, p2)) => {
                    &&& r matches Ok(x) && x@ == s
                    &&& final(self).pos() == p2
                    &&& old(self).pos() < p2 <= old(self).toks().len()
                },
                Err(er) => r matches Err(x) && x@ == er,
            },
        decreases old(self).toks().len() - old(self).pos(), 29int,
    {
        match self.consume(TokenKind::LeftParen, "Expected '(' after 'if'") {
            Ok(_) => {},
            Err(er) => {
                return Err(er);
            },
        }
        let condition = match self.expression() {
            Ok(c) => c,
            Err(er) => {
                return Err(er);
            },
        };
        match self.consume(TokenKind::RightParen, "Expected ')' after if condition") {
            Ok(_) => {},
            Err(er) => {
                return Err(er);
            },
        }
        let then_branch = match self.statement() {
            Ok(s) => Box::new(s),
            Err(er) => {
                return Err(er);
            },
        };
        if self.match_token(TokenKind::Else) {
            let else_branch = match self.statement() {
                Ok(s) => Box::new(s),
                Err(er) => {
                    return Err(er);
                },
            };
            Ok(Statement::If { condition, then_branch, else_branch: Some(else_branch) })
        } else {
            Ok(Statement::If { condition, then_branch, else_branch: None })
        }
    }

    /// A `while` statement, just after its keyword.
    fn while_statement(&mut self) -> (r: Result<Statement, ZanoError>)
        requires
            old(self).wf(),
        ensures
            final(self).toks() == old(self).toks(),
            final(self).wf(),
            match spec_while_statement(old(self).toks(), old(self).pos()) {
                Ok((s, p2)) => {
                    &&& r matches Ok(x) && x@ == s
                    &&& final(self).pos() == p2
                    &&& old(self).pos() < p2 <= old(self).toks().len()
                },
                Err(er) => r matches Err(x) && x@ == er,
            },
        decreases old(self).toks().len() - old(self).pos(), 29int,
    {
        match self.consume(TokenKind::LeftParen, "Expected '(' after 'while'") {
            Ok(_) => {},
            Err(er) => {
                return Err(er);
            },
        }
        let condition = match self.expression() {
            Ok(c) => c,
            Err(er) => {
                return Err(er);
            },
        };
        match self.consume(TokenKind::RightParen, "Expected ')' after while condition") {
            Ok(_) => {},
            Err(er) => {
                return Err(er);
            },
        }
        match self.statement() {
            Ok(body) => Ok(Statement::While { condition, body: Box::new(body) }),
            Err(er) => Err(er),
        }
    }

    /// A `return` statement, just after its keyword.
    fn return_statement(&mut self) -> (r: Result<Statement, ZanoError>)
        requires
            old(self).wf(),
        ensures
            final(self).toks() == old(self).toks(),
            final(self).wf(),
            match spec_return_statement(old(self).toks(), old(self).pos()) {
                Ok((s, p2)) => {
                    &&& r matches Ok(x) && x@ == s
                    &&& final(self).pos() == p2
                    &&& old(self).pos() <= p2 <= old(self).toks().len()
                },
                Err(er) => r matches Err(x) && x@ == er,
            },
        decreases old(self).toks().len() - old(self).pos(), 29int,
    {
        if self.check(TokenKind::Semicolon) || self.check(TokenKind::Newline) {
            self.consume_semicolon();
            Ok(Statement::Return(None))
        } else {
            let value = match self.expression() {
                Ok(v) => v,
                Err(er) => {
                    return Err(er);
                },
            };
            self.consume_semicolon();
            Ok(Statement::Return(Some(value)))
        }
    }

    /// The optional parenthesized parameter after `catch`.
    fn catch_param_opt(&mut self) -> (r: Result<Option<String>, ZanoError>)
        requires
            old(self).wf(),
        ensures
            final(self).toks() == old(self).toks(),
            final(self).wf(),
            match spec_catch_param(old(self).toks(), old(self).pos()) {
                Ok((p, p2)) => {
                    &&& r matches Ok(x) && (match (x, p) {
                        (Some(n), Some(pn)) => n@ == pn,
                        (None, None) => true,
                        _ => false,
                    })
                    &&& final(self).pos() == p2
                    &&& old(self).pos() <= p2 <= old(self).toks().len()
                },
                Err(er) => r matches Err(x) && x@ == er,
            },
    {
        if !self.match_token(TokenKind::LeftParen) {
            return Ok(None);
        }
        if self.check(TokenKind::Identifier) {
            let t = clone_token(self.peek());
            self.advance();
            match self.consume(TokenKind::RightParen, "Expected ')' after catch parameter") {
                Ok(_) => Ok(Some(t.lexeme)),
                Err(er) => Err(er),
            }
        } else {
            match self.consume(TokenKind::RightParen, "Expected ')' after catch parameter") {
                Ok(_) => Ok(None),
                Err(er) => Err(er),
            }
        }
    }

    /// A `try` statement, just after its keyword.
    #[verifier::rlimit(100)]
    #[verifier::spinoff_prover]
    fn try_statement(&mut self) -> (r: Result<Statement, ZanoError>)
        requires
            old(self).wf(),
        ensures
            final(self).toks() == old(self).toks(),
            final(self).wf(),
            match spec_try_statement(old(self).toks(), old(self).pos()) {
                Ok((s, p2)) => {
                    &&& r matches Ok(x) && x@ == s
                    &&& final(self).pos() == p2
                    &&& old(self).pos() < p2 <= old(self).toks().len()
                },
                Err(er) => r matches Err(x) && x@ == er,
            },
        decreases old(self).toks().len() - old(self).pos(), 29int,
    {
        let ghost ts = self.toks();
        let ghost p0 = self.pos();
        match self.consume(TokenKind::LeftBrace, "Expected '{' after 'try'") {
            Ok(_) => {},
            Err(er) => {
                return Err(er);
            },
        }
        let mut body: Vec<Statement> = Vec::new();
        match self.block_rest(&mut body) {
            Ok(()) => {},
            Err(er) => {
                return Err(er);
            },
        }
        proof {
            assert(spec_stmts_view(Seq::<Statement>::empty()) =~= Seq::<SpecStmt>::empty());
            match spec_block_items(ts, p0 + 1) {
                Ok((items, _)) => {
                    assert(Seq::<SpecStmt>::empty() + items =~= items);
                    assert(spec_stmts_of_vec(body) == spec_stmts_view(body@));
                },
                Err(_) => {},
            }
        }
        let try_block = Box::new(Statement::Block(body));
        proof {
            match spec_block_items(ts, p0 + 1) {
                Ok((items, _)) => {
                    assert((*try_block)@ == SpecStmt::Block(items));
                },
                Err(_) => {},
            }
        }
        if !self.match_token(TokenKind::Catch) {
            let s = Statement::Try { try_block, catch_param: None, catch_block: None };
            proof {
                match spec_block_items(ts, p0 + 1) {
                    Ok((items, _)) => {
                        assert(s@ == (SpecStmt::Try {
                            try_block: Box::new(SpecStmt::Block(items)),
                            catch_param: None,
                            catch_block: None,
                        }));
                    },
                    Err(_) => {},
                }
            }
            return Ok(s);
        }
        self.catch_clause(try_block)
    }

    /// The `catch` clause of a `try` statement, just after the `catch`
    /// keyword: an optional parenthesized parameter and a braced handler,
    /// closed around the already-parsed `try_block`.
    #[verifier::rlimit(100)]
    #[verifier::spinoff_prover]
    fn catch_clause(&mut self, try_block: Box<Statement>) -> (r: Result<Statement, ZanoError>)
        requires
            old(self).wf(),
        ensures
            final(self).toks() == old(self).toks(),
            final(self).wf(),
            match spec_catch_param(old(self).toks(), old(self).pos()) {
                Ok((cp, p3)) => {
                    if spec_tok(old(self).toks(), p3).kind != TokenKind::LeftBrace {
                        r matches Err(x) && x@ == spec_perr(
                            "Expected '{' after catch"@,
                            spec_tok(old(self).toks(), p3),
                        )
                    } else {
                        match spec_block_items(old(self).toks(), p3 + 1) {
                            Ok((handler, p4)) => {
                                &&& r matches Ok(x) && x@ == (SpecStmt::Try {
                                    try_block: Box::new((*try_block)@),
                                    catch_param: cp,
                                    catch_block: Some(Box::new(SpecStmt::Block(handler))),
                                })
                                &&& final(self).pos() == p4
                                &&& old(self).pos() <= p4 <= old(self).toks().len()
                            },
                            Err(er) => r matches Err(x) && x@ == er,
                        }
                    }
                },
                Err(er) => r matches Err(x) && x@ == er,
            },
        decreases old(self).toks().len() - old(self).pos(), 28int,
    {
        let ghost ts = self.toks();
        let ghost p0 = self.pos();
        let ghost tbv = (*try_block)@;
        let catch_param: Option<String> = match self.catch_param_opt() {
            Ok(p) => p,
            Err(er) => {
                return Err(er);
            },
        };
        match self.consume(TokenKind::LeftBrace, "Expected '{' after catch") {
            Ok(_) => {},
            Err(er) => {
                return Err(er);
            },
        }
        let ghost pc = self.pos();
        let mut handler: Vec<Statement> = Vec::new();
        match self.block_rest(&mut handler) {
            Ok(()) => {
                proof {
                    assert(spec_stmts_view(Seq::<Statement>::empty()) =~= Seq::<SpecStmt>::empty());
                    match spec_block_items(ts, pc) {
                        Ok((items, _)) => {
                            assert(Seq::<SpecStmt>::empty() + items =~= items);
                            assert(spec_stmts_of_vec(handler) == spec_stmts_view(handler@));
                        },
                        Err(_) => {},
                    }
                }
                let handler_block = Box::new(Statement::Block(handler));
                proof {
                    match spec_block_items(ts, pc) {
                        Ok((items, _)) => {
                            assert((*handler_block)@ == SpecStmt::Block(items));
                        },
                        Err(_) => {},
                    }
                }
                let s = Statement::Try { try_block, catch_param, catch_block: Some(handler_block) };
                proof {
                    match spec_catch_param(ts, p0) {
                        Ok((cp, p3)) => {
                            match spec_block_items(ts, pc) {
                                Ok((items, _)) => {
                                    assert(s@ == (SpecStmt::Try {
                                        try_block: Box::new(tbv),
                                        catch_param: cp,
                                        catch_block: Some(Box::new(SpecStmt::Block(items))),
                                    }));
                                },
                                Err(_) => {},
                            }
                        },
                        Err(_) => {},
                    }
                }
                Ok(s)
            },
            Err(er) => Err(er),
        }
    }

    /// A `throw` statement, just after its keyword.
    fn throw_statement(&mut self) -> (r: Result<Statement, ZanoError>)
        requires
            old(self).wf(),
        ensures
            final(self).toks() == old(self).toks(),
            final(self).wf(),
            match spec_throw_statement(old(self).toks(), old(self).pos()) {
                Ok((s, p2)) => {
                    &&& r matches Ok(x) && x@ == s
                    &&& final(self).pos() == p2
                    &&& old(self).pos() < p2 <= old(self).toks().len()
                },
                Err(er) => r matches Err(x) && x@ == er,
            },
        decreases old(self).toks().len() - old(self).pos(), 29int,
    {
        let value = match self.expression() {
            Ok(v) => v,
            Err(er) => {
                return Err(er);
            },
        };
        self.consume_semicolon();
        Ok(Statement::Throw(value))
    }

    /// The statements of a brace-delimited block, appended to `out`, and
    /// the closing brace.
    fn block_rest(&mut self, out: &mut Vec<Statement>) -> (r: Result<(), ZanoError>)
        requires
            old(self).wf(),
        ensures
            final(self).toks() == old(self).toks(),
            final(self).wf(),
            match spec_block_items(old(self).toks(), old(self).pos()) {
                Ok((ss, p2)) => {
                    &&& r is Ok
                    &&& spec_stmts_view(final(out)@) == spec_stmts_view(old(out)@) + ss
                    &&& final(self).pos() == p2
                    &&& old(self).pos() < p2 <= old(self).toks().len()
                },
                Err(er) => r matches Err(x) && x@ == er,
            },
        decreases old(self).toks().len() - old(self).pos(), 35int,
    {
        broadcast use crate::ast::group_ast_view_lemmas;

        if self.match_token(TokenKind::RightBrace) {
            proof {
                assert(spec_stmts_view(out@) + Seq::<SpecStmt>::empty() =~= spec_stmts_view(out@));
            }
            return Ok(());
        }
        if self.is_at_end() {
            let token = clone_token(self.peek());
            return Err(
                ZanoError::ParseError { message: "Expected '}' after block".to_owned(), token },
            );
        }
        if self.match_token(TokenKind::Newline) || self.match_token(TokenKind::Semicolon) {
            return self.block_rest(out);
        }
        let s = match self.statement() {
            Ok(s) => s,
            Err(er) => {
                return Err(er);
            },
        };
        let ghost v0 = spec_stmts_view(out@);
        let ghost sv = s@;
        out.push(s);
        proof {
            assert(spec_stmts_view(out@) =~= v0.push(sv));
        }
        match self.block_rest(out) {
            Ok(()) => {
                proof {
                    assert(spec_stmts_view(out@) =~= v0 + (seq![sv] + spec_stmts_view(out@).skip(
                        v0.len() as int + 1,
                    )));
                }
                Ok(())
            },
            Err(er) => Err(er),
        }
    }

    /// One statement, dispatched on its leading keyword; anything else
    /// parses as an expression statement.
    #[verifier::rlimit(100)]
    #[verifier::spinoff_prover]
    fn statement(&mut self) -> (r: Result<Statement, ZanoError>)
        requires
            old(self).wf(),
        ensures
            final(self).toks() == old(self).toks(),
            final(self).wf(),
            match spec_statement(old(self).toks(), old(self).pos()) {
                Ok((s, p2)) => {
                    &&& r matches Ok(x) && x@ == s
                    &&& final(self).pos() == p2
                    &&& old(self).pos() < p2 <= old(self).toks().len()
                },
                Err(er) => r matches Err(x) && x@ == er,
            },
        decreases old(self).toks().len() - old(self).pos(), 30int,
    {
        broadcast use crate::ast::group_ast_view_lemmas;

        let k = self.peek().kind;
        if k == TokenKind::Let || k == TokenKind::Const || k == TokenKind::Var {
            let is_const = k == TokenKind::Const;
            self.advance();
            self.var_declaration(is_const)
        } else if k == TokenKind::Function {
            self.advance();
            self.function_declaration()
        } else if k == TokenKind::If {
            self.advance();
            self.if_statement()
        } else if k == TokenKind::While {
            self.advance();
            self.while_statement()
        } else if k == TokenKind::Return {
            self.advance();
            self.return_statement()
        } else if k == TokenKind::Try {
            self.advance();
            self.try_statement()
        } else if k == TokenKind::Throw {
            self.advance();
            self.throw_statement()
        } else if k == TokenKind::LeftBrace {
            let ghost ts = self.toks();
            let ghost p0 = self.pos();
            self.advance();
            let mut out: Vec<Statement> = Vec::new();
            match self.block_rest(&mut out) {
                Ok(()) => {
                    proof {
                        assert(spec_stmts_view(Seq::<Statement>::empty()) =~= Seq::<
                            SpecStmt,
                        >::empty());
                        match spec_block_items(ts, p0 + 1) {
                            Ok((items, _)) => {
                                assert(Seq::<SpecStmt>::empty() + items =~= items);
                                assert(spec_stmts_of_vec(out) == spec_stmts_view(out@));
                            },
                            Err(_) => {},
                        }
                    }
                    Ok(Statement::Block(out))
                },
                Err(er) => Err(er),
            }
        } else {
            match self.expression() {
                Ok(e) => {
                    self.consume_semicolon();
                    Ok(Statement::Expression(e))
                },
                Err(er) => Err(er),
            }
        }
    }

    /// The statements of the whole remaining program, appended to `out`.
    fn program_rest(&mut self, out: &mut Vec<Statement>) -> (r: Result<(), ZanoError>)
        requires
            old(self).wf(),
        ensures
            final(self).toks() == old(self).toks(),
            final(self).wf(),
            match spec_program(old(self).toks(), old(self).pos()) {
                Ok((ss, p2)) => {
                    &&& r is Ok
                    &&& spec_stmts_view(final(out)@) == spec_stmts_view(old(out)@) + ss
                    &&& final(self).pos() == p2
                    &&& old(self).pos() <= p2 <= old(self).toks().len()
                },
                Err(er) => r matches Err(x) && x@ == er,
            },
        decreases old(self).toks().len() - old(self).pos(), 40int,
    {
        broadcast use crate::ast::group_ast_view_lemmas;

        if self.is_at_end() {
            proof {
                assert(spec_stmts_view(out@) + Seq::<SpecStmt>::empty() =~= spec_stmts_view(out@));
            }
            return Ok(());
        }
        if self.match_token(TokenKind::Newline) || self.match_token(TokenKind::Semicolon) {
            return self.program_rest(out);
        }
        let s = match self.statement() {
            Ok(s) => s,
            Err(er) => {
                return Err(er);
            },
        };
        let ghost v0 = spec_stmts_view(out@);
        let ghost sv = s@;
        out.push(s);
        proof {
            assert(spec_stmts_view(out@) =~= v0.push(sv));
        }
        match self.program_rest(out) {
            Ok(()) => {
                proof {
                    assert(spec_stmts_view(out@) =~= v0 + (seq![sv] + spec_stmts_view(out@).skip(
                        v0.len() as int + 1,
                    )));
                }
                Ok(())
            },
            Err(er) => Err(er),
        }
    }

    /// Parses the whole remaining token sequence into an ordered statement
    /// sequence, or fails on the first unmet grammar expectation. No
    /// evaluation happens on syntactically invalid input.
    pub fn parse(&mut self) -> (r: Result<Vec<Statement>, ZanoError>)
        requires
            old(self).wf(),
        ensures
            match spec_program(old(self).toks(), old(self).pos()) {
                Ok((ss, p2)) => r matches Ok(v) && spec_stmts_view(v@) == ss,
                Err(er) => r matches Err(x) && x@ == er,
            },
            old(self).pos() == 0 ==> match spec_parse(old(self).toks()) {
                Ok(ss) => r matches Ok(v) && spec_stmts_view(v@) == ss,
                Err(er) => r matches Err(x) && x@ == er,
            },
        decreases old(self).toks().len() - old(self).pos(), 41int,
    {
        broadcast use crate::ast::group_ast_view_lemmas;

        let ghost ts = self.toks();
        let ghost p0 = self.pos();
        let mut out: Vec<Statement> = Vec::new();
        match self.program_rest(&mut out) {
            Ok(()) => {
                proof {
                    assert(spec_stmts_view(Seq::<Statement>::empty()) =~= Seq::<SpecStmt>::empty());
                    match spec_program(ts, p0) {
                        Ok((ss, _)) => {
                            assert(Seq::<SpecStmt>::empty() + ss =~= ss);
                        },
                        Err(_) => {},
                    }
                }
                Ok(out)
            },
            Err(er) => Err(er),
        }
    }
}

} // verus!
