//! Laws that span the lexer, the parser and the evaluator.
use vstd::prelude::*;

use crate::ast::{SpecExpr, SpecStmt};
use crate::errors::SpecError;
use crate::eval::{spec_eval_expr, spec_eval_stmt, spec_eval_stmts, SpecMachine, SpecOutcome};
use crate::lexer::{
    spec_digits_end, spec_number_end, spec_scan, spec_scan_from, spec_scan_token, spec_token,
    LexStep,
};
use crate::num::{num_parse, spec_all_digits, spec_is_digit, spec_is_number_lexeme};
use crate::parser::{
    spec_assignment, spec_and, spec_and_rest, spec_call, spec_call_rest, spec_comparison,
    spec_comparison_rest, spec_equality, spec_equality_rest, spec_expression, spec_factor,
    spec_factor_rest, spec_or, spec_or_rest, spec_parse, spec_perr, spec_primary, spec_program,
    spec_statement, spec_term, spec_term_rest, spec_tok, spec_unary, PResult,
};
use crate::token::{SpecToken, TokenKind};
use crate::value::SpecValue;

verus! {

broadcast use vstd::seq::group_seq_axioms;

/// A run of digits ends exactly where the digits end.
proof fn lemma_digits_run(src: Seq<char>, i: int, j: int)
    requires
        0 <= i <= j <= src.len(),
        spec_all_digits(src, i, j),
        j == src.len() || !spec_is_digit(src[j]),
    ensures
        spec_digits_end(src, i) == j,
    decreases j - i,
{
    if i < j {
        assert(spec_is_digit(src[i]));
        lemma_digits_run(src, i + 1, j);
    }
}

/// A valid decimal literal is scanned as exactly one Number token carrying
/// the literal verbatim, followed by the end-of-input sentinel. This is the
/// lexing leg of the literal round trip; the parsing leg follows below, and
/// the trusted decimal printer closes the loop for finite values, whose
/// rendering reads back as the same value.
pub proof fn lemma_number_literal_scan(lit: Seq<char>)
    requires
        spec_is_number_lexeme(lit),
    ensures
        spec_scan(lit) == Ok::<Seq<SpecToken>, SpecError>(
            seq![
                spec_token(TokenKind::Number, lit, 1),
                spec_token(TokenKind::Eof, Seq::empty(), 1),
            ],
        ),
{
    let len = lit.len() as int;
    if spec_all_digits(lit, 0, len) {
        lemma_digits_run(lit, 1, len);
        assert(spec_number_end(lit, 1) == len);
    } else {
        let d = choose|d: int|
            1 <= d && d + 2 <= lit.len() && lit[d] == '.' && spec_all_digits(lit, 0, d)
                && spec_all_digits(lit, d + 1, len);
        assert(spec_is_digit(lit[0]));
        lemma_digits_run(lit, 1, d);
        lemma_digits_run(lit, d + 1, len);
        assert(spec_number_end(lit, 1) == len);
    }
    assert(spec_is_digit(lit[0]));
    assert(lit.subrange(0, len) =~= lit);
    assert(spec_scan_token(lit, 0, 1) == LexStep::Emit(
        spec_token(TokenKind::Number, lit, 1),
        len,
        1,
    ));
    assert(spec_scan_from(lit, len, 1) == Ok::<Seq<SpecToken>, SpecError>(
        seq![spec_token(TokenKind::Eof, Seq::empty(), 1)],
    ));
    assert(seq![spec_token(TokenKind::Number, lit, 1)] + seq![
        spec_token(TokenKind::Eof, Seq::empty(), 1),
    ] =~= seq![spec_token(TokenKind::Number, lit, 1), spec_token(TokenKind::Eof, Seq::empty(), 1)]);
}

/// The token sequence of a valid decimal literal parses as one expression
/// statement holding the literal's number value; where the literal denotes
/// no number, parsing fails at that token. This is the parsing leg of the
/// literal round trip.
pub proof fn lemma_number_literal_parse(lit: Seq<char>)
    requires
        spec_is_number_lexeme(lit),
    ensures
        ({
            let ts = seq![
                spec_token(TokenKind::Number, lit, 1),
                spec_token(TokenKind::Eof, Seq::empty(), 1),
            ];
            match num_parse(lit) {
                Some(b) => spec_parse(ts) == Ok::<Seq<SpecStmt>, SpecError>(
                    seq![SpecStmt::Expression(SpecExpr::Literal(SpecValue::Number(b)))],
                ),
                None => spec_parse(ts) == Err::<Seq<SpecStmt>, SpecError>(
                    spec_perr("Invalid number literal"@, ts[0]),
                ),
            }
        }),
{
    let ts = seq![
        spec_token(TokenKind::Number, lit, 1),
        spec_token(TokenKind::Eof, Seq::empty(), 1),
    ];
    assert(spec_tok(ts, 0) == ts[0]);
    assert(spec_tok(ts, 1) == ts[1]);
    match num_parse(lit) {
        Some(b) => {
            let e = SpecExpr::Literal(SpecValue::Number(b));
            assert(spec_primary(ts, 0) == Ok::<(SpecExpr, int), SpecError>((e, 1)));
            assert(spec_call_rest(ts, 1, e) == Ok::<(SpecExpr, int), SpecError>((e, 1)));
            assert(spec_call(ts, 0) == Ok::<(SpecExpr, int), SpecError>((e, 1)));
            assert(spec_unary(ts, 0) == Ok::<(SpecExpr, int), SpecError>((e, 1)));
            assert(spec_factor_rest(ts, 1, e) == Ok::<(SpecExpr, int), SpecError>((e, 1)));
            assert(spec_factor(ts, 0) == Ok::<(SpecExpr, int), SpecError>((e, 1)));
            assert(spec_term_rest(ts, 1, e) == Ok::<(SpecExpr, int), SpecError>((e, 1)));
            assert(spec_term(ts, 0) == Ok::<(SpecExpr, int), SpecError>((e, 1)));
            assert(spec_comparison_rest(ts, 1, e) == Ok::<(SpecExpr, int), SpecError>((e, 1)));
            assert(spec_comparison(ts, 0) == Ok::<(SpecExpr, int), SpecError>((e, 1)));
            assert(spec_equality_rest(ts, 1, e) == Ok::<(SpecExpr, int), SpecError>((e, 1)));
            assert(spec_equality(ts, 0) == Ok::<(SpecExpr, int), SpecError>((e, 1)));
            assert(spec_and_rest(ts, 1, e) == Ok::<(SpecExpr, int), SpecError>((e, 1)));
            assert(spec_and(ts, 0) == Ok::<(SpecExpr, int), SpecError>((e, 1)));
            assert(spec_or_rest(ts, 1, e) == Ok::<(SpecExpr, int), SpecError>((e, 1)));
            assert(spec_or(ts, 0) == Ok::<(SpecExpr, int), SpecError>((e, 1)));
            assert(spec_assignment(ts, 0) == Ok::<(SpecExpr, int), SpecError>((e, 1)));
            assert(spec_expression(ts, 0) == Ok::<(SpecExpr, int), SpecError>((e, 1)));
            let s = SpecStmt::Expression(e);
            assert(spec_statement(ts, 0) == Ok::<(SpecStmt, int), SpecError>((s, 1)));
            assert(spec_program(ts, 1) == Ok::<(Seq<SpecStmt>, int), SpecError>(
                (Seq::empty(), 1),
            ));
            assert(seq![s] + Seq::<SpecStmt>::empty() =~= seq![s]);
            assert(spec_program(ts, 0) == Ok::<(Seq<SpecStmt>, int), SpecError>((seq![s], 1)));
        },
        None => {
            let er = spec_perr("Invalid number literal"@, ts[0]);
            assert(spec_primary(ts, 0) == Err::<(SpecExpr, int), SpecError>(er));
            assert(spec_call(ts, 0) == Err::<(SpecExpr, int), SpecError>(er));
            assert(spec_unary(ts, 0) == Err::<(SpecExpr, int), SpecError>(er));
            assert(spec_factor(ts, 0) == Err::<(SpecExpr, int), SpecError>(er));
            assert(spec_term(ts, 0) == Err::<(SpecExpr, int), SpecError>(er));
            assert(spec_comparison(ts, 0) == Err::<(SpecExpr, int), SpecError>(er));
            assert(spec_equality(ts, 0) == Err::<(SpecExpr, int), SpecError>(er));
            assert(spec_and(ts, 0) == Err::<(SpecExpr, int), SpecError>(er));
            assert(spec_or(ts, 0) == Err::<(SpecExpr, int), SpecError>(er));
            assert(spec_assignment(ts, 0) == Err::<(SpecExpr, int), SpecError>(er));
            assert(spec_expression(ts, 0) == Err::<(SpecExpr, int), SpecError>(er));
            assert(spec_statement(ts, 0) == Err::<(SpecStmt, int), SpecError>(er));
            assert(spec_program(ts, 0) == Err::<(Seq<SpecStmt>, int), SpecError>(er));
        },
    }
}

/// Evaluating the one-statement program that a valid decimal literal
/// parses to yields the literal's number value, whatever the machine, the
/// supplied native results and the fuel, and leaves the machine unchanged.
/// This is the evaluating leg of the literal round trip: the lexing and
/// parsing legs above produce exactly this program, and the trusted
/// decimal printer's contract closes the loop, reading every finite
/// value's rendering back as the same value.
pub proof fn lemma_number_literal_eval(
    b: u64,
    st: SpecMachine,
    natives: Seq<Result<SpecValue, Seq<char>>>,
    fuel: nat,
)
    ensures
        spec_eval_stmts(
            seq![SpecStmt::Expression(SpecExpr::Literal(SpecValue::Number(b)))],
            0,
            SpecValue::Undefined,
            st,
            natives,
            fuel,
        ) == (st, SpecOutcome::Value(SpecValue::Number(b))),
{
    let stmts = seq![SpecStmt::Expression(SpecExpr::Literal(SpecValue::Number(b)))];
    assert(stmts[0] == SpecStmt::Expression(SpecExpr::Literal(SpecValue::Number(b))));
    assert(spec_eval_expr(SpecExpr::Literal(SpecValue::Number(b)), st, natives, fuel) == (
        st,
        SpecOutcome::Value(SpecValue::Number(b)),
    ));
    assert(spec_eval_stmt(stmts[0], st, natives, fuel) == (
        st,
        SpecOutcome::Value(SpecValue::Number(b)),
    ));
    assert(spec_eval_stmts(stmts, 1, SpecValue::Number(b), st, natives, fuel) == (
        st,
        SpecOutcome::Value(SpecValue::Number(b)),
    ));
}

} // verus!
