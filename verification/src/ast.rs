//! The abstract syntax tree the parser produces and the evaluator walks.
//!
//! Nodes are produced once per parse and owned by their containing
//! statement list; the evaluator never mutates them in place.
use vstd::prelude::*;

use crate::value::{SpecValue, ZanoValue};

verus! {

broadcast use vstd::seq::group_seq_axioms, vstd::std_specs::vec::group_vec_axioms;

/// A binary operator.
#[derive(Clone, Copy, Debug, PartialEq, Eq, Structural)]
pub enum BinaryOp {
    Add,
    Sub,
    Mul,
    Div,
    Mod,
    Equal,
    NotEqual,
    Less,
    Greater,
    LessEqual,
    GreaterEqual,
    And,
    Or,
}

/// A statement.
#[derive(Debug)]
pub enum Statement {
    Expression(Expression),
    VarDeclaration { name: String, value: Option<Expression>, is_const: bool },
    FunctionDeclaration { name: String, params: Vec<String>, body: Vec<Statement>, is_async: bool },
    If { condition: Expression, then_branch: Box<Statement>, else_branch: Option<Box<Statement>> },
    Block(Vec<Statement>),
    Return(Option<Expression>),
    While { condition: Expression, body: Box<Statement> },
    Try {
        try_block: Box<Statement>,
        catch_param: Option<String>,
        catch_block: Option<Box<Statement>>,
    },
    Throw(Expression),
}

/// An expression.
#[derive(Debug)]
pub enum Expression {
    Literal(ZanoValue),
    Identifier(String),
    Binary { left: Box<Expression>, operator: BinaryOp, right: Box<Expression> },
    Call { callee: Box<Expression>, args: Vec<Expression> },
    Member { object: Box<Expression>, property: String },
    Assignment { target: String, value: Box<Expression> },
    Array(Vec<Expression>),
    Object(Vec<(String, Expression)>),
    Index { object: Box<Expression>, index: Box<Expression> },
    Await(Box<Expression>),
}

/// The mathematical form of a statement.
pub enum SpecStmt {
    Expression(SpecExpr),
    VarDeclaration { name: Seq<char>, value: Option<SpecExpr>, is_const: bool },
    FunctionDeclaration {
        name: Seq<char>,
        params: Seq<Seq<char>>,
        body: Seq<SpecStmt>,
        is_async: bool,
    },
    If { condition: SpecExpr, then_branch: Box<SpecStmt>, else_branch: Option<Box<SpecStmt>> },
    Block(Seq<SpecStmt>),
    Return(Option<SpecExpr>),
    While { condition: SpecExpr, body: Box<SpecStmt> },
    Try {
        try_block: Box<SpecStmt>,
        catch_param: Option<Seq<char>>,
        catch_block: Option<Box<SpecStmt>>,
    },
    Throw(SpecExpr),
}

/// The mathematical form of an expression.
pub enum SpecExpr {
    Literal(SpecValue),
    Identifier(Seq<char>),
    Binary { left: Box<SpecExpr>, operator: BinaryOp, right: Box<SpecExpr> },
    Call { callee: Box<SpecExpr>, args: Seq<SpecExpr> },
    Member { object: Box<SpecExpr>, property: Seq<char> },
    Assignment { target: Seq<char>, value: Box<SpecExpr> },
    Array(Seq<SpecExpr>),
    Object(Seq<(Seq<char>, SpecExpr)>),
    Index { object: Box<SpecExpr>, index: Box<SpecExpr> },
    Await(Box<SpecExpr>),
}

/// The views of a vector of parameter names.
pub open spec fn spec_names_view(s: Seq<String>) -> Seq<Seq<char>> {
    Seq::new(s.len(), |i: int| s[i]@)
}

impl View for Statement {
    type V = SpecStmt;

    open spec fn view(&self) -> SpecStmt
        decreases self, 0int,
    {
        match self {
            Statement::Expression(e) => SpecStmt::Expression(e@),
            Statement::VarDeclaration { name, value, is_const } => SpecStmt::VarDeclaration {
                name: name@,
                value: match value {
                    Some(e) => Some(e@),
                    None => None,
                },
                is_const: *is_const,
            },
            Statement::FunctionDeclaration {
                name,
                params,
                body,
                is_async,
            } => SpecStmt::FunctionDeclaration {
                name: name@,
                params: spec_names_view(params@),
                body: spec_stmts_of_vec(*body),
                is_async: *is_async,
            },
            Statement::If { condition, then_branch, else_branch } => SpecStmt::If {
                condition: condition@,
                then_branch: Box::new((**then_branch)@),
                else_branch: match else_branch {
                    Some(b) => Some(Box::new((**b)@)),
                    None => None,
                },
            },
            Statement::Block(stmts) => SpecStmt::Block(spec_stmts_of_vec(*stmts)),
            Statement::Return(value) => SpecStmt::Return(
                match value {
                    Some(e) => Some(e@),
                    None => None,
                },
            ),
            Statement::While { condition, body } => SpecStmt::While {
                condition: condition@,
                body: Box::new((**body)@),
            },
            Statement::Try { try_block, catch_param, catch_block } => SpecStmt::Try {
                try_block: Box::new((**try_block)@),
                catch_param: match catch_param {
                    Some(p) => Some(p@),
                    None => None,
                },
                catch_block: match catch_block {
                    Some(b) => Some(Box::new((**b)@)),
                    None => None,
                },
            },
            Statement::Throw(e) => SpecStmt::Throw(e@),
        }
    }
}

/// The views of a vector of statements.
pub open spec fn spec_stmts_of_vec(stmts: Vec<Statement>) -> Seq<SpecStmt>
    decreases stmts, 2int,
{
    spec_stmts_view(stmts@)
}

/// The views of a sequence of statements.
pub open spec fn spec_stmts_view(s: Seq<Statement>) -> Seq<SpecStmt>
    decreases s, 2int,
{
    Seq::new(s.len(), |i: int| spec_stmt_elem_view(s, i))
}

/// The view of the statement of a sequence at `i`, or an empty block out of
/// range.
pub open spec fn spec_stmt_elem_view(s: Seq<Statement>, i: int) -> SpecStmt
    decreases s, 1int,
{
    if 0 <= i < s.len() {
        s[i]@
    } else {
        SpecStmt::Block(Seq::empty())
    }
}

impl View for Expression {
    type V = SpecExpr;

    open spec fn view(&self) -> SpecExpr
        decreases self, 0int,
    {
        match self {
            Expression::Literal(v) => SpecExpr::Literal(v@),
            Expression::Identifier(n) => SpecExpr::Identifier(n@),
            Expression::Binary { left, operator, right } => SpecExpr::Binary {
                left: Box::new((**left)@),
                operator: *operator,
                right: Box::new((**right)@),
            },
            Expression::Call { callee, args } => SpecExpr::Call {
                callee: Box::new((**callee)@),
                args: spec_exprs_of_vec(*args),
            },
            Expression::Member { object, property } => SpecExpr::Member {
                object: Box::new((**object)@),
                property: property@,
            },
            Expression::Assignment { target, value } => SpecExpr::Assignment {
                target: target@,
                value: Box::new((**value)@),
            },
            Expression::Array(els) => SpecExpr::Array(spec_exprs_of_vec(*els)),
            Expression::Object(pairs) => SpecExpr::Object(spec_expr_pairs_of_vec(*pairs)),
            Expression::Index { object, index } => SpecExpr::Index {
                object: Box::new((**object)@),
                index: Box::new((**index)@),
            },
            Expression::Await(e) => SpecExpr::Await(Box::new((**e)@)),
        }
    }
}

/// The views of a vector of expressions.
pub open spec fn spec_exprs_of_vec(els: Vec<Expression>) -> Seq<SpecExpr>
    decreases els, 2int,
{
    spec_exprs_view(els@)
}

/// The views of a sequence of expressions.
pub open spec fn spec_exprs_view(s: Seq<Expression>) -> Seq<SpecExpr>
    decreases s, 2int,
{
    Seq::new(s.len(), |i: int| spec_expr_elem_view(s, i))
}

/// The view of the expression of a sequence at `i`, or an undefined literal
/// out of range.
pub open spec fn spec_expr_elem_view(s: Seq<Expression>, i: int) -> SpecExpr
    decreases s, 1int,
{
    if 0 <= i < s.len() {
        s[i]@
    } else {
        SpecExpr::Literal(SpecValue::Undefined)
    }
}

/// The views of a vector of object-literal entries.
pub open spec fn spec_expr_pairs_of_vec(ps: Vec<(String, Expression)>) -> Seq<
    (Seq<char>, SpecExpr),
>
    decreases ps, 2int,
{
    spec_expr_pairs_view(ps@)
}

/// The views of a sequence of object-literal entries.
pub open spec fn spec_expr_pairs_view(s: Seq<(String, Expression)>) -> Seq<(Seq<char>, SpecExpr)>
    decreases s, 2int,
{
    Seq::new(s.len(), |i: int| spec_expr_pair_elem_view(s, i))
}

/// The view of the entry of a sequence at `i`, or an empty binding out of
/// range.
pub open spec fn spec_expr_pair_elem_view(s: Seq<(String, Expression)>, i: int) -> (
    Seq<char>,
    SpecExpr,
)
    decreases s, 1int,
{
    if 0 <= i < s.len() {
        spec_expr_pair_view(s[i])
    } else {
        (Seq::empty(), SpecExpr::Literal(SpecValue::Undefined))
    }
}

/// The view of one object-literal entry.
pub open spec fn spec_expr_pair_view(p: (String, Expression)) -> (Seq<char>, SpecExpr)
    decreases p, 0int,
{
    (p.0@, p.1@)
}

/// A statement sequence and its view have the same length.
pub broadcast proof fn lemma_stmts_view_len(s: Seq<Statement>)
    ensures
        (#[trigger] spec_stmts_view(s)).len() == s.len(),
{
}

/// The view of a statement sequence is the sequence of the views.
pub broadcast proof fn lemma_stmts_view_index(s: Seq<Statement>, i: int)
    requires
        0 <= i < s.len(),
    ensures
        #[trigger] spec_stmts_view(s)[i] == s[i]@,
{
    assert(spec_stmts_view(s)[i] == spec_stmt_elem_view(s, i));
}

/// An expression sequence and its view have the same length.
pub broadcast proof fn lemma_exprs_view_len(s: Seq<Expression>)
    ensures
        (#[trigger] spec_exprs_view(s)).len() == s.len(),
{
}

/// The view of an expression sequence is the sequence of the views.
pub broadcast proof fn lemma_exprs_view_index(s: Seq<Expression>, i: int)
    requires
        0 <= i < s.len(),
    ensures
        #[trigger] spec_exprs_view(s)[i] == s[i]@,
{
    assert(spec_exprs_view(s)[i] == spec_expr_elem_view(s, i));
}

/// An entry sequence and its view have the same length.
pub broadcast proof fn lemma_expr_pairs_view_len(s: Seq<(String, Expression)>)
    ensures
        (#[trigger] spec_expr_pairs_view(s)).len() == s.len(),
{
}

/// The view of an entry sequence is the sequence of the pairwise views.
pub broadcast proof fn lemma_expr_pairs_view_index(s: Seq<(String, Expression)>, i: int)
    requires
        0 <= i < s.len(),
    ensures
        #[trigger] spec_expr_pairs_view(s)[i] == (s[i].0@, s[i].1@),
{
    assert(spec_expr_pairs_view(s)[i] == spec_expr_pair_elem_view(s, i));
}

/// A name sequence and its view have the same length.
pub broadcast proof fn lemma_names_view_len(s: Seq<String>)
    ensures
        (#[trigger] spec_names_view(s)).len() == s.len(),
{
}

/// The view of a name sequence is the sequence of the views.
pub broadcast proof fn lemma_names_view_index(s: Seq<String>, i: int)
    requires
        0 <= i < s.len(),
    ensures
        #[trigger] spec_names_view(s)[i] == s[i]@,
{
}

/// An exact copy of a statement: the copy's view is the original's.
pub fn clone_stmt(s: &Statement) -> (r: Statement)
    ensures
        r@ == s@,
    decreases *s,
{
    match s {
        Statement::Expression(e) => Statement::Expression(clone_expr(e)),
        Statement::VarDeclaration { name, value, is_const } => Statement::VarDeclaration {
            name: name.clone(),
            value: match value {
                Some(e) => Some(clone_expr(e)),
                None => None,
            },
            is_const: *is_const,
        },
        Statement::FunctionDeclaration { name, params, body, is_async } => {
            let params2 = clone_names(params);
            let body2 = clone_stmts(body);
            proof {
                assert(spec_stmts_of_vec(body2) == spec_stmts_of_vec(*body));
            }
            Statement::FunctionDeclaration {
                name: name.clone(),
                params: params2,
                body: body2,
                is_async: *is_async,
            }
        },
        Statement::If { condition, then_branch, else_branch } => Statement::If {
            condition: clone_expr(condition),
            then_branch: Box::new(clone_stmt(then_branch)),
            else_branch: match else_branch {
                Some(b) => Some(Box::new(clone_stmt(b))),
                None => None,
            },
        },
        Statement::Block(stmts) => {
            let stmts2 = clone_stmts(stmts);
            proof {
                assert(spec_stmts_of_vec(stmts2) == spec_stmts_of_vec(*stmts));
            }
            Statement::Block(stmts2)
        },
        Statement::Return(value) => Statement::Return(
            match value {
                Some(e) => Some(clone_expr(e)),
                None => None,
            },
        ),
        Statement::While { condition, body } => Statement::While {
            condition: clone_expr(condition),
            body: Box::new(clone_stmt(body)),
        },
        Statement::Try { try_block, catch_param, catch_block } => Statement::Try {
            try_block: Box::new(clone_stmt(try_block)),
            catch_param: match catch_param {
                Some(p) => Some(p.clone()),
                None => None,
            },
            catch_block: match catch_block {
                Some(b) => Some(Box::new(clone_stmt(b))),
                None => None,
            },
        },
        Statement::Throw(e) => Statement::Throw(clone_expr(e)),
    }
}

/// An elementwise copy of a vector of statements.
pub fn clone_stmts(stmts: &Vec<Statement>) -> (out: Vec<Statement>)
    ensures
        spec_stmts_view(out@) == spec_stmts_view(stmts@),
        out@.len() == stmts@.len(),
    decreases *stmts,
{
    broadcast use group_ast_view_lemmas;

    let mut out: Vec<Statement> = Vec::new();
    let mut i: usize = 0;
    while i < stmts.len()
        invariant
            i <= stmts.len(),
            out@.len() == i as int,
            forall|j: int| 0 <= j < i as int ==> #[trigger] out@[j]@ == stmts@[j]@,
        decreases stmts.len() - i,
    {
        let entry = clone_stmt(&stmts[i]);
        out.push(entry);
        i = i + 1;
    }
    proof {
        assert(spec_stmts_view(out@) =~= spec_stmts_view(stmts@));
    }
    out
}

/// An exact copy of an expression: the copy's view is the original's.
pub fn clone_expr(e: &Expression) -> (r: Expression)
    ensures
        r@ == e@,
    decreases *e,
{
    match e {
        Expression::Literal(v) => Expression::Literal(v.clone_value()),
        Expression::Identifier(n) => Expression::Identifier(n.clone()),
        Expression::Binary { left, operator, right } => Expression::Binary {
            left: Box::new(clone_expr(left)),
            operator: *operator,
            right: Box::new(clone_expr(right)),
        },
        Expression::Call { callee, args } => {
            let callee2 = Box::new(clone_expr(callee));
            let args2 = clone_exprs(args);
            proof {
                assert(spec_exprs_of_vec(args2) == spec_exprs_of_vec(*args));
            }
            Expression::Call { callee: callee2, args: args2 }
        },
        Expression::Member { object, property } => Expression::Member {
            object: Box::new(clone_expr(object)),
            property: property.clone(),
        },
        Expression::Assignment { target, value } => Expression::Assignment {
            target: target.clone(),
            value: Box::new(clone_expr(value)),
        },
        Expression::Array(els) => {
            let els2 = clone_exprs(els);
            proof {
                assert(spec_exprs_of_vec(els2) == spec_exprs_of_vec(*els));
            }
            Expression::Array(els2)
        },
        Expression::Object(pairs) => {
            let pairs2 = clone_expr_pairs(pairs);
            proof {
                assert(spec_expr_pairs_of_vec(pairs2) == spec_expr_pairs_of_vec(*pairs));
            }
            Expression::Object(pairs2)
        },
        Expression::Index { object, index } => Expression::Index {
            object: Box::new(clone_expr(object)),
            index: Box::new(clone_expr(index)),
        },
        Expression::Await(inner) => Expression::Await(Box::new(clone_expr(inner))),
    }
}

/// An elementwise copy of a vector of expressions.
pub fn clone_exprs(els: &Vec<Expression>) -> (out: Vec<Expression>)
    ensures
        spec_exprs_view(out@) == spec_exprs_view(els@),
        out@.len() == els@.len(),
    decreases *els,
{
    broadcast use group_ast_view_lemmas;

    let mut out: Vec<Expression> = Vec::new();
    let mut i: usize = 0;
    while i < els.len()
        invariant
            i <= els.len(),
            out@.len() == i as int,
            forall|j: int| 0 <= j < i as int ==> #[trigger] out@[j]@ == els@[j]@,
        decreases els.len() - i,
    {
        let entry = clone_expr(&els[i]);
        out.push(entry);
        i = i + 1;
    }
    proof {
        assert(spec_exprs_view(out@) =~= spec_exprs_view(els@));
    }
    out
}

/// An elementwise copy of a vector of object-literal entries.
pub fn clone_expr_pairs(ps: &Vec<(String, Expression)>) -> (out: Vec<(String, Expression)>)
    ensures
        spec_expr_pairs_view(out@) == spec_expr_pairs_view(ps@),
        out@.len() == ps@.len(),
    decreases *ps,
{
    broadcast use group_ast_view_lemmas;

    let mut out: Vec<(String, Expression)> = Vec::new();
    let mut i: usize = 0;
    while i < ps.len()
        invariant
            i <= ps.len(),
            out@.len() == i as int,
            forall|j: int|
                0 <= j < i as int ==> #[trigger] out@[j].0@ == ps@[j].0@ && out@[j].1@
                    == ps@[j].1@,
        decreases ps.len() - i,
    {
        let key = ps[i].0.clone();
        let val = clone_expr(&ps[i].1);
        out.push((key, val));
        i = i + 1;
    }
    proof {
        assert(spec_expr_pairs_view(out@) =~= spec_expr_pairs_view(ps@));
    }
    out
}

/// An elementwise copy of a vector of names.
pub fn clone_names(names: &Vec<String>) -> (out: Vec<String>)
    ensures
        spec_names_view(out@) == spec_names_view(names@),
        out@.len() == names@.len(),
{
    broadcast use group_ast_view_lemmas;

    let mut out: Vec<String> = Vec::new();
    let mut i: usize = 0;
    while i < names.len()
        invariant
            i <= names.len(),
            out@.len() == i as int,
            forall|j: int| 0 <= j < i as int ==> #[trigger] out@[j]@ == names@[j]@,
        decreases names.len() - i,
    {
        let entry = names[i].clone();
        out.push(entry);
        i = i + 1;
    }
    proof {
        assert(spec_names_view(out@) =~= spec_names_view(names@));
    }
    out
}

/// All view description lemmas of the syntax tree together.
pub broadcast group group_ast_view_lemmas {
    lemma_stmts_view_len,
    lemma_stmts_view_index,
    lemma_exprs_view_len,
    lemma_exprs_view_index,
    lemma_expr_pairs_view_len,
    lemma_expr_pairs_view_index,
    lemma_names_view_len,
    lemma_names_view_index,
}

} // verus!
