//! The evaluator: walks a statement list against the runtime's shared
//! state and yields the last statement's value.
//!
//! A native function's work (the console, the filesystem, the network)
//! cannot happen here, so evaluation runs against a list of native results
//! the host has already supplied, in call order. When evaluation reaches a
//! native call beyond that list it stops and reports the call's registry
//! name and evaluated arguments; the host performs the call, appends its
//! result to the list, restores the runtime to its state before the run
//! and evaluates again. Evaluation is deterministic given the list, so the
//! replay reaches the same point and consumes the new result there. A fuel
//! bound makes every run finite: a `while` loop iteration and a function
//! call each consume one unit, and an exhausted budget is reported as its
//! own outcome, distinct from any script failure.
use vstd::prelude::*;

use crate::ast::{
    clone_names, clone_stmts, group_ast_view_lemmas, spec_expr_pairs_of_vec, spec_expr_pairs_view,
    spec_exprs_of_vec, spec_exprs_view, spec_names_view, spec_stmts_of_vec, spec_stmts_view,
    Expression, SpecExpr, SpecStmt, Statement,
};
use crate::errors::{SpecError, ZanoError};
use crate::ops::{
    apply_binary_operator, call_target_name, index_value, member_value, spec_apply_binary,
    spec_call_target, spec_index_value, spec_member_value,
};
use crate::render::{spec_display, zano_value_to_string};
use crate::runtime::{
    spec_fn_get, spec_fn_set, FunctionDef, SpecFunctionDef, ZanoRuntime,
};
use crate::value::{
    group_view_lemmas, is_truthy, obj_set, spec_obj_get, spec_obj_set, spec_pairs_view,
    spec_truthy, spec_values_view, SpecValue, ZanoValue,
};

verus! {

broadcast use vstd::seq::group_seq_axioms, vstd::std_specs::vec::group_vec_axioms;

/// The evaluator's view of the runtime between two steps: the flat value
/// environment, the callable registry, the module registry, and how many
/// of the supplied native results have been consumed.
pub struct SpecMachine {
    pub env: Seq<(Seq<char>, SpecValue)>,
    pub fns: Seq<(Seq<char>, SpecFunctionDef)>,
    pub mods: Seq<(Seq<char>, SpecValue)>,
    pub used: nat,
}

/// How an evaluation run ends: a value, a script failure, a native call
/// the host must perform, or an exhausted fuel budget.
pub enum SpecOutcome {
    Value(SpecValue),
    Failure(SpecError),
    NeedNative(Seq<char>, Seq<SpecValue>),
    OutOfFuel,
}

/// The mathematical form of a supplied native-result list.
pub open spec fn spec_natives_view(natives: Seq<Result<ZanoValue, String>>) -> Seq<
    Result<SpecValue, Seq<char>>,
> {
    Seq::new(
        natives.len(),
        |i: int|
            match natives[i] {
                Ok(v) => Ok(v@),
                Err(m) => Err(m@),
            },
    )
}

/// The machine a runtime and a consumed count stand for.
pub open spec fn machine_of(rt: ZanoRuntime, used: nat) -> SpecMachine {
    SpecMachine {
        env: rt.globals_view(),
        fns: rt.functions_view(),
        mods: rt.modules_view(),
        used,
    }
}

/// The environment after binding each parameter, from `i` on, to the
/// argument at its position, or to `undefined` where the arguments run out.
pub open spec fn spec_bind_params(
    env: Seq<(Seq<char>, SpecValue)>,
    params: Seq<Seq<char>>,
    args: Seq<SpecValue>,
    i: int,
) -> Seq<(Seq<char>, SpecValue)>
    decreases params.len() - i,
{
    if i < 0 || i >= params.len() {
        env
    } else {
        let v = if i < args.len() {
            args[i]
        } else {
            SpecValue::Undefined
        };
        spec_bind_params(spec_obj_set(env, params[i], v), params, args, i + 1)
    }
}

/// What `require` yields against a module registry: the module the first
/// argument names, or the failure naming a missing module or asking for a
/// module name.
pub open spec fn spec_require_value(
    mods: Seq<(Seq<char>, SpecValue)>,
    args: Seq<SpecValue>,
) -> Result<SpecValue, Seq<char>> {
    if args.len() > 0 && args[0] is String {
        let n = args[0]->String_0;
        match spec_obj_get(mods, n) {
            Some(v) => Ok(v),
            None => Err("Module not found: "@ + n),
        }
    } else {
        Err("require requires a module name string"@)
    }
}

/// Evaluates the statements of a list from `i` on: each in order, the
/// machine threaded through, the value of the last one kept; a failure, a
/// needed native call or exhausted fuel stops the list short.
pub open spec fn spec_eval_stmts(
    stmts: Seq<SpecStmt>,
    i: int,
    last: SpecValue,
    st: SpecMachine,
    natives: Seq<Result<SpecValue, Seq<char>>>,
    fuel: nat,
) -> (SpecMachine, SpecOutcome)
    decreases fuel, 1int, stmts, stmts.len() - i,
{
    if i < 0 || i >= stmts.len() {
        (st, SpecOutcome::Value(last))
    } else {
        let r1 = spec_eval_stmt(stmts[i], st, natives, fuel);
        match r1.1 {
            SpecOutcome::Value(v) => spec_eval_stmts(stmts, i + 1, v, r1.0, natives, fuel),
            _ => r1,
        }
    }
}

/// Evaluates one statement.
///
/// A declaration binds its name and yields `undefined`; a function
/// declaration also registers the callable and writes the placeholder
/// function value. `if` and `while` coerce their condition by truthiness,
/// and a `while` iteration consumes one unit of fuel. A `try` catches a
/// script failure of its body, binds the failure's display text under the
/// catch parameter where one is named, and runs the catch body; with no
/// catch body the failure propagates. A needed native call and exhausted
/// fuel are never caught. `return` yields its value to the enclosing list
/// without unwinding through nested statements, as the source language
/// defines it. `throw` raises a failure carrying its value's display text.
pub open spec fn spec_eval_stmt(
    stmt: SpecStmt,
    st: SpecMachine,
    natives: Seq<Result<SpecValue, Seq<char>>>,
    fuel: nat,
) -> (SpecMachine, SpecOutcome)
    decreases fuel, 1int, stmt, 0int,
{
    match stmt {
        SpecStmt::Expression(e) => spec_eval_expr(e, st, natives, fuel),
        SpecStmt::VarDeclaration { name, value, .. } => match value {
            Some(e) => {
                let r1 = spec_eval_expr(e, st, natives, fuel);
                match r1.1 {
                    SpecOutcome::Value(v) => (
                        SpecMachine { env: spec_obj_set(r1.0.env, name, v), ..r1.0 },
                        SpecOutcome::Value(SpecValue::Undefined),
                    ),
                    _ => r1,
                }
            },
            None => (
                SpecMachine { env: spec_obj_set(st.env, name, SpecValue::Undefined), ..st },
                SpecOutcome::Value(SpecValue::Undefined),
            ),
        },
        SpecStmt::FunctionDeclaration { name, params, body, .. } => {
            let st1 = SpecMachine {
                fns: spec_fn_set(st.fns, name, SpecFunctionDef::UserDefined { params, body }),
                ..st
            };
            (
                SpecMachine {
                    env: spec_obj_set(st1.env, name, SpecValue::Function("user_defined"@)),
                    ..st1
                },
                SpecOutcome::Value(SpecValue::Undefined),
            )
        },
        SpecStmt::If { condition, then_branch, else_branch } => {
            let r1 = spec_eval_expr(condition, st, natives, fuel);
            match r1.1 {
                SpecOutcome::Value(v) => if spec_truthy(v) {
                    spec_eval_stmt(*then_branch, r1.0, natives, fuel)
                } else {
                    match else_branch {
                        Some(b) => spec_eval_stmt(*b, r1.0, natives, fuel),
                        None => (r1.0, SpecOutcome::Value(SpecValue::Undefined)),
                    }
                },
                _ => r1,
            }
        },
        SpecStmt::Block(ss) => spec_eval_stmts(ss, 0, SpecValue::Undefined, st, natives, fuel),
        SpecStmt::Return(value) => match value {
            Some(e) => spec_eval_expr(e, st, natives, fuel),
            None => (st, SpecOutcome::Value(SpecValue::Undefined)),
        },
        SpecStmt::While { condition, body } => {
            let r1 = spec_eval_expr(condition, st, natives, fuel);
            match r1.1 {
                SpecOutcome::Value(v) => if !spec_truthy(v) {
                    (r1.0, SpecOutcome::Value(SpecValue::Undefined))
                } else {
                    let r2 = spec_eval_stmt(*body, r1.0, natives, fuel);
                    match r2.1 {
                        SpecOutcome::Value(_) => if fuel == 0 {
                            (r2.0, SpecOutcome::OutOfFuel)
                        } else {
                            spec_eval_stmt(
                                SpecStmt::While { condition, body },
                                r2.0,
                                natives,
                                (fuel - 1) as nat,
                            )
                        },
                        _ => r2,
                    }
                },
                _ => r1,
            }
        },
        SpecStmt::Try { try_block, catch_param, catch_block } => {
            let r1 = spec_eval_stmt(*try_block, st, natives, fuel);
            match r1.1 {
                SpecOutcome::Failure(err) => match catch_block {
                    Some(cb) => {
                        let st1 = match catch_param {
                            Some(p) => SpecMachine {
                                env: spec_obj_set(
                                    r1.0.env,
                                    p,
                                    SpecValue::String(err.spec_message()),
                                ),
                                ..r1.0
                            },
                            None => r1.0,
                        };
                        spec_eval_stmt(*cb, st1, natives, fuel)
                    },
                    None => r1,
                },
                _ => r1,
            }
        },
        SpecStmt::Throw(e) => {
            let r1 = spec_eval_expr(e, st, natives, fuel);
            match r1.1 {
                SpecOutcome::Value(v) => (
                    r1.0,
                    SpecOutcome::Failure(SpecError::Runtime { message: spec_display(v) }),
                ),
                _ => r1,
            }
        },
    }
}

/// Evaluates one expression.
///
/// A call resolves its callee to a registry name before evaluating any
/// argument, so an unsupported callee shape fails early; the arguments then
/// evaluate left to right before the registry lookup, so their effects
/// happen even when the lookup fails. Dispatch consumes one unit of fuel.
/// A user-defined callable binds its parameters positionally into the flat
/// environment and runs its body as a fresh statement list; a native call
/// consumes the next supplied native result or stops the run to ask the
/// host for one; `require` is the module lookup. Member access, indexing
/// and `await` follow the expression-level rules of `ops`.
pub open spec fn spec_eval_expr(
    expr: SpecExpr,
    st: SpecMachine,
    natives: Seq<Result<SpecValue, Seq<char>>>,
    fuel: nat,
) -> (SpecMachine, SpecOutcome)
    decreases fuel, 0int, expr, 0int,
{
    match expr {
        SpecExpr::Literal(v) => (st, SpecOutcome::Value(v)),
        SpecExpr::Identifier(n) => match spec_obj_get(st.env, n) {
            Some(v) => (st, SpecOutcome::Value(v)),
            None => (
                st,
                SpecOutcome::Failure(
                    SpecError::Runtime { message: "Undefined variable: "@ + n },
                ),
            ),
        },
        SpecExpr::Binary { left, operator, right } => {
            let r1 = spec_eval_expr(*left, st, natives, fuel);
            match r1.1 {
                SpecOutcome::Value(a) => {
                    let r2 = spec_eval_expr(*right, r1.0, natives, fuel);
                    match r2.1 {
                        SpecOutcome::Value(b) => match spec_apply_binary(a, operator, b) {
                            Ok(v) => (r2.0, SpecOutcome::Value(v)),
                            Err(m) => (
                                r2.0,
                                SpecOutcome::Failure(SpecError::Runtime { message: m }),
                            ),
                        },
                        _ => r2,
                    }
                },
                _ => r1,
            }
        },
        SpecExpr::Call { callee, args } => match spec_call_target(*callee) {
            Err(m) => (st, SpecOutcome::Failure(SpecError::Runtime { message: m })),
            Ok(name) => {
                let r1 = spec_eval_exprs(args, 0, Seq::empty(), st, natives, fuel);
                match r1.1 {
                    Err(oc) => (r1.0, oc),
                    Ok(vals) => if fuel == 0 {
                        (r1.0, SpecOutcome::OutOfFuel)
                    } else {
                        spec_dispatch(name, vals, r1.0, natives, (fuel - 1) as nat)
                    },
                }
            },
        },
        SpecExpr::Member { object, property } => {
            let r1 = spec_eval_expr(*object, st, natives, fuel);
            match r1.1 {
                SpecOutcome::Value(v) => (
                    r1.0,
                    SpecOutcome::Value(spec_member_value(v, property)),
                ),
                _ => r1,
            }
        },
        SpecExpr::Assignment { target, value } => {
            let r1 = spec_eval_expr(*value, st, natives, fuel);
            match r1.1 {
                SpecOutcome::Value(v) => (
                    SpecMachine { env: spec_obj_set(r1.0.env, target, v), ..r1.0 },
                    SpecOutcome::Value(v),
                ),
                _ => r1,
            }
        },
        SpecExpr::Array(els) => {
            let r1 = spec_eval_exprs(els, 0, Seq::empty(), st, natives, fuel);
            match r1.1 {
                Ok(vals) => (r1.0, SpecOutcome::Value(SpecValue::Array(vals))),
                Err(oc) => (r1.0, oc),
            }
        },
        SpecExpr::Object(pairs) => {
            let r1 = spec_eval_pairs(pairs, 0, Seq::empty(), st, natives, fuel);
            match r1.1 {
                Ok(ps) => (r1.0, SpecOutcome::Value(SpecValue::Object(ps))),
                Err(oc) => (r1.0, oc),
            }
        },
        SpecExpr::Index { object, index } => {
            let r1 = spec_eval_expr(*object, st, natives, fuel);
            match r1.1 {
                SpecOutcome::Value(ov) => {
                    let r2 = spec_eval_expr(*index, r1.0, natives, fuel);
                    match r2.1 {
                        SpecOutcome::Value(iv) => (
                            r2.0,
                            SpecOutcome::Value(spec_index_value(ov, iv)),
                        ),
                        _ => r2,
                    }
                },
                _ => r1,
            }
        },
        SpecExpr::Await(inner) => spec_eval_expr(*inner, st, natives, fuel),
    }
}

/// Dispatches an evaluated call to the callable registered under `name`,
/// with the fuel unit for the dispatch already paid.
pub open spec fn spec_dispatch(
    name: Seq<char>,
    vals: Seq<SpecValue>,
    st: SpecMachine,
    natives: Seq<Result<SpecValue, Seq<char>>>,
    fuel: nat,
) -> (SpecMachine, SpecOutcome)
    decreases fuel, 0int, vals, 0int,
{
    match spec_fn_get(st.fns, name) {
        None => (
            st,
            SpecOutcome::Failure(
                SpecError::Runtime { message: "Undefined function: "@ + name },
            ),
        ),
        Some(SpecFunctionDef::UserDefined { params, body }) => {
            let st1 = SpecMachine { env: spec_bind_params(st.env, params, vals, 0), ..st };
            if fuel == 0 {
                (st1, SpecOutcome::OutOfFuel)
            } else {
                spec_eval_stmts(body, 0, SpecValue::Undefined, st1, natives, (fuel - 1) as nat)
            }
        },
        Some(SpecFunctionDef::Native) => if st.used < natives.len() {
            let st2 = SpecMachine { used: st.used + 1, ..st };
            match natives[st.used as int] {
                Ok(v) => (st2, SpecOutcome::Value(v)),
                Err(m) => (st2, SpecOutcome::Failure(SpecError::Runtime { message: m })),
            }
        } else {
            (st, SpecOutcome::NeedNative(name, vals))
        },
        Some(SpecFunctionDef::Require) => match spec_require_value(st.mods, vals) {
            Ok(v) => (st, SpecOutcome::Value(v)),
            Err(m) => (st, SpecOutcome::Failure(SpecError::Runtime { message: m })),
        },
    }
}

/// Evaluates the expressions of a list from `i` on, left to right,
/// accumulating their values.
pub open spec fn spec_eval_exprs(
    exprs: Seq<SpecExpr>,
    i: int,
    acc: Seq<SpecValue>,
    st: SpecMachine,
    natives: Seq<Result<SpecValue, Seq<char>>>,
    fuel: nat,
) -> (SpecMachine, Result<Seq<SpecValue>, SpecOutcome>)
    decreases fuel, 0int, exprs, exprs.len() - i,
{
    if i < 0 || i >= exprs.len() {
        (st, Ok(acc))
    } else {
        let r1 = spec_eval_expr(exprs[i], st, natives, fuel);
        match r1.1 {
            SpecOutcome::Value(v) => spec_eval_exprs(exprs, i + 1, acc.push(v), r1.0, natives, fuel),
            _ => (r1.0, Err(r1.1)),
        }
    }
}

/// Evaluates the entries of an object literal from `i` on, left to right;
/// a repeated key replaces its earlier binding, so the last entry wins.
pub open spec fn spec_eval_pairs(
    pairs: Seq<(Seq<char>, SpecExpr)>,
    i: int,
    acc: Seq<(Seq<char>, SpecValue)>,
    st: SpecMachine,
    natives: Seq<Result<SpecValue, Seq<char>>>,
    fuel: nat,
) -> (SpecMachine, Result<Seq<(Seq<char>, SpecValue)>, SpecOutcome>)
    decreases fuel, 0int, pairs, pairs.len() - i,
{
    if i < 0 || i >= pairs.len() {
        (st, Ok(acc))
    } else {
        let r1 = spec_eval_expr(pairs[i].1, st, natives, fuel);
        match r1.1 {
            SpecOutcome::Value(v) => spec_eval_pairs(
                pairs,
                i + 1,
                spec_obj_set(acc, pairs[i].0, v),
                r1.0,
                natives,
                fuel,
            ),
            _ => (r1.0, Err(r1.1)),
        }
    }
}

/// One outcome of a host-driven evaluation run: the program's value, a
/// script failure, a native call the host must perform before evaluation
/// can go further, or an exhausted fuel budget.
#[derive(Debug, PartialEq)]
pub enum EvalStep {
    Done { value: ZanoValue },
    Failed { error: ZanoError },
    NeedNative { name: String, args: Vec<ZanoValue> },
    OutOfFuel,
}

impl View for EvalStep {
    type V = SpecOutcome;

    open spec fn view(&self) -> SpecOutcome {
        match self {
            EvalStep::Done { value } => SpecOutcome::Value(value@),
            EvalStep::Failed { error } => SpecOutcome::Failure(error@),
            EvalStep::NeedNative { name, args } => SpecOutcome::NeedNative(
                name@,
                spec_values_view(args@),
            ),
            EvalStep::OutOfFuel => SpecOutcome::OutOfFuel,
        }
    }
}

/// Binds each parameter positionally into the flat environment, missing
/// arguments as `undefined`, as a user-defined call does.
fn bind_params(rt: &mut ZanoRuntime, params: &Vec<String>, vals: &Vec<ZanoValue>)
    ensures
        final(rt).globals_view() == spec_bind_params(
            old(rt).globals_view(),
            spec_names_view(params@),
            spec_values_view(vals@),
            0,
        ),
        final(rt).functions_view() == old(rt).functions_view(),
        final(rt).modules_view() == old(rt).modules_view(),
{
    broadcast use group_ast_view_lemmas, group_view_lemmas;

    let mut i: usize = 0;
    while i < params.len()
        invariant
            i <= params.len(),
            spec_bind_params(
                old(rt).globals_view(),
                spec_names_view(params@),
                spec_values_view(vals@),
                0,
            ) == spec_bind_params(
                rt.globals_view(),
                spec_names_view(params@),
                spec_values_view(vals@),
                i as int,
            ),
            rt.functions_view() == old(rt).functions_view(),
            rt.modules_view() == old(rt).modules_view(),
        decreases params.len() - i,
    {
        let v = if i < vals.len() {
            vals[i].clone_value()
        } else {
            ZanoValue::Undefined
        };
        let name = params[i].clone();
        rt.bind_variable(name, v);
        i = i + 1;
    }
}

/// Evaluates the statements of a list from `i` on, threading the value of
/// the last one.
fn eval_stmts(
    rt: &mut ZanoRuntime,
    stmts: &Vec<Statement>,
    i: usize,
    last: ZanoValue,
    natives: &Vec<Result<ZanoValue, String>>,
    used: &mut usize,
    fuel: usize,
) -> (r: EvalStep)
    ensures
        ({
            let res = spec_eval_stmts(
                spec_stmts_view(stmts@),
                i as int,
                last@,
                machine_of(*old(rt), *old(used) as nat),
                spec_natives_view(natives@),
                fuel as nat,
            );
            machine_of(*final(rt), *final(used) as nat) == res.0 && r@ == res.1
        }),
    decreases fuel, 1int, stmts@, stmts@.len() - i,
{
    broadcast use group_ast_view_lemmas;

    if i >= stmts.len() {
        EvalStep::Done { value: last }
    } else {
        let step = eval_stmt(rt, &stmts[i], natives, used, fuel);
        match step {
            EvalStep::Done { value } => eval_stmts(rt, stmts, i + 1, value, natives, used, fuel),
            other => other,
        }
    }
}

/// Evaluates one statement against the runtime.
fn eval_stmt(
    rt: &mut ZanoRuntime,
    stmt: &Statement,
    natives: &Vec<Result<ZanoValue, String>>,
    used: &mut usize,
    fuel: usize,
) -> (r: EvalStep)
    ensures
        ({
            let res = spec_eval_stmt(
                stmt@,
                machine_of(*old(rt), *old(used) as nat),
                spec_natives_view(natives@),
                fuel as nat,
            );
            machine_of(*final(rt), *final(used) as nat) == res.0 && r@ == res.1
        }),
    decreases fuel, 1int, *stmt, 0int,
{
    broadcast use group_ast_view_lemmas;

    match stmt {
        Statement::Expression(e) => eval_expr(rt, e, natives, used, fuel),
        Statement::VarDeclaration { name, value, .. } => match value {
            Some(e) => {
                let step = eval_expr(rt, e, natives, used, fuel);
                match step {
                    EvalStep::Done { value: v } => {
                        rt.bind_variable(name.clone(), v);
                        EvalStep::Done { value: ZanoValue::Undefined }
                    },
                    other => other,
                }
            },
            None => {
                rt.bind_variable(name.clone(), ZanoValue::Undefined);
                EvalStep::Done { value: ZanoValue::Undefined }
            },
        },
        Statement::FunctionDeclaration { name, params, body, .. } => {
            let params2 = clone_names(params);
            let body2 = clone_stmts(body);
            proof {
                assert(spec_stmts_of_vec(body2) == spec_stmts_of_vec(*body));
                assert(spec_names_view(params2@) == spec_names_view(params@));
            }
            rt.register_function(
                name.clone(),
                FunctionDef::UserDefined { params: params2, body: body2 },
            );
            rt.bind_variable(name.clone(), ZanoValue::Function("user_defined".to_owned()));
            EvalStep::Done { value: ZanoValue::Undefined }
        },
        Statement::If { condition, then_branch, else_branch } => {
            let step = eval_expr(rt, condition, natives, used, fuel);
            match step {
                EvalStep::Done { value: v } => if is_truthy(&v) {
                    eval_stmt(rt, &**then_branch, natives, used, fuel)
                } else {
                    match else_branch {
                        Some(b) => eval_stmt(rt, &**b, natives, used, fuel),
                        None => EvalStep::Done { value: ZanoValue::Undefined },
                    }
                },
                other => other,
            }
        },
        Statement::Block(ss) => {
            proof {
                assert(spec_stmts_of_vec(*ss) == spec_stmts_view(ss@));
            }
            eval_stmts(rt, ss, 0, ZanoValue::Undefined, natives, used, fuel)
        },
        Statement::Return(value) => match value {
            Some(e) => eval_expr(rt, e, natives, used, fuel),
            None => EvalStep::Done { value: ZanoValue::Undefined },
        },
        Statement::While { condition, body } => {
            let step = eval_expr(rt, condition, natives, used, fuel);
            match step {
                EvalStep::Done { value: v } => if !is_truthy(&v) {
                    EvalStep::Done { value: ZanoValue::Undefined }
                } else {
                    let bstep = eval_stmt(rt, &**body, natives, used, fuel);
                    match bstep {
                        EvalStep::Done { .. } => if fuel == 0 {
                            EvalStep::OutOfFuel
                        } else {
                            eval_stmt(rt, stmt, natives, used, fuel - 1)
                        },
                        other => other,
                    }
                },
                other => other,
            }
        },
        Statement::Try { try_block, catch_param, catch_block } => {
            let step = eval_stmt(rt, &**try_block, natives, used, fuel);
            match step {
                EvalStep::Failed { error } => match catch_block {
                    Some(cb) => {
                        match catch_param {
                            Some(p) => {
                                let msg = error.message().clone();
                                rt.bind_variable(p.clone(), ZanoValue::String(msg));
                            },
                            None => {},
                        }
                        eval_stmt(rt, &**cb, natives, used, fuel)
                    },
                    None => EvalStep::Failed { error },
                },
                other => other,
            }
        },
        Statement::Throw(e) => {
            let step = eval_expr(rt, e, natives, used, fuel);
            match step {
                EvalStep::Done { value: v } => {
                    let message = zano_value_to_string(&v);
                    EvalStep::Failed { error: ZanoError::RuntimeError { message } }
                },
                other => other,
            }
        },
    }
}

/// Evaluates one expression against the runtime.
#[verifier::rlimit(60)]
fn eval_expr(
    rt: &mut ZanoRuntime,
    expr: &Expression,
    natives: &Vec<Result<ZanoValue, String>>,
    used: &mut usize,
    fuel: usize,
) -> (r: EvalStep)
    ensures
        ({
            let res = spec_eval_expr(
                expr@,
                machine_of(*old(rt), *old(used) as nat),
                spec_natives_view(natives@),
                fuel as nat,
            );
            machine_of(*final(rt), *final(used) as nat) == res.0 && r@ == res.1
        }),
    decreases fuel, 0int, *expr, 0int,
{
    broadcast use group_ast_view_lemmas, group_view_lemmas;

    match expr {
        Expression::Literal(v) => EvalStep::Done { value: v.clone_value() },
        Expression::Identifier(n) => match rt.lookup_variable(n) {
            Ok(v) => EvalStep::Done { value: v },
            Err(e) => EvalStep::Failed { error: e },
        },
        Expression::Binary { left, operator, right } => {
            let lstep = eval_expr(rt, &**left, natives, used, fuel);
            match lstep {
                EvalStep::Done { value: a } => {
                    let rstep = eval_expr(rt, &**right, natives, used, fuel);
                    match rstep {
                        EvalStep::Done { value: b } => match apply_binary_operator(
                            a,
                            *operator,
                            b,
                        ) {
                            Ok(v) => EvalStep::Done { value: v },
                            Err(e) => EvalStep::Failed { error: e },
                        },
                        other => other,
                    }
                },
                other => other,
            }
        },
        Expression::Call { callee, args } => match call_target_name(callee) {
            Err(e) => EvalStep::Failed { error: e },
            Ok(name) => {
                proof {
                    assert(spec_exprs_of_vec(*args) == spec_exprs_view(args@));
                    assert(spec_values_view(Seq::<ZanoValue>::empty()) =~= Seq::<
                        SpecValue,
                    >::empty());
                }
                match eval_exprs(rt, args, 0, Vec::new(), natives, used, fuel) {
                    Err(other) => other,
                    Ok(vals) => if fuel == 0 {
                        EvalStep::OutOfFuel
                    } else {
                        dispatch_call(rt, name, vals, natives, used, fuel - 1)
                    },
                }
            },
        },
        Expression::Member { object, property } => {
            let step = eval_expr(rt, &**object, natives, used, fuel);
            match step {
                EvalStep::Done { value: v } => EvalStep::Done {
                    value: member_value(&v, property),
                },
                other => other,
            }
        },
        Expression::Assignment { target, value } => {
            let step = eval_expr(rt, &**value, natives, used, fuel);
            match step {
                EvalStep::Done { value: v } => {
                    let copy = v.clone_value();
                    rt.bind_variable(target.clone(), v);
                    EvalStep::Done { value: copy }
                },
                other => other,
            }
        },
        Expression::Array(els) => {
            proof {
                assert(spec_exprs_of_vec(*els) == spec_exprs_view(els@));
                assert(spec_values_view(Seq::<ZanoValue>::empty()) =~= Seq::<SpecValue>::empty());
            }
            match eval_exprs(rt, els, 0, Vec::new(), natives, used, fuel) {
                Ok(vals) => EvalStep::Done { value: ZanoValue::Array(vals) },
                Err(other) => other,
            }
        },
        Expression::Object(pairs) => {
            proof {
                assert(spec_expr_pairs_of_vec(*pairs) == spec_expr_pairs_view(pairs@));
                assert(spec_pairs_view(Seq::<(String, ZanoValue)>::empty()) =~= Seq::<
                    (Seq<char>, SpecValue),
                >::empty());
            }
            match eval_pairs(rt, pairs, 0, Vec::new(), natives, used, fuel) {
                Ok(ps) => EvalStep::Done { value: ZanoValue::Object(ps) },
                Err(other) => other,
            }
        },
        Expression::Index { object, index } => {
            let ostep = eval_expr(rt, &**object, natives, used, fuel);
            match ostep {
                EvalStep::Done { value: ov } => {
                    let istep = eval_expr(rt, &**index, natives, used, fuel);
                    match istep {
                        EvalStep::Done { value: iv } => EvalStep::Done {
                            value: index_value(&ov, &iv),
                        },
                        other => other,
                    }
                },
                other => other,
            }
        },
        Expression::Await(inner) => eval_expr(rt, &**inner, natives, used, fuel),
    }
}

/// Dispatches an evaluated call to its registered callable, the dispatch's
/// fuel unit already paid.
fn dispatch_call(
    rt: &mut ZanoRuntime,
    name: String,
    vals: Vec<ZanoValue>,
    natives: &Vec<Result<ZanoValue, String>>,
    used: &mut usize,
    fuel: usize,
) -> (r: EvalStep)
    ensures
        ({
            let res = spec_dispatch(
                name@,
                spec_values_view(vals@),
                machine_of(*old(rt), *old(used) as nat),
                spec_natives_view(natives@),
                fuel as nat,
            );
            machine_of(*final(rt), *final(used) as nat) == res.0 && r@ == res.1
        }),
    decreases fuel, 0int, vals@, 0int,
{
    broadcast use group_view_lemmas;

    match rt.fetch_callable(&name) {
        Err(e) => EvalStep::Failed { error: e },
        Ok(FunctionDef::UserDefined { params, body }) => {
            bind_params(rt, &params, &vals);
            if fuel == 0 {
                EvalStep::OutOfFuel
            } else {
                proof {
                    assert(spec_stmts_of_vec(body) == spec_stmts_view(body@));
                }
                eval_stmts(rt, &body, 0, ZanoValue::Undefined, natives, used, fuel - 1)
            }
        },
        Ok(FunctionDef::Native) => if *used < natives.len() {
            let res = &natives[*used];
            *used = *used + 1;
            match res {
                Ok(v) => EvalStep::Done { value: v.clone_value() },
                Err(m) => EvalStep::Failed {
                    error: ZanoError::RuntimeError { message: m.clone() },
                },
            }
        } else {
            EvalStep::NeedNative { name, args: vals }
        },
        Ok(FunctionDef::Require) => match rt.require(&vals) {
            Ok(v) => EvalStep::Done { value: v },
            Err(e) => EvalStep::Failed { error: e },
        },
    }
}

/// Evaluates the expressions of a list from `i` on, left to right, adding
/// their values to `acc`; the first stop (a failure, a needed native, an
/// exhausted budget) is handed back instead.
fn eval_exprs(
    rt: &mut ZanoRuntime,
    exprs: &Vec<Expression>,
    i: usize,
    acc: Vec<ZanoValue>,
    natives: &Vec<Result<ZanoValue, String>>,
    used: &mut usize,
    fuel: usize,
) -> (r: Result<Vec<ZanoValue>, EvalStep>)
    ensures
        ({
            let res = spec_eval_exprs(
                spec_exprs_view(exprs@),
                i as int,
                spec_values_view(acc@),
                machine_of(*old(rt), *old(used) as nat),
                spec_natives_view(natives@),
                fuel as nat,
            );
            machine_of(*final(rt), *final(used) as nat) == res.0 && match r {
                Ok(vals) => res.1 == Ok::<Seq<SpecValue>, SpecOutcome>(spec_values_view(vals@)),
                Err(step) => res.1 == Err::<Seq<SpecValue>, SpecOutcome>(step@),
            }
        }),
    decreases fuel, 0int, exprs@, exprs@.len() - i,
{
    broadcast use group_ast_view_lemmas, group_view_lemmas;

    if i >= exprs.len() {
        Ok(acc)
    } else {
        let step = eval_expr(rt, &exprs[i], natives, used, fuel);
        match step {
            EvalStep::Done { value } => {
                let ghost accv = spec_values_view(acc@);
                let mut acc2 = acc;
                let ghost vv = value@;
                acc2.push(value);
                proof {
                    assert(spec_values_view(acc2@) =~= accv.push(vv));
                }
                eval_exprs(rt, exprs, i + 1, acc2, natives, used, fuel)
            },
            other => Err(other),
        }
    }
}

/// Evaluates the entries of an object literal from `i` on, left to right;
/// a repeated key replaces its earlier binding, so the last entry wins.
fn eval_pairs(
    rt: &mut ZanoRuntime,
    pairs: &Vec<(String, Expression)>,
    i: usize,
    acc: Vec<(String, ZanoValue)>,
    natives: &Vec<Result<ZanoValue, String>>,
    used: &mut usize,
    fuel: usize,
) -> (r: Result<Vec<(String, ZanoValue)>, EvalStep>)
    ensures
        ({
            let res = spec_eval_pairs(
                spec_expr_pairs_view(pairs@),
                i as int,
                spec_pairs_view(acc@),
                machine_of(*old(rt), *old(used) as nat),
                spec_natives_view(natives@),
                fuel as nat,
            );
            machine_of(*final(rt), *final(used) as nat) == res.0 && match r {
                Ok(ps) => res.1 == Ok::<Seq<(Seq<char>, SpecValue)>, SpecOutcome>(
                    spec_pairs_view(ps@),
                ),
                Err(step) => res.1 == Err::<Seq<(Seq<char>, SpecValue)>, SpecOutcome>(step@),
            }
        }),
    decreases fuel, 0int, pairs@, pairs@.len() - i,
{
    broadcast use group_ast_view_lemmas, group_view_lemmas;

    if i >= pairs.len() {
        Ok(acc)
    } else {
        let step = eval_expr(rt, &pairs[i].1, natives, used, fuel);
        match step {
            EvalStep::Done { value } => {
                let key = pairs[i].0.clone();
                let mut acc2 = acc;
                obj_set(&mut acc2, key, value);
                eval_pairs(rt, pairs, i + 1, acc2, natives, used, fuel)
            },
            other => Err(other),
        }
    }
}

/// Runs a statement list against the runtime with a list of native
/// results the host has already supplied, in call order, and a fuel
/// budget; yields the last statement's value.
///
/// When the run stops at `NeedNative`, the host performs the named call
/// with the evaluated arguments, appends the outcome to the list, restores
/// the runtime to its state before the run, and runs again: evaluation is
/// deterministic given the list, so the replay consumes the new result at
/// the same point.
pub fn eval_program(
    rt: &mut ZanoRuntime,
    statements: &Vec<Statement>,
    natives: &Vec<Result<ZanoValue, String>>,
    fuel: usize,
) -> (r: EvalStep)
    ensures
        ({
            let res = spec_eval_stmts(
                spec_stmts_of_vec(*statements),
                0,
                SpecValue::Undefined,
                machine_of(*old(rt), 0),
                spec_natives_view(natives@),
                fuel as nat,
            );
            &&& final(rt).globals_view() == res.0.env
            &&& final(rt).functions_view() == res.0.fns
            &&& final(rt).modules_view() == res.0.mods
            &&& r@ == res.1
        }),
{
    let mut used: usize = 0;
    eval_stmts(rt, statements, 0, ZanoValue::Undefined, natives, &mut used, fuel)
}

impl ZanoRuntime {
    /// Runs a program against this runtime: the host invocation surface,
    /// driven as `eval_program` describes.
    pub fn execute(
        &mut self,
        statements: &Vec<Statement>,
        natives: &Vec<Result<ZanoValue, String>>,
        fuel: usize,
    ) -> (r: EvalStep)
        ensures
            ({
                let res = spec_eval_stmts(
                    spec_stmts_of_vec(*statements),
                    0,
                    SpecValue::Undefined,
                    machine_of(*old(self), 0),
                    spec_natives_view(natives@),
                    fuel as nat,
                );
                &&& final(self).globals_view() == res.0.env
                &&& final(self).functions_view() == res.0.fns
                &&& final(self).modules_view() == res.0.mods
                &&& r@ == res.1
            }),
    {
        eval_program(self, statements, natives, fuel)
    }
}

} // verus!
