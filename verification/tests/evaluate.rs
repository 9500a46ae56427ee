use zano::ast::Statement;
use zano::eval::{eval_program, EvalStep};
use zano::lexer::Lexer;
use zano::parser::Parser;
use zano::runtime::ZanoRuntime;
use zano::value::ZanoValue;

fn num(x: f64) -> ZanoValue {
    ZanoValue::Number(x.to_bits())
}

fn string(s: &str) -> ZanoValue {
    ZanoValue::String(s.to_string())
}

fn parse_source(src: &str) -> Vec<Statement> {
    let mut lexer = Lexer::new(src.to_string());
    let tokens = lexer.scan_tokens().expect("scan failed");
    Parser::new(tokens).parse().expect("parse failed")
}

const FUEL: usize = 100_000;

/// Runs a program that needs no native results against a fresh runtime.
fn run(src: &str) -> (ZanoRuntime, EvalStep) {
    let stmts = parse_source(src);
    let mut rt = ZanoRuntime::new();
    let step = eval_program(&mut rt, &stmts, &Vec::new(), FUEL);
    (rt, step)
}

fn run_value(src: &str) -> ZanoValue {
    match run(src).1 {
        EvalStep::Done { value } => value,
        other => panic!("expected a value, got {:?}", other),
    }
}

fn run_error(src: &str) -> String {
    match run(src).1 {
        EvalStep::Failed { error } => error.message().clone(),
        other => panic!("expected a failure, got {:?}", other),
    }
}

#[test]
fn precedence_gives_let_x_seven() {
    let (rt, step) = run("let x = 1 + 2 * 3;\nx");
    assert_eq!(step, EvalStep::Done { value: num(7.0) });
    assert_eq!(rt.lookup_variable(&"x".to_string()), Ok(num(7.0)));
}

#[test]
fn thrown_string_is_caught_as_itself() {
    // The catch binds the thrown string, and the enclosing program goes on.
    let v = run_value("try { throw \"boom\"; } catch (e) { e }\n1 + 1");
    assert_eq!(v, num(2.0));
    let v = run_value("try { throw \"boom\"; } catch (e) { e }");
    assert_eq!(v, string("boom"));
}

#[test]
fn try_without_catch_body_repropagates() {
    assert_eq!(run_error("try { throw \"oops\" }"), "oops");
}

#[test]
fn out_of_range_index_evaluates_to_undefined() {
    assert_eq!(run_value("[1,2][5]"), ZanoValue::Undefined);
    // A computed negative index is out of range, not clamped.
    assert_eq!(run_value("[1,2][0 - 1]"), ZanoValue::Undefined);
    assert_eq!(run_value("[1,2][1]"), num(2.0));
}

#[test]
fn unregistered_call_fails_after_argument_effects() {
    let (rt, step) = run("doesNotExist(x = 5)");
    match step {
        EvalStep::Failed { error } => {
            assert_eq!(error.message(), "Undefined function: doesNotExist");
        }
        other => panic!("expected a failure, got {:?}", other),
    }
    // The argument's assignment ran before the lookup failed.
    assert_eq!(rt.lookup_variable(&"x".to_string()), Ok(num(5.0)));
}

#[test]
fn undefined_identifier_fails_by_name() {
    assert_eq!(run_error("missing"), "Undefined variable: missing");
}

#[test]
fn truthiness_picks_branches() {
    assert_eq!(run_value("if (0) { 1 } else { 2 }"), num(2.0));
    assert_eq!(run_value("if (\"\") { 1 } else { 2 }"), num(2.0));
    assert_eq!(run_value("if (null) { 1 } else { 2 }"), num(2.0));
    assert_eq!(run_value("if (undefined) { 1 } else { 2 }"), num(2.0));
    assert_eq!(run_value("if (false) { 1 } else { 2 }"), num(2.0));
    assert_eq!(run_value("if (\"x\") { 1 } else { 2 }"), num(1.0));
    assert_eq!(run_value("if (3) { 1 } else { 2 }"), num(1.0));
    assert_eq!(run_value("if ([]) { 1 } else { 2 }"), num(1.0));
}

#[test]
fn while_loops_and_assignment() {
    let v = run_value("let i = 0;\nwhile (i < 3) { i = i + 1 }\ni");
    assert_eq!(v, num(3.0));
}

#[test]
fn declared_functions_are_callable() {
    let v = run_value("function add(a, b) { return a + b; }\nadd(2, 3)");
    assert_eq!(v, num(5.0));
    // A missing argument binds as undefined; here it surfaces as a failure.
    assert_eq!(run_error("function f(a) { return a + 1; }\nf()"), "Type mismatch in binary operation");
}

#[test]
fn object_literals_take_the_last_duplicate_key() {
    let v = run_value("let o = {a: 1, a: 2};\no.a");
    assert_eq!(v, num(2.0));
    let v = run_value("let o = {a: 1, b: 2};\no[\"b\"]");
    assert_eq!(v, num(2.0));
}

#[test]
fn member_access_on_non_objects_is_undefined() {
    assert_eq!(run_value("let x = 1;\nx.y"), ZanoValue::Undefined);
    assert_eq!(run_value("await 7"), num(7.0));
}

#[test]
fn infinite_loops_run_out_of_fuel() {
    let stmts = parse_source("while (1) { 2 }");
    let mut rt = ZanoRuntime::new();
    let step = eval_program(&mut rt, &stmts, &Vec::new(), 50);
    assert_eq!(step, EvalStep::OutOfFuel);
}

#[test]
fn require_yields_builtin_modules() {
    let v = run_value("let p = require(\"path\");\np.join");
    assert_eq!(v, ZanoValue::Function("path_join".to_string()));
    assert_eq!(run_error("require(\"missing\")"), "Module not found: missing");
}

#[test]
fn module_entries_name_registered_callables() {
    // Every function value a built-in module hands out resolves in the
    // callable registry under exactly that name.
    let rt = ZanoRuntime::new();
    for module in ["console", "fs", "http", "path"] {
        let m = rt.get_module(&module.to_string()).expect("module is built in");
        match m {
            ZanoValue::Object(pairs) => {
                for (entry, value) in &pairs {
                    match value {
                        ZanoValue::Function(name) => {
                            assert!(
                                rt.resolve_callable(name).is_ok(),
                                "{}.{} names unregistered callable {}",
                                module,
                                entry,
                                name
                            );
                        }
                        other => panic!("unexpected module entry: {:?}", other),
                    }
                }
            }
            other => panic!("unexpected module shape: {:?}", other),
        }
    }
}

#[test]
fn native_calls_pause_and_replay() {
    let stmts = parse_source("console.log(\"sum\", 1 + 1)");
    let mut rt = ZanoRuntime::new();
    let base = rt.snapshot();
    let step = eval_program(&mut rt, &stmts, &Vec::new(), FUEL);
    match step {
        EvalStep::NeedNative { name, args } => {
            assert_eq!(name, "console_log");
            assert_eq!(args, vec![string("sum"), num(2.0)]);
        }
        other => panic!("expected a needed native call, got {:?}", other),
    }
    // The host performs the call, supplies its result, and replays.
    let mut rt = base;
    let natives = vec![Ok(ZanoValue::Undefined)];
    let step = eval_program(&mut rt, &stmts, &natives, FUEL);
    assert_eq!(step, EvalStep::Done { value: ZanoValue::Undefined });
}

#[test]
fn native_failures_propagate_and_get_caught() {
    let stmts = parse_source("fs.readFile(\"gone\")");
    let mut rt = ZanoRuntime::new();
    let natives: Vec<Result<ZanoValue, String>> = vec![Err("Failed to read file: gone".to_string())];
    let step = eval_program(&mut rt, &stmts, &natives, FUEL);
    match step {
        EvalStep::Failed { error } => assert_eq!(error.message(), "Failed to read file: gone"),
        other => panic!("expected a failure, got {:?}", other),
    }
    // A try statement catches the native failure like any other.
    let stmts = parse_source("try { fs.readFile(\"gone\") } catch (e) { e }");
    let mut rt = ZanoRuntime::new();
    let step = eval_program(&mut rt, &stmts, &natives, FUEL);
    assert_eq!(step, EvalStep::Done { value: string("Failed to read file: gone") });
}

#[test]
fn execute_persists_bindings_across_runs() {
    let mut rt = ZanoRuntime::new();
    let step = rt.execute(&parse_source("let a = 2;"), &Vec::new(), FUEL);
    assert_eq!(step, EvalStep::Done { value: ZanoValue::Undefined });
    let step = rt.execute(&parse_source("a * 21"), &Vec::new(), FUEL);
    assert_eq!(step, EvalStep::Done { value: num(42.0) });
}

#[test]
fn return_yields_to_the_enclosing_list_only() {
    // As in the source language, return does not unwind nested statements:
    // a top-level return's value is the statement's value, and execution
    // continues with the rest of the list.
    let v = run_value("function f() { if (1) { return 5 } return 6 }\nf()");
    assert_eq!(v, num(6.0));
}

#[test]
fn evaluated_literal_round_trips_through_rendering() {
    for lit in ["0", "1", "7", "1.5", "0.1", "123.456"] {
        let v = run_value(lit);
        let bits = match v {
            ZanoValue::Number(b) => b,
            other => panic!("unexpected value: {:?}", other),
        };
        assert_eq!(bits, lit.parse::<f64>().unwrap().to_bits());
        let shown = zano::render::zano_value_to_string(&ZanoValue::Number(bits));
        let reparsed: f64 = shown.parse().expect("rendering must read back");
        assert_eq!(reparsed.to_bits(), bits, "literal {} rendered as {}", lit, shown);
    }
}
