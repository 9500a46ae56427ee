use zano::ast::Statement;
use zano::eval::{eval_program, EvalStep};
use zano::lexer::Lexer;
use zano::parser::Parser;
use zano::runtime::{FunctionDef, ZanoRuntime};
use zano::value::ZanoValue;

fn num(x: f64) -> ZanoValue {
    ZanoValue::Number(x.to_bits())
}

fn parse_source(src: &str) -> Vec<Statement> {
    let mut lexer = Lexer::new(src.to_string());
    let tokens = lexer.scan_tokens().expect("scan failed");
    Parser::new(tokens).parse().expect("parse failed")
}

fn run_value(src: &str) -> ZanoValue {
    let stmts = parse_source(src);
    let mut rt = ZanoRuntime::new();
    match eval_program(&mut rt, &stmts, &Vec::new(), 100_000) {
        EvalStep::Done { value } => value,
        other => panic!("expected a value, got {:?}", other),
    }
}

#[test]
fn one_plus_two_times_three_is_seven() {
    assert_eq!(run_value("1 + 2 * 3;"), num(7.0));
}

#[test]
fn comparisons_and_logic_fold() {
    assert_eq!(run_value("1 + 1 == 2 && 3 < 2 == false"), ZanoValue::Boolean(true));
}

#[test]
fn fresh_runtime_registers_builtins() {
    let rt = ZanoRuntime::new();
    assert!(matches!(
        rt.resolve_callable(&"console_log".to_string()),
        Ok(FunctionDef::Native)
    ));
    assert!(matches!(rt.resolve_callable(&"require".to_string()), Ok(FunctionDef::Require)));
    let err = rt.resolve_callable(&"doesNotExist".to_string()).unwrap_err();
    assert_eq!(err.message(), "Undefined function: doesNotExist");
}

#[test]
fn globals_persist_and_rebind() {
    let mut rt = ZanoRuntime::new();
    let err = rt.lookup_variable(&"x".to_string()).unwrap_err();
    assert_eq!(err.message(), "Undefined variable: x");
    rt.bind_variable("x".to_string(), num(1.0));
    assert_eq!(rt.lookup_variable(&"x".to_string()), Ok(num(1.0)));
    rt.bind_variable("x".to_string(), num(2.0));
    assert_eq!(rt.lookup_variable(&"x".to_string()), Ok(num(2.0)));
    // The console object is pre-bound, so member-style callees resolve.
    let console = rt.lookup_variable(&"console".to_string()).expect("console is bound");
    assert!(matches!(console, ZanoValue::Object(_)));
}

#[test]
fn require_looks_up_builtin_modules() {
    let rt = ZanoRuntime::new();
    let fs = rt.require(&vec![ZanoValue::String("fs".to_string())]).expect("fs is built in");
    match fs {
        ZanoValue::Object(pairs) => {
            assert!(pairs.iter().any(|(k, _)| k == "readFile"));
            assert!(pairs.iter().any(|(k, _)| k == "writeFile"));
            assert!(pairs.iter().any(|(k, _)| k == "exists"));
        }
        other => panic!("unexpected module shape: {:?}", other),
    }
    let err = rt
        .require(&vec![ZanoValue::String("missing".to_string())])
        .unwrap_err();
    assert_eq!(err.message(), "Module not found: missing");
    let err = rt.require(&vec![num(1.0)]).unwrap_err();
    assert_eq!(err.message(), "require requires a module name string");
    let err = rt.require(&vec![]).unwrap_err();
    assert_eq!(err.message(), "require requires a module name string");
}
