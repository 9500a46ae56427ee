use zano::ast::{BinaryOp, Expression, Statement};
use zano::lexer::Lexer;
use zano::parser::Parser;
use zano::token::TokenKind;
use zano::value::{is_truthy, ZanoValue};

fn scan(src: &str) -> Vec<zano::token::Token> {
    let mut lexer = Lexer::new(src.to_string());
    lexer.scan_tokens().expect("scan failed")
}

#[test]
fn nested_block_comment_balances() {
    let tokens = scan("/* a /* b */ c */");
    assert_eq!(tokens.len(), 1);
    assert_eq!(tokens[0].kind, TokenKind::Eof);
}

#[test]
fn unterminated_block_comment_fails() {
    let mut lexer = Lexer::new("/* a /* b */ c".to_string());
    let r = lexer.scan_tokens();
    assert!(r.is_err());
    assert_eq!(r.unwrap_err().message(), "Unterminated block comment");
}

#[test]
fn unterminated_string_fails() {
    let mut lexer = Lexer::new("\"abc".to_string());
    let r = lexer.scan_tokens();
    assert!(r.is_err());
    assert_eq!(r.unwrap_err().message(), "Unterminated string");
}

#[test]
fn keywords_and_numbers_scan() {
    let tokens = scan("let x = 1.5");
    let kinds: Vec<TokenKind> = tokens.iter().map(|t| t.kind).collect();
    assert_eq!(
        kinds,
        vec![
            TokenKind::Let,
            TokenKind::Identifier,
            TokenKind::Equal,
            TokenKind::Number,
            TokenKind::Eof
        ]
    );
    assert_eq!(tokens[3].lexeme, "1.5");
}

#[test]
fn precedence_shapes_the_tree() {
    let mut parser = Parser::new(scan("1 + 2 * 3"));
    let stmts = parser.parse().expect("parse failed");
    assert_eq!(stmts.len(), 1);
    match &stmts[0] {
        Statement::Expression(Expression::Binary { left, operator, right }) => {
            assert_eq!(*operator, BinaryOp::Add);
            match &**left {
                Expression::Literal(ZanoValue::Number(b)) => {
                    assert_eq!(*b, 1.0f64.to_bits());
                }
                other => panic!("unexpected left: {:?}", other),
            }
            match &**right {
                Expression::Binary { operator, .. } => assert_eq!(*operator, BinaryOp::Mul),
                other => panic!("unexpected right: {:?}", other),
            }
        }
        other => panic!("unexpected statement: {:?}", other),
    }
}

#[test]
fn number_literals_parse_to_doubles() {
    let mut parser = Parser::new(scan("1.25"));
    let stmts = parser.parse().expect("parse failed");
    match &stmts[0] {
        Statement::Expression(Expression::Literal(ZanoValue::Number(b))) => {
            assert_eq!(*b, 1.25f64.to_bits());
        }
        other => panic!("unexpected statement: {:?}", other),
    }
}

#[test]
fn truthiness_of_values() {
    assert!(!is_truthy(&ZanoValue::Boolean(false)));
    assert!(!is_truthy(&ZanoValue::Null));
    assert!(!is_truthy(&ZanoValue::Undefined));
    assert!(!is_truthy(&ZanoValue::Number(0.0f64.to_bits())));
    assert!(!is_truthy(&ZanoValue::Number((-0.0f64).to_bits())));
    assert!(!is_truthy(&ZanoValue::String(String::new())));
    assert!(is_truthy(&ZanoValue::Number(7.0f64.to_bits())));
    assert!(is_truthy(&ZanoValue::Number(f64::NAN.to_bits())));
    assert!(is_truthy(&ZanoValue::String("x".to_string())));
    assert!(is_truthy(&ZanoValue::Array(vec![])));
    assert!(is_truthy(&ZanoValue::Object(vec![])));
    assert!(is_truthy(&ZanoValue::Function("f".to_string())));
}

#[test]
fn missing_paren_is_a_parse_error() {
    let mut parser = Parser::new(scan("if (x { 1 }"));
    let r = parser.parse();
    assert!(r.is_err());
}

#[test]
fn resolve_module_prefers_builtins() {
    let pm = zano::package::PackageManager::new(".".to_string());
    assert_eq!(pm.resolve_module("fs", false, false), Some("builtin:fs".to_string()));
    assert_eq!(
        pm.resolve_module("mylib", true, false),
        Some("./zano_modules/mylib".to_string())
    );
    assert_eq!(pm.resolve_module("util", false, true), Some("./util.zn".to_string()));
    assert_eq!(pm.resolve_module("nope", false, false), None);
}

fn parse_debug(src: &str) -> String {
    let mut lexer = Lexer::new(src.to_string());
    let tokens = lexer.scan_tokens().expect("scan failed");
    format!("{:?}", Parser::new(tokens).parse().expect("parse failed"))
}

#[test]
fn stray_semicolons_and_newlines_are_noise() {
    // Adding semicolons after statements and newlines between them does
    // not change what a program parses to.
    assert_eq!(parse_debug("let a = 1\na + 1"), parse_debug("let a = 1;\n\na + 1;"));
    assert_eq!(
        parse_debug("if (1) { 2 } while (0) { 3 }"),
        parse_debug("if (1) { 2 };\nwhile (0) { 3 };")
    );
    assert_eq!(
        parse_debug("{ let a = 1 let b = 2 }"),
        parse_debug("{ let a = 1; let b = 2; };")
    );
}
