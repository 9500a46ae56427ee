use zano::ast::{BinaryOp, Expression, Statement};
use zano::lexer::Lexer;
use zano::ops::{apply_binary_operator, call_target_name, index_value, member_value};
use zano::parser::Parser;
use zano::render::{console_line, zano_value_to_string};
use zano::value::ZanoValue;

fn num(x: f64) -> ZanoValue {
    ZanoValue::Number(x.to_bits())
}

fn string(s: &str) -> ZanoValue {
    ZanoValue::String(s.to_string())
}

fn parse_source(src: &str) -> Vec<Statement> {
    let mut lexer = Lexer::new(src.to_string());
    let tokens = lexer.scan_tokens().expect("scan failed");
    Parser::new(tokens).parse().expect("parse failed")
}

#[test]
fn numeric_arithmetic_follows_ieee() {
    assert_eq!(apply_binary_operator(num(1.0), BinaryOp::Add, num(6.0)), Ok(num(7.0)));
    assert_eq!(apply_binary_operator(num(2.0), BinaryOp::Mul, num(3.0)), Ok(num(6.0)));
    assert_eq!(apply_binary_operator(num(1.0), BinaryOp::Sub, num(2.5)), Ok(num(-1.5)));
    assert_eq!(apply_binary_operator(num(7.0), BinaryOp::Div, num(2.0)), Ok(num(3.5)));
    assert_eq!(apply_binary_operator(num(7.5), BinaryOp::Mod, num(2.0)), Ok(num(1.5)));
    // Division by zero yields an infinity, never a failure.
    assert_eq!(
        apply_binary_operator(num(1.0), BinaryOp::Div, num(0.0)),
        Ok(ZanoValue::Number(f64::INFINITY.to_bits()))
    );
    // Zero over zero yields a NaN, which compares equal to nothing.
    let nan = apply_binary_operator(num(0.0), BinaryOp::Div, num(0.0)).unwrap();
    assert_eq!(
        apply_binary_operator(
            nan,
            BinaryOp::Equal,
            ZanoValue::Number(f64::NAN.to_bits())
        ),
        Ok(ZanoValue::Boolean(false))
    );
}

#[test]
fn numeric_comparisons_follow_ieee() {
    assert_eq!(apply_binary_operator(num(1.0), BinaryOp::Less, num(2.0)), Ok(ZanoValue::Boolean(true)));
    assert_eq!(apply_binary_operator(num(2.0), BinaryOp::Greater, num(1.0)), Ok(ZanoValue::Boolean(true)));
    assert_eq!(apply_binary_operator(num(2.0), BinaryOp::LessEqual, num(2.0)), Ok(ZanoValue::Boolean(true)));
    assert_eq!(apply_binary_operator(num(2.0), BinaryOp::GreaterEqual, num(3.0)), Ok(ZanoValue::Boolean(false)));
    assert_eq!(apply_binary_operator(num(0.0), BinaryOp::Equal, num(-0.0)), Ok(ZanoValue::Boolean(true)));
    let nan = ZanoValue::Number(f64::NAN.to_bits());
    assert_eq!(apply_binary_operator(nan, BinaryOp::Less, num(1.0)), Ok(ZanoValue::Boolean(false)));
}

#[test]
fn string_and_boolean_operators() {
    assert_eq!(
        apply_binary_operator(string("ab"), BinaryOp::Add, string("cd")),
        Ok(string("abcd"))
    );
    assert_eq!(
        apply_binary_operator(string("ab"), BinaryOp::Equal, string("ab")),
        Ok(ZanoValue::Boolean(true))
    );
    assert_eq!(
        apply_binary_operator(string("a"), BinaryOp::Add, num(7.0)),
        Ok(string("a7"))
    );
    assert_eq!(
        apply_binary_operator(num(1.5), BinaryOp::Add, string("x")),
        Ok(string("1.5x"))
    );
    assert_eq!(
        apply_binary_operator(ZanoValue::Boolean(true), BinaryOp::And, ZanoValue::Boolean(false)),
        Ok(ZanoValue::Boolean(false))
    );
    assert_eq!(
        apply_binary_operator(ZanoValue::Boolean(false), BinaryOp::Or, ZanoValue::Boolean(true)),
        Ok(ZanoValue::Boolean(true))
    );
}

#[test]
fn operator_type_mismatches_fail() {
    let r = apply_binary_operator(num(1.0), BinaryOp::And, num(2.0));
    assert_eq!(r.unwrap_err().message(), "Invalid operation for numbers");
    let r = apply_binary_operator(string("a"), BinaryOp::Sub, string("b"));
    assert_eq!(r.unwrap_err().message(), "Invalid operation for strings");
    let r = apply_binary_operator(string("a"), BinaryOp::Mul, num(1.0));
    assert_eq!(r.unwrap_err().message(), "Invalid operation for string and number");
    let r = apply_binary_operator(num(1.0), BinaryOp::Less, string("b"));
    assert_eq!(r.unwrap_err().message(), "Invalid operation for number and string");
    let r = apply_binary_operator(ZanoValue::Boolean(true), BinaryOp::Add, ZanoValue::Boolean(true));
    assert_eq!(r.unwrap_err().message(), "Invalid operation for booleans");
    let r = apply_binary_operator(ZanoValue::Null, BinaryOp::Add, num(1.0));
    assert_eq!(r.unwrap_err().message(), "Type mismatch in binary operation");
}

#[test]
fn out_of_range_index_yields_undefined() {
    let arr = ZanoValue::Array(vec![num(1.0), num(2.0)]);
    assert_eq!(index_value(&arr, &num(5.0)), ZanoValue::Undefined);
    assert_eq!(index_value(&arr, &num(0.0)), num(1.0));
    // The index truncates toward zero.
    assert_eq!(index_value(&arr, &num(1.9)), num(2.0));
    // A negative index is out of range.
    assert_eq!(index_value(&arr, &num(-3.0)), ZanoValue::Undefined);
    // Negative zero truncates to index zero.
    assert_eq!(index_value(&arr, &num(-0.0)), num(1.0));
    // A NaN or infinite index is out of range.
    assert_eq!(index_value(&arr, &ZanoValue::Number(f64::NAN.to_bits())), ZanoValue::Undefined);
    assert_eq!(
        index_value(&arr, &ZanoValue::Number(f64::INFINITY.to_bits())),
        ZanoValue::Undefined
    );
}

#[test]
fn object_access_yields_binding_or_undefined() {
    let obj = ZanoValue::Object(vec![
        ("a".to_string(), num(1.0)),
        ("b".to_string(), string("x")),
    ]);
    assert_eq!(member_value(&obj, &"a".to_string()), num(1.0));
    assert_eq!(member_value(&obj, &"c".to_string()), ZanoValue::Undefined);
    assert_eq!(member_value(&num(1.0), &"a".to_string()), ZanoValue::Undefined);
    assert_eq!(index_value(&obj, &string("b")), string("x"));
    assert_eq!(index_value(&obj, &string("z")), ZanoValue::Undefined);
    assert_eq!(index_value(&obj, &num(0.0)), ZanoValue::Undefined);
}

#[test]
fn member_calls_synthesize_registry_keys() {
    let callee = Expression::Member {
        object: Box::new(Expression::Identifier("console".to_string())),
        property: "log".to_string(),
    };
    assert_eq!(call_target_name(&callee), Ok("console_log".to_string()));
    let plain = Expression::Identifier("doesNotExist".to_string());
    assert_eq!(call_target_name(&plain), Ok("doesNotExist".to_string()));
    let deep = Expression::Member {
        object: Box::new(Expression::Member {
            object: Box::new(Expression::Identifier("a".to_string())),
            property: "b".to_string(),
        }),
        property: "c".to_string(),
    };
    assert_eq!(
        call_target_name(&deep).unwrap_err().message(),
        "Complex member calls not supported yet"
    );
    let bad = Expression::Literal(ZanoValue::Null);
    assert_eq!(call_target_name(&bad).unwrap_err().message(), "Invalid function call");
}

#[test]
fn values_render_like_a_console() {
    assert_eq!(zano_value_to_string(&num(7.0)), "7");
    assert_eq!(zano_value_to_string(&num(1.5)), "1.5");
    assert_eq!(zano_value_to_string(&string("hi")), "hi");
    assert_eq!(zano_value_to_string(&ZanoValue::Boolean(true)), "true");
    assert_eq!(zano_value_to_string(&ZanoValue::Null), "null");
    assert_eq!(zano_value_to_string(&ZanoValue::Undefined), "undefined");
    assert_eq!(
        zano_value_to_string(&ZanoValue::Array(vec![num(1.0), string("a")])),
        "[1, a]"
    );
    assert_eq!(
        zano_value_to_string(&ZanoValue::Object(vec![
            ("a".to_string(), num(1.0)),
            ("b".to_string(), ZanoValue::Null),
        ])),
        "{a: 1, b: null}"
    );
    assert_eq!(
        zano_value_to_string(&ZanoValue::Function("console_log".to_string())),
        "function console_log"
    );
    assert_eq!(
        console_line(&vec![string("sum"), num(7.0), ZanoValue::Boolean(false)]),
        "sum 7 false"
    );
    assert_eq!(console_line(&vec![]), "");
}

#[test]
fn decimal_literals_round_trip() {
    for lit in ["0", "1", "7", "1.5", "0.1", "123.456", "9007199254740993"] {
        let stmts = parse_source(lit);
        let bits = match &stmts[0] {
            Statement::Expression(Expression::Literal(ZanoValue::Number(b))) => *b,
            other => panic!("unexpected statement: {:?}", other),
        };
        let shown = zano_value_to_string(&ZanoValue::Number(bits));
        let reparsed: f64 = shown.parse().expect("rendering must read back");
        assert_eq!(reparsed.to_bits(), bits, "literal {} rendered as {}", lit, shown);
    }
}

#[test]
fn consumed_equals_sign_leaves_member_targets_unchanged() {
    let stmts = parse_source("x.y = 5");
    assert_eq!(stmts.len(), 2);
    assert!(matches!(&stmts[0], Statement::Expression(Expression::Member { .. })));
    assert!(matches!(
        &stmts[1],
        Statement::Expression(Expression::Literal(ZanoValue::Number(_)))
    ));
}

#[test]
fn lone_ampersand_is_rejected() {
    let mut lexer = Lexer::new("a & b".to_string());
    let r = lexer.scan_tokens();
    assert_eq!(r.unwrap_err().message(), "Unexpected character: &");
}

#[test]
fn single_quoted_strings_and_lines() {
    let mut lexer = Lexer::new("'ab\ncd'\nx".to_string());
    let tokens = lexer.scan_tokens().expect("scan failed");
    // The string token carries its text verbatim and the line where it ends.
    assert_eq!(tokens[0].lexeme, "ab\ncd");
    assert_eq!(tokens[0].line, 2);
    // The newline after it is a significant token on line two.
    assert_eq!(tokens[1].lexeme, "\n");
    assert_eq!(tokens[1].line, 2);
    assert_eq!(tokens[2].lexeme, "x");
    assert_eq!(tokens[2].line, 3);
}
