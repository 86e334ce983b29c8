use lox::expression::LiteralValue;
use lox::interpreter::Interpreter;
use lox::parser::Parser;
use lox::scanner::Scanner;

fn eval(input: &str) -> LiteralValue {
    let mut scanner = Scanner::new(String::from(input));
    let tokens = scanner.scan_tokens();
    let mut parser = Parser::new(tokens);
    let expr = parser.parse_expression().unwrap();
    let mut interpreter = Interpreter::new();
    interpreter.evaluate(&expr).unwrap().unwrap()
}

#[test]
fn test_evaluate_unary() {
    let data = vec![
        ("!true", LiteralValue::Bool(false)),
        ("!false", LiteralValue::Bool(true)),
        ("!!true", LiteralValue::Bool(true)),
        ("!!false", LiteralValue::Bool(false)),
        ("-1", LiteralValue::Num((-1.0f64).to_bits())),
        ("-8.1", LiteralValue::Num((-8.1f64).to_bits())),
        ("\"a string\"", LiteralValue::Str(String::from("a string"))),
        ("\"-1\"", LiteralValue::Str(String::from("-1"))),
    ];

    for (input, should_be) in data {
        assert_eq!(should_be, eval(input));
    }
}

#[test]
fn test_evaluate_binary() {
    let data = vec![
        ("1 + 2", LiteralValue::Num(3.0f64.to_bits())),
        ("1 / 2", LiteralValue::Num((1f64 / 2f64).to_bits())),
        ("2 * 2", LiteralValue::Num((2.0f64 * 2.0f64).to_bits())),
        ("1 - 2", LiteralValue::Num((1.0f64 - 2.0f64).to_bits())),
        ("1>2", LiteralValue::Bool(false)),
        ("2>1.2", LiteralValue::Bool(true)),
        ("2 >= 2.1", LiteralValue::Bool(false)),
        ("2 <= 2.1", LiteralValue::Bool(true)),
        ("2 < 2.0", LiteralValue::Bool(false)),
        ("2 <= 2.0", LiteralValue::Bool(true)),
        ("0-8.1", LiteralValue::Num((-8.1f64).to_bits())),
        (
            "\"one\" + \"two\"",
            LiteralValue::Str(String::from("onetwo")),
        ),
    ];

    for (input, should_be) in data {
        assert_eq!(should_be, eval(input));
    }
}

#[test]
fn evaluate_matches_native_double_arithmetic() {
    let data = vec![
        ("0.1 + 0.2", 0.1f64 + 0.2f64),
        ("8.1 * 3.3", 8.1f64 * 3.3f64),
        ("1 / 3", 1.0f64 / 3.0f64),
        ("114.514 - 0.001", 114.514f64 - 0.001f64),
        ("2 * 0.5", 1.0f64),
    ];
    for (input, expected) in data {
        assert_eq!(eval(input), LiteralValue::Num(expected.to_bits()));
    }
}

#[test]
fn truthiness_of_values() {
    let data = vec![
        ("!0", LiteralValue::Bool(true)),
        ("!1", LiteralValue::Bool(false)),
        ("!\"\"", LiteralValue::Bool(true)),
        ("!\"x\"", LiteralValue::Bool(false)),
        ("!nil", LiteralValue::Bool(false)),
        ("!0.0", LiteralValue::Bool(true)),
    ];
    for (input, should_be) in data {
        assert_eq!(should_be, eval(input));
    }
}

#[test]
fn interpret_executes_statements_in_order() {
    let tokens = Scanner::new("var a = 2; print a * 3; print a;".to_string()).scan_tokens();
    let mut parser = Parser::new(tokens);
    let stmts = parser.parse().unwrap();
    let mut interpreter = Interpreter::new();
    interpreter.interpret(&stmts).unwrap();
    assert_eq!(interpreter.output().as_str(), "6\n2\n");
}

#[test]
fn interpret_stops_at_the_first_failure() {
    let tokens = Scanner::new("print 1; print nothing; print 2;".to_string()).scan_tokens();
    let mut parser = Parser::new(tokens);
    let stmts = parser.parse().unwrap();
    let mut interpreter = Interpreter::new();
    assert!(interpreter.interpret(&stmts).is_err());
    assert_eq!(interpreter.output().as_str(), "1\n");
}

#[test]
fn nil_literal_evaluates_to_nil() {
    assert_eq!(eval("nil"), LiteralValue::Nil);
}

#[test]
fn unary_minus_needs_a_number() {
    let mut scanner = Scanner::new(String::from("-\"a\""));
    let tokens = scanner.scan_tokens();
    let mut parser = Parser::new(tokens);
    let expr = parser.parse_expression().unwrap();
    let mut interpreter = Interpreter::new();
    assert!(interpreter.evaluate(&expr).is_err());
}

#[test]
fn mixed_operands_cannot_be_interpreted() {
    let mut scanner = Scanner::new(String::from("\"one\" + 1"));
    let tokens = scanner.scan_tokens();
    let mut parser = Parser::new(tokens);
    let expr = parser.parse_expression().unwrap();
    let mut interpreter = Interpreter::new();
    assert!(interpreter.evaluate(&expr).is_err());
}
