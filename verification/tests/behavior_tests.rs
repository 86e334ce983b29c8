use lox::error::LoxError;
use lox::lox::Lox;
use lox::parser::Parser;
use lox::scanner::Scanner;
use lox::token::{Token, TokenType};

#[test]
fn empty_source_runs_and_prints_nothing() {
    let mut lox = Lox::new();
    lox.run("").unwrap();
    assert_eq!(lox.output().as_str(), "");
    let tokens = Scanner::new(String::new()).scan_tokens();
    assert_eq!(tokens, vec![Token::new(TokenType::Eof, String::new(), 1)]);
}

#[test]
fn redeclaring_a_name_in_the_same_scope_rebinds_it() {
    let mut lox = Lox::new();
    lox.run("var a = 1; var a = 2; print a;").unwrap();
    assert_eq!(lox.output().as_str(), "2\n");
}

#[test]
fn division_by_zero_fails_whatever_the_left_operand() {
    for src in [
        "print 4 / 0.0;",
        "print 4 / 0;",
        "print \"s\" / 0.0;",
        "print true / 0.0;",
        "print 1 / (2 - 2);",
    ] {
        let mut lox = Lox::new();
        let r = lox.run(src);
        assert!(matches!(r, Err(LoxError::RuntimeError(_))), "{}", src);
        assert_eq!(lox.output().as_str(), "");
    }
}

#[test]
fn division_of_zero_by_a_number_is_fine() {
    let mut lox = Lox::new();
    lox.run("print 0.0 / 5;").unwrap();
    assert_eq!(lox.output().as_str(), "0\n");
}

#[test]
fn string_concatenation_only_for_two_strings() {
    let mut lox = Lox::new();
    lox.run("print \"one\" + \"two\";").unwrap();
    assert_eq!(lox.take_output(), "onetwo\n");
    assert!(matches!(
        lox.run("print \"one\" + 1;"),
        Err(LoxError::RuntimeError(_))
    ));
    assert!(matches!(
        lox.run("print 1 + \"one\";"),
        Err(LoxError::RuntimeError(_))
    ));
}

#[test]
fn assignment_requires_prior_declaration() {
    let mut lox = Lox::new();
    assert!(matches!(lox.run("a = 1;"), Err(LoxError::RuntimeError(_))));

    let mut lox = Lox::new();
    lox.run("var a = 0; a = 1; print a;").unwrap();
    assert_eq!(lox.output().as_str(), "1\n");
}

#[test]
fn assignment_rebinds_the_nearest_enclosing_scope() {
    let mut lox = Lox::new();
    lox.run("var a = 0; { a = 2; } print a;").unwrap();
    assert_eq!(lox.output().as_str(), "2\n");
}

#[test]
fn recovery_still_executes_the_valid_statements() {
    let mut lox = Lox::new();
    lox.run("var 1 = 2; print 3;").unwrap();
    assert_eq!(lox.output().as_str(), "3\n");
}

#[test]
fn statement_missing_its_semicolon_is_discarded() {
    let mut lox = Lox::new();
    lox.run("print 1").unwrap();
    assert_eq!(lox.output().as_str(), "");
}

#[test]
fn all_parsed_is_false_with_trailing_tokens() {
    // A stream whose end-of-input marker is followed by more tokens: the
    // parser stops at the first marker and must report the rest unconsumed.
    let tokens = vec![
        Token::new(TokenType::Number, "1".to_string(), 1),
        Token::new(TokenType::Semicolon, ";".to_string(), 1),
        Token::new(TokenType::Eof, String::new(), 1),
        Token::new(TokenType::Number, "2".to_string(), 1),
        Token::new(TokenType::Eof, String::new(), 1),
    ];
    let mut parser = Parser::new(tokens);
    let stmts = parser.parse().unwrap();
    assert_eq!(stmts.len(), 1);
    assert!(!parser.all_parsed());

    let tokens = Scanner::new("print 1;".to_string()).scan_tokens();
    let mut parser = Parser::new(tokens);
    parser.parse().unwrap();
    assert!(parser.all_parsed());
}

#[test]
fn a_failing_block_still_pops_its_scope() {
    let mut lox = Lox::new();
    assert!(matches!(
        lox.run("var a = 1; { var a = 2; print b; }"),
        Err(LoxError::RuntimeError(_))
    ));
    lox.run("print a;").unwrap();
    assert_eq!(lox.output().as_str(), "1\n");
}

#[test]
fn output_before_a_runtime_error_remains() {
    let mut lox = Lox::new();
    assert!(matches!(
        lox.run("print 1; print nothing;"),
        Err(LoxError::RuntimeError(_))
    ));
    assert_eq!(lox.output().as_str(), "1\n");
}

#[test]
fn invalid_assignment_target_is_a_parse_error() {
    let mut lox = Lox::new();
    // the malformed statement is discarded; nothing is printed
    lox.run("1 = 2;").unwrap();
    assert_eq!(lox.output().as_str(), "");
}

#[test]
fn print_nil_and_booleans() {
    let mut lox = Lox::new();
    lox.run("print nil; print false; print 2 >= 2.1;").unwrap();
    assert_eq!(lox.output().as_str(), "nil\nfalse\nfalse\n");
}

#[test]
fn numbers_print_in_their_shortest_decimal_form() {
    let in_out = vec![
        ("print 1 / 2;", "0.5\n"),
        ("print 8.1;", "8.1\n"),
        ("print 114.514;", "114.514\n"),
        ("print 0 - 8.1;", "-8.1\n"),
        ("print 10000000000;", "10000000000\n"),
        ("print 1 / 3;", "0.3333333333333333\n"),
        ("print 2.5 * 2;", "5\n"),
        ("print 0.1 + 0.2;", "0.30000000000000004\n"),
    ];
    for (src, expected) in in_out {
        let mut lox = Lox::new();
        lox.run(src).unwrap();
        assert_eq!(lox.output().as_str(), expected, "{}", src);
    }
}

#[test]
fn overflowing_arithmetic_prints_inf() {
    let mut lox = Lox::new();
    lox.run(
        "var a = 99999999999999999999999999999999999999; var b = a * a * a * a; print b * b * a;",
    )
    .unwrap();
    assert_eq!(lox.output().as_str(), "inf\n");
}

#[test]
fn subtracting_infinities_prints_nan() {
    let mut lox = Lox::new();
    lox.run("var a = 99999999999999999999999999999999999999; var c = a * a * a * a; var i = c * c * a; print i - i;")
        .unwrap();
    assert_eq!(lox.take_output(), "NaN\n");
    // IEEE equality: NaN compares unequal even to itself
    lox.run("var a = 99999999999999999999999999999999999999; var c = a * a * a * a; var i = c * c * a; var n = i - i; print n == n; print n != n; print n < n;")
        .unwrap();
    assert_eq!(lox.take_output(), "false\ntrue\nfalse\n");
}

#[test]
fn negative_zero_prints_with_its_sign() {
    let mut lox = Lox::new();
    lox.run("print 0 * (0 - 1); print 0 - 0;").unwrap();
    assert_eq!(lox.output().as_str(), "-0\n0\n");
}

#[test]
fn negative_zero_equals_zero() {
    let mut lox = Lox::new();
    lox.run("print 0 * (0 - 1) == 0; print 0 * (0 - 1) < 0;").unwrap();
    assert_eq!(lox.output().as_str(), "true\nfalse\n");
}

#[test]
fn string_values_keep_their_newlines() {
    let mut lox = Lox::new();
    lox.run("print \"a\nb\";").unwrap();
    assert_eq!(lox.output().as_str(), "a\nb\n");
}

#[test]
fn expected_token_diagnostic_names_line_and_lexeme() {
    let tokens = Scanner::new("(1".to_string()).scan_tokens();
    let mut parser = Parser::new(tokens);
    let err = match parser.parse_expression() {
        Err(e) => e,
        Ok(_) => panic!("expected a parse error"),
    };
    assert_eq!(
        err.message().as_str(),
        "[line 1]Token type `)` are expected, but got ``"
    );
}

#[test]
fn grouping_with_missing_paren_is_discarded() {
    let mut lox = Lox::new();
    lox.run("print (1 + 2; print 9;").unwrap();
    assert_eq!(lox.output().as_str(), "9\n");
}
