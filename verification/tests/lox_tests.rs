use lox::lox::Lox;
use lox::parser::Parser;
use lox::scanner::Scanner;

#[test]
fn parse_single_expr() {
    let kvs = vec![
        ("1 + 2", "(+ 1 2)"),
        ("-1 * (-3 + 4)", "(* (- 1) (grouping (+ (- 3) 4)))"),
    ];

    for (k, v) in kvs.iter() {
        let tokens = Scanner::new(k.to_string()).scan_tokens();
        let mut parser = Parser::new(tokens);
        let expr = parser.parse_expression().unwrap();
        assert_eq!(expr.to_string(), v.to_string());
    }
}

#[test]
fn test_execute_var_print() {
    let in_out = vec![
        ("var a = 0; print a = 1;", "1\n"),
        ("var a = 0; a = 1; print a;", "1\n"),
        ("var a = 1; var b = 2; print a + b;", "3\n"),
        ("var a = 1; var b = 2; var c = a; print c + b;", "3\n"),
        (
            "var a = \"a string.\"; var b=\"b string\"; print a + b; ",
            "a string.b string\n",
        ),
        ("print true;", "true\n"),
        ("var a = 1; print !a;", "false\n"),
        ("var a = 1; print !!a;", "true\n"),
        ("var a = 0; print a;", "0\n"),
    ];

    for (src, expected) in in_out {
        let mut lox = Lox::new();
        lox.run(src).unwrap();
        assert_eq!(lox.output().as_str(), expected);
    }
}

#[test]
fn test_block_execute() {
    let in_out = vec![("var a = 0; {var a = 2; print a;} print a;", "2\n0\n")];

    for (src, expected) in in_out {
        let mut lox = Lox::new();
        lox.run(src).unwrap();
        assert_eq!(lox.output().as_str(), expected);
    }
}

#[test]
fn nested_shadowing_restores_each_level() {
    let mut lox = Lox::new();
    lox.run("var a = 1; { var a = 2; { var a = 3; print a; } print a; } print a;")
        .unwrap();
    assert_eq!(lox.output().as_str(), "3\n2\n1\n");
}

#[test]
fn bindings_persist_across_runs() {
    let mut lox = Lox::new();
    lox.run("var a = 41;").unwrap();
    assert_eq!(lox.take_output(), "");
    lox.run("print a + 1;").unwrap();
    assert_eq!(lox.take_output(), "42\n");
    lox.run("print a;").unwrap();
    assert_eq!(lox.take_output(), "41\n");
}
