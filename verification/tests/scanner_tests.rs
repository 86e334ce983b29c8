use lox::scanner::Scanner;
use lox::token::{Token, TokenType};

#[test]
fn test_run() {
    let source_code = "var id = 114.514;";

    let tokens = Scanner::new(source_code.to_string()).scan_tokens();
    let should_be = vec![
        Token::new(TokenType::Var, "var".to_string(), 1),
        Token::new(TokenType::Identifier, "id".to_string(), 1),
        Token::new(TokenType::Equal, "=".to_string(), 1),
        Token::new(TokenType::Number, "114.514".to_string(), 1),
        Token::new(TokenType::Semicolon, ";".to_string(), 1),
        Token::new(TokenType::Eof, String::new(), 1),
    ];
    assert_eq!(tokens, should_be);

    let source_code = "while (a == 114@) {\n var b = \"while\";\n }\n";
    let tokens = Scanner::new(source_code.to_string()).scan_tokens();
    let should_be = vec![
        Token::new(TokenType::While, "while".to_string(), 1),
        Token::new(TokenType::LeftParen, "(".to_string(), 1),
        Token::new(TokenType::Identifier, "a".to_string(), 1),
        Token::new(TokenType::EqualEqual, "==".to_string(), 1),
        Token::new(TokenType::Number, "114".to_string(), 1),
        Token::new(TokenType::RightParen, ")".to_string(), 1),
        Token::new(TokenType::LeftBrace, "{".to_string(), 1),
        Token::new(TokenType::Var, "var".to_string(), 2),
        Token::new(TokenType::Identifier, "b".to_string(), 2),
        Token::new(TokenType::Equal, "=".to_string(), 2),
        Token::new(TokenType::String, "while".to_string(), 2),
        Token::new(TokenType::Semicolon, ";".to_string(), 2),
        Token::new(TokenType::RightBrace, "}".to_string(), 3),
        Token::new(TokenType::Eof, String::new(), 4),
    ];
    assert_eq!(tokens, should_be);
}

#[test]
fn invalid_characters_are_skipped_and_recorded() {
    let mut scanner = Scanner::new("@ + #".to_string());
    let tokens = scanner.scan_tokens();
    let should_be = vec![
        Token::new(TokenType::Plus, "+".to_string(), 1),
        Token::new(TokenType::Eof, String::new(), 1),
    ];
    assert_eq!(tokens, should_be);
    let invalid = scanner.invalid_tokens();
    assert_eq!(
        *invalid,
        vec![
            Token::new(TokenType::Invalid, "@".to_string(), 1),
            Token::new(TokenType::Invalid, "#".to_string(), 1),
        ]
    );
}

#[test]
fn unterminated_string_consumes_to_end() {
    let tokens = Scanner::new("\"abc".to_string()).scan_tokens();
    let should_be = vec![
        Token::new(TokenType::String, "abc".to_string(), 1),
        Token::new(TokenType::Eof, String::new(), 1),
    ];
    assert_eq!(tokens, should_be);
}

#[test]
fn string_with_newline_spans_lines() {
    let tokens = Scanner::new("\"a\nb\"".to_string()).scan_tokens();
    let should_be = vec![
        Token::new(TokenType::String, "a\nb".to_string(), 2),
        Token::new(TokenType::Eof, String::new(), 2),
    ];
    assert_eq!(tokens, should_be);
}

#[test]
fn number_with_trailing_dot_is_consumed_greedily() {
    let tokens = Scanner::new("1. 1.2.3".to_string()).scan_tokens();
    let should_be = vec![
        Token::new(TokenType::Number, "1.".to_string(), 1),
        Token::new(TokenType::Number, "1.2".to_string(), 1),
        Token::new(TokenType::Dot, ".".to_string(), 1),
        Token::new(TokenType::Number, "3".to_string(), 1),
        Token::new(TokenType::Eof, String::new(), 1),
    ];
    assert_eq!(tokens, should_be);
}

#[test]
fn two_char_operators_scan_as_one_token() {
    let tokens = Scanner::new("<= >= == != < > = !".to_string()).scan_tokens();
    let kinds: Vec<TokenType> = tokens.iter().map(|t| t.ty).collect();
    assert_eq!(
        kinds,
        vec![
            TokenType::LessEqual,
            TokenType::GreaterEqual,
            TokenType::EqualEqual,
            TokenType::BangEqual,
            TokenType::Less,
            TokenType::Greater,
            TokenType::Equal,
            TokenType::Bang,
            TokenType::Eof,
        ]
    );
}
