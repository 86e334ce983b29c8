//! The token model: an immutable tagged value of kind, lexeme and line.

use vstd::prelude::*;

verus! {

/// The closed category of a token: punctuators, one- and two-character
/// operators, literals, keywords, the end-of-input marker, and the two
/// scanner-internal markers that never reach the parser.
#[derive(Clone, Copy, PartialEq, Eq, Structural, Debug)]
pub enum TokenType {
    // Single-character tokens.
    LeftParen,
    RightParen,
    LeftBrace,
    RightBrace,
    Comma,
    Dot,
    Minus,
    Plus,
    Semicolon,
    Slash,
    Star,
    // One or two character tokens.
    Bang,
    BangEqual,
    Equal,
    EqualEqual,
    Greater,
    GreaterEqual,
    Less,
    LessEqual,
    // Literals.
    Identifier,
    String,
    Number,
    // Keywords.
    And,
    Class,
    Else,
    False,
    Func,
    For,
    If,
    Nil,
    Or,
    Print,
    Return,
    Super,
    This,
    True,
    Var,
    While,
    Eof,
    Invalid,
    Blank,
}

impl TokenType {
    /// The short printable text of a token kind, used in diagnostics.
    pub open spec fn text_spec(self) -> Seq<char> {
        match self {
            TokenType::LeftParen => "("@,
            TokenType::RightParen => ")"@,
            TokenType::LeftBrace => "{"@,
            TokenType::RightBrace => "}"@,
            TokenType::Comma => ","@,
            TokenType::Dot => "."@,
            TokenType::Minus => "-"@,
            TokenType::Plus => "+"@,
            TokenType::Semicolon => ";"@,
            TokenType::Slash => "/"@,
            TokenType::Star => "*"@,
            TokenType::Bang => "!"@,
            TokenType::BangEqual => "!="@,
            TokenType::Equal => "="@,
            TokenType::EqualEqual => "=="@,
            TokenType::Greater => ">"@,
            TokenType::GreaterEqual => ">="@,
            TokenType::Less => "<"@,
            TokenType::LessEqual => "<="@,
            TokenType::Identifier => "Identifier"@,
            TokenType::String => "String"@,
            TokenType::Number => "Number"@,
            TokenType::And => "&&"@,
            TokenType::Class => "class"@,
            TokenType::Else => "else"@,
            TokenType::False => "false"@,
            TokenType::Func => "func"@,
            TokenType::For => "for"@,
            TokenType::If => "if"@,
            TokenType::Nil => "nil"@,
            TokenType::Or => "or"@,
            TokenType::Print => "print"@,
            TokenType::Return => "return"@,
            TokenType::Super => "super"@,
            TokenType::This => "this"@,
            TokenType::True => "true"@,
            TokenType::Var => "var"@,
            TokenType::While => "while"@,
            TokenType::Eof => "Eof"@,
            TokenType::Invalid => "Invalid"@,
            TokenType::Blank => "Blank"@,
        }
    }

    /// The printable text of a token kind.
    pub fn text(&self) -> (r: String)
        ensures
            r@ == self.text_spec(),
    {
        match self {
            TokenType::LeftParen => "(".to_owned(),
            TokenType::RightParen => ")".to_owned(),
            TokenType::LeftBrace => "{".to_owned(),
            TokenType::RightBrace => "}".to_owned(),
            TokenType::Comma => ",".to_owned(),
            TokenType::Dot => ".".to_owned(),
            TokenType::Minus => "-".to_owned(),
            TokenType::Plus => "+".to_owned(),
            TokenType::Semicolon => ";".to_owned(),
            TokenType::Slash => "/".to_owned(),
            TokenType::Star => "*".to_owned(),
            TokenType::Bang => "!".to_owned(),
            TokenType::BangEqual => "!=".to_owned(),
            TokenType::Equal => "=".to_owned(),
            TokenType::EqualEqual => "==".to_owned(),
            TokenType::Greater => ">".to_owned(),
            TokenType::GreaterEqual => ">=".to_owned(),
            TokenType::Less => "<".to_owned(),
            TokenType::LessEqual => "<=".to_owned(),
            TokenType::Identifier => "Identifier".to_owned(),
            TokenType::String => "String".to_owned(),
            TokenType::Number => "Number".to_owned(),
            TokenType::And => "&&".to_owned(),
            TokenType::Class => "class".to_owned(),
            TokenType::Else => "else".to_owned(),
            TokenType::False => "false".to_owned(),
            TokenType::Func => "func".to_owned(),
            TokenType::For => "for".to_owned(),
            TokenType::If => "if".to_owned(),
            TokenType::Nil => "nil".to_owned(),
            TokenType::Or => "or".to_owned(),
            TokenType::Print => "print".to_owned(),
            TokenType::Return => "return".to_owned(),
            TokenType::Super => "super".to_owned(),
            TokenType::This => "this".to_owned(),
            TokenType::True => "true".to_owned(),
            TokenType::Var => "var".to_owned(),
            TokenType::While => "while".to_owned(),
            TokenType::Eof => "Eof".to_owned(),
            TokenType::Invalid => "Invalid".to_owned(),
            TokenType::Blank => "Blank".to_owned(),
        }
    }
}

/// The mathematical image of a token: its kind, its text, and the 1-based
/// source line it was scanned on.
pub struct TokenV {
    pub ty: TokenType,
    pub lexeme: Seq<char>,
    pub line: nat,
}

/// A scanned token. The lexeme is the exact source substring the token was
/// scanned from (for string literals, without the quotes).
#[derive(Clone, PartialEq, Debug)]
pub struct Token {
    pub ty: TokenType,
    pub lexeme: std::string::String,
    pub line: usize,
}

impl View for Token {
    type V = TokenV;

    open spec fn view(&self) -> TokenV {
        TokenV { ty: self.ty, lexeme: self.lexeme@, line: self.line as nat }
    }
}

impl Token {
    pub fn new(ty: TokenType, lexeme: String, line: usize) -> (t: Token)
        ensures
            t@ == (TokenV { ty, lexeme: lexeme@, line: line as nat }),
    {
        Token { ty, lexeme, line }
    }

    /// An explicit copy whose view is known to equal the receiver's.
    pub fn dup(&self) -> (t: Token)
        ensures
            t@ == self@,
    {
        Token { ty: self.ty, lexeme: self.lexeme.clone(), line: self.line }
    }
}

} // verus!
