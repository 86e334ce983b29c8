//! The scanner: one left-to-right pass over the source characters, producing
//! tokens and tracking a 1-based line counter. Whitespace and invalid
//! characters yield internal marker tokens that are dropped from the returned
//! sequence; invalid ones are kept aside for the caller to report.

use vstd::prelude::*;
use vstd::string::*;
use crate::token::{Token, TokenType, TokenV};

verus! {

/// Whether a char is alphanumeric under Unicode rules.
pub uninterp spec fn alphanumeric_char(c: char) -> bool;

/// Whether a char is numeric under Unicode rules.
pub uninterp spec fn numeric_char(c: char) -> bool;

/// Relies on char::is_alphanumeric: Unicode Alphabetic or Number class.
#[verifier::external_body]
fn is_alphanumeric_ch(c: char) -> (r: bool)
    ensures
        r == alphanumeric_char(c),
{
    c.is_alphanumeric()
}

/// Relies on char::is_numeric: Unicode Number class.
#[verifier::external_body]
fn is_numeric_ch(c: char) -> (r: bool)
    ensures
        r == numeric_char(c),
{
    c.is_numeric()
}

/// Relies on String::from(char): the one-character string of the char.
#[verifier::external_body]
pub(crate) fn char_string(c: char) -> (r: String)
    ensures
        r@ == seq![c],
{
    String::from(c)
}

pub open spec fn is_ascii_letter(c: char) -> bool {
    ('A' as u32 <= c as u32 && c as u32 <= 'Z' as u32) || ('a' as u32 <= c as u32 && c as u32
        <= 'z' as u32)
}

pub open spec fn is_ascii_digit_char(c: char) -> bool {
    '0' as u32 <= c as u32 && c as u32 <= '9' as u32
}

/// The end of an alphanumeric run starting at `i`.
pub open spec fn ident_end(src: Seq<char>, i: nat) -> nat
    decreases src.len() - i,
    when i <= src.len()
{
    if i < src.len() && alphanumeric_char(src[i as int]) {
        ident_end(src, i + 1)
    } else {
        i
    }
}

/// The end of a number run starting at `i`: digits, with at most one decimal
/// point accepted greedily.
pub open spec fn number_end(src: Seq<char>, i: nat, dot_seen: bool) -> nat
    decreases src.len() - i,
    when i <= src.len()
{
    if i < src.len() && numeric_char(src[i as int]) {
        number_end(src, i + 1, dot_seen)
    } else if i < src.len() && src[i as int] == '.' && !dot_seen {
        number_end(src, i + 1, true)
    } else {
        i
    }
}

/// A string literal run from `i`: consumes up to and including the closing
/// quote, or to end of input. The lexeme is the exact text between the
/// quotes, newlines included; each newline also bumps the line counter.
/// Yields lexeme, next position, line.
pub open spec fn string_body(src: Seq<char>, i: nat, line: nat, acc: Seq<char>) -> (
    Seq<char>,
    nat,
    nat,
)
    decreases src.len() - i,
    when i <= src.len()
{
    if i >= src.len() {
        (acc, i, line)
    } else if src[i as int] == '"' {
        (acc, i + 1, line)
    } else if src[i as int] == '\n' {
        string_body(src, i + 1, line + 1, acc.push(src[i as int]))
    } else {
        string_body(src, i + 1, line, acc.push(src[i as int]))
    }
}

/// The keyword a lexeme spells, if any; a keyword match overrides the
/// identifier classification.
pub open spec fn keyword_of(lex: Seq<char>) -> Option<TokenType> {
    if lex == "and"@ {
        Option::Some(TokenType::And)
    } else if lex == "class"@ {
        Option::Some(TokenType::Class)
    } else if lex == "else"@ {
        Option::Some(TokenType::Else)
    } else if lex == "false"@ {
        Option::Some(TokenType::False)
    } else if lex == "for"@ {
        Option::Some(TokenType::For)
    } else if lex == "func"@ {
        Option::Some(TokenType::Func)
    } else if lex == "if"@ {
        Option::Some(TokenType::If)
    } else if lex == "nil"@ {
        Option::Some(TokenType::Nil)
    } else if lex == "or"@ {
        Option::Some(TokenType::Or)
    } else if lex == "print"@ {
        Option::Some(TokenType::Print)
    } else if lex == "return"@ {
        Option::Some(TokenType::Return)
    } else if lex == "super"@ {
        Option::Some(TokenType::Super)
    } else if lex == "this"@ {
        Option::Some(TokenType::This)
    } else if lex == "true"@ {
        Option::Some(TokenType::True)
    } else if lex == "var"@ {
        Option::Some(TokenType::Var)
    } else if lex == "while"@ {
        Option::Some(TokenType::While)
    } else {
        Option::None
    }
}

pub open spec fn tokv(ty: TokenType, lexeme: Seq<char>, line: nat) -> TokenV {
    TokenV { ty, lexeme, line }
}

/// One dispatch step of the scanner at position `i` (which must be in
/// range): the raw token produced, the next position, and the next line.
pub open spec fn scan_one(src: Seq<char>, i: nat, line: nat) -> (TokenV, nat, nat)
    recommends
        i < src.len(),
{
    let c = src[i as int];
    if c == '(' {
        (tokv(TokenType::LeftParen, "("@, line), (i + 1) as nat, line)
    } else if c == '{' {
        (tokv(TokenType::LeftBrace, "{"@, line), (i + 1) as nat, line)
    } else if c == '}' {
        (tokv(TokenType::RightBrace, "}"@, line), (i + 1) as nat, line)
    } else if c == ')' {
        (tokv(TokenType::RightParen, ")"@, line), (i + 1) as nat, line)
    } else if c == ',' {
        (tokv(TokenType::Comma, ","@, line), (i + 1) as nat, line)
    } else if c == '.' {
        (tokv(TokenType::Dot, "."@, line), (i + 1) as nat, line)
    } else if c == '-' {
        (tokv(TokenType::Minus, "-"@, line), (i + 1) as nat, line)
    } else if c == '+' {
        (tokv(TokenType::Plus, "+"@, line), (i + 1) as nat, line)
    } else if c == ';' {
        (tokv(TokenType::Semicolon, ";"@, line), (i + 1) as nat, line)
    } else if c == '*' {
        (tokv(TokenType::Star, "*"@, line), (i + 1) as nat, line)
    } else if c == '/' {
        (tokv(TokenType::Slash, "/"@, line), (i + 1) as nat, line)
    } else if c == '!' {
        if i + 1 < src.len() && src[i as int + 1] == '=' {
            (tokv(TokenType::BangEqual, "!="@, line), (i + 2) as nat, line)
        } else {
            (tokv(TokenType::Bang, "!"@, line), (i + 1) as nat, line)
        }
    } else if c == '=' {
        if i + 1 < src.len() && src[i as int + 1] == '=' {
            (tokv(TokenType::EqualEqual, "=="@, line), (i + 2) as nat, line)
        } else {
            (tokv(TokenType::Equal, "="@, line), (i + 1) as nat, line)
        }
    } else if c == '>' {
        if i + 1 < src.len() && src[i as int + 1] == '=' {
            (tokv(TokenType::GreaterEqual, ">="@, line), (i + 2) as nat, line)
        } else {
            (tokv(TokenType::Greater, ">"@, line), (i + 1) as nat, line)
        }
    } else if c == '<' {
        if i + 1 < src.len() && src[i as int + 1] == '=' {
            (tokv(TokenType::LessEqual, "<="@, line), (i + 2) as nat, line)
        } else {
            (tokv(TokenType::Less, "<"@, line), (i + 1) as nat, line)
        }
    } else if c == '\n' {
        (tokv(TokenType::Blank, Seq::empty(), line), (i + 1) as nat, (line + 1) as nat)
    } else if c == ' ' || c == '\t' || c == '\r' {
        (tokv(TokenType::Blank, Seq::empty(), line), (i + 1) as nat, line)
    } else if is_ascii_letter(c) || c == '_' {
        let e = ident_end(src, i + 1);
        let lex = src.subrange(i as int, e as int);
        match keyword_of(lex) {
            Option::Some(ty) => (tokv(ty, lex, line), e, line),
            Option::None => (tokv(TokenType::Identifier, lex, line), e, line),
        }
    } else if is_ascii_digit_char(c) {
        let e = number_end(src, i + 1, false);
        let lex = src.subrange(i as int, e as int);
        (tokv(TokenType::Number, lex, line), e, line)
    } else if c == '"' {
        let sb = string_body(src, i + 1, line, Seq::empty());
        (tokv(TokenType::String, sb.0, sb.2), sb.1, sb.2)
    } else {
        (tokv(TokenType::Invalid, seq![c], line), (i + 1) as nat, line)
    }
}

pub open spec fn bump(j: nat, lo: nat) -> nat {
    if j < lo {
        lo
    } else {
        j
    }
}

/// The whole scan from position `i`: the tokens that are kept (whitespace
/// and invalid markers dropped), the invalid markers, and the final line.
pub open spec fn scan_rest(src: Seq<char>, i: nat, line: nat) -> (Seq<TokenV>, Seq<TokenV>, nat)
    decreases src.len() - i,
    when i <= src.len()
{
    if i >= src.len() {
        (Seq::empty(), Seq::empty(), line)
    } else {
        let step = scan_one(src, i, line);
        let j = bump(step.1, i + 1);
        let rest = scan_rest(src, if j <= src.len() { j } else { src.len() }, step.2);
        if step.0.ty == TokenType::Blank {
            rest
        } else if step.0.ty == TokenType::Invalid {
            (rest.0, seq![step.0] + rest.1, rest.2)
        } else {
            (seq![step.0] + rest.0, rest.1, rest.2)
        }
    }
}

/// The image of a token vector, element by element.
pub open spec fn tokens_view(ts: Seq<Token>) -> Seq<TokenV> {
    Seq::new(ts.len(), |i: int| ts[i]@)
}

/// The scanner state: the source, the cursor (in characters), and the
/// current 1-based line.
pub struct Scanner {
    source_code: String,
    current: usize,
    line: usize,
    invalid: Vec<Token>,
}

impl Scanner {
    pub closed spec fn src(&self) -> Seq<char> {
        self.source_code@
    }

    pub closed spec fn cur(&self) -> nat {
        self.current as nat
    }

    pub closed spec fn line_no(&self) -> nat {
        self.line as nat
    }

    pub closed spec fn invalid_view(&self) -> Seq<TokenV> {
        tokens_view(self.invalid@)
    }

    /// The cursor is inside the source and the line counter cannot overflow:
    /// it grows by at most one per remaining character.
    pub closed spec fn wf(&self) -> bool {
        &&& self.cur() <= self.src().len()
        &&& self.line_no() >= 1
        &&& self.line_no() + (self.src().len() - self.cur()) <= usize::MAX
    }

    pub fn new(source_code: String) -> (s: Scanner)
        requires
            source_code@.len() < usize::MAX,
        ensures
            s.wf(),
            s.src() == source_code@,
            s.cur() == 0,
            s.line_no() == 1,
            s.invalid_view() == Seq::<TokenV>::empty(),
    {
        let s = Scanner { source_code, current: 0, line: 1, invalid: Vec::new() };
        proof {
            assert(s.invalid_view() =~= Seq::<TokenV>::empty());
        }
        s
    }

    /// The invalid-character markers met so far, for the caller to report.
    pub fn invalid_tokens(&self) -> (r: &Vec<Token>)
        ensures
            tokens_view(r@) == self.invalid_view(),
    {
        &self.invalid
    }

    /// Scans everything left and returns the kept tokens, terminated by
    /// exactly one end-of-input token; invalid characters are skipped and
    /// recorded, never fatal.
    pub fn scan_tokens(&mut self) -> (r: Vec<Token>)
        requires
            old(self).wf(),
        ensures
            final(self).wf(),
            ({
                let whole = scan_rest(old(self).src(), old(self).cur(), old(self).line_no());
                &&& tokens_view(r@) == whole.0.push(tokv(TokenType::Eof, Seq::empty(), whole.2))
                &&& final(self).invalid_view() == old(self).invalid_view() + whole.1
                &&& final(self).line_no() == whole.2
                &&& final(self).src() == old(self).src()
            }),
    {
        let ghost whole = scan_rest(self.src(), self.cur(), self.line_no());
        let ghost invalid0 = self.invalid_view();
        let mut tokens: Vec<Token> = Vec::new();
        let n = self.source_code.as_str().unicode_len();
        proof {
            assert(tokens_view(tokens@) =~= Seq::<TokenV>::empty());
            assert(tokens_view(tokens@) + whole.0 =~= whole.0);
            assert(invalid0 + whole.1 =~= self.invalid_view() + whole.1);
        }
        while self.current < n
            invariant
                self.wf(),
                n == self.src().len(),
                self.src() == old(self).src(),
                whole == scan_rest(old(self).src(), old(self).cur(), old(self).line_no()),
                invalid0 == old(self).invalid_view(),
                ({
                    let rest = scan_rest(self.src(), self.cur(), self.line_no());
                    &&& whole.0 == tokens_view(tokens@) + rest.0
                    &&& invalid0 + whole.1 == self.invalid_view() + rest.1
                    &&& whole.2 == rest.2
                }),
            decreases self.src().len() - self.cur(),
        {
            let ghost pre_invalid = self.invalid_view();
            let ghost pre_tokens = tokens_view(tokens@);
            let t = match self.scan_token() {
                Option::Some(t) => t,
                Option::None => {
                    proof {
                        assert(false);
                    }
                    return tokens;
                },
            };
            let ghost rest = scan_rest(self.src(), self.cur(), self.line_no());
            match t.ty {
                TokenType::Invalid => {
                    let ghost tv = t@;
                    self.invalid.push(t);
                    proof {
                        assert(self.invalid_view() =~= pre_invalid.push(tv));
                        assert(pre_invalid.push(tv) + rest.1 =~= pre_invalid + (seq![tv]
                            + rest.1));
                    }
                },
                TokenType::Blank => {},
                _ => {
                    let ghost tv = t@;
                    tokens.push(t);
                    proof {
                        assert(tokens_view(tokens@) =~= pre_tokens.push(tv));
                        assert(pre_tokens.push(tv) + rest.0 =~= pre_tokens + (seq![tv] + rest.0));
                    }
                },
            }
        }
        let token = Token::new(TokenType::Eof, String::new(), self.line);
        tokens.push(token);
        proof {
            let rest = scan_rest(self.src(), self.cur(), self.line_no());
            assert(whole.0 =~= whole.0 + rest.0);
            assert(tokens_view(tokens@) =~= whole.0.push(
                tokv(TokenType::Eof, Seq::empty(), whole.2),
            ));
            assert(invalid0 + whole.1 =~= self.invalid_view() + rest.1);
            assert(self.invalid_view() =~= old(self).invalid_view() + whole.1);
        }
        tokens
    }

    /// Scans the single token starting at the cursor; yields nothing at end
    /// of input.
    fn scan_token(&mut self) -> (r: Option<Token>)
        requires
            old(self).wf(),
        ensures
            final(self).wf(),
            final(self).src() == old(self).src(),
            (if old(self).cur() < old(self).src().len() {
                let step = scan_one(old(self).src(), old(self).cur(), old(self).line_no());
                &&& r matches Option::Some(t) && t@ == step.0
                &&& final(self).cur() == step.1
                &&& final(self).line_no() == step.2
                &&& final(self).cur() > old(self).cur()
                &&& final(self).invalid_view() == old(self).invalid_view()
            } else {
                &&& r is None
                &&& *final(self) == *old(self)
            }),
    {
        let n = self.source_code.as_str().unicode_len();
        if self.current >= n {
            return Option::None;
        }
        let ch = self.source_code.as_str().get_char(self.current);
        if ch == '(' {
            self.current = self.current + 1;
            Option::Some(Token::new(TokenType::LeftParen, "(".to_owned(), self.line))
        } else if ch == '{' {
            self.current = self.current + 1;
            Option::Some(Token::new(TokenType::LeftBrace, "{".to_owned(), self.line))
        } else if ch == '}' {
            self.current = self.current + 1;
            Option::Some(Token::new(TokenType::RightBrace, "}".to_owned(), self.line))
        } else if ch == ')' {
            self.current = self.current + 1;
            Option::Some(Token::new(TokenType::RightParen, ")".to_owned(), self.line))
        } else if ch == ',' {
            self.current = self.current + 1;
            Option::Some(Token::new(TokenType::Comma, ",".to_owned(), self.line))
        } else if ch == '.' {
            self.current = self.current + 1;
            Option::Some(Token::new(TokenType::Dot, ".".to_owned(), self.line))
        } else if ch == '-' {
            self.current = self.current + 1;
            Option::Some(Token::new(TokenType::Minus, "-".to_owned(), self.line))
        } else if ch == '+' {
            self.current = self.current + 1;
            Option::Some(Token::new(TokenType::Plus, "+".to_owned(), self.line))
        } else if ch == ';' {
            self.current = self.current + 1;
            Option::Some(Token::new(TokenType::Semicolon, ";".to_owned(), self.line))
        } else if ch == '*' {
            self.current = self.current + 1;
            Option::Some(Token::new(TokenType::Star, "*".to_owned(), self.line))
        } else if ch == '/' {
            self.current = self.current + 1;
            Option::Some(Token::new(TokenType::Slash, "/".to_owned(), self.line))
        } else if ch == '!' {
            self.current = self.current + 1;
            if self.current < n && self.source_code.as_str().get_char(self.current) == '=' {
                self.current = self.current + 1;
                Option::Some(Token::new(TokenType::BangEqual, "!=".to_owned(), self.line))
            } else {
                Option::Some(Token::new(TokenType::Bang, "!".to_owned(), self.line))
            }
        } else if ch == '=' {
            self.current = self.current + 1;
            if self.current < n && self.source_code.as_str().get_char(self.current) == '=' {
                self.current = self.current + 1;
                Option::Some(Token::new(TokenType::EqualEqual, "==".to_owned(), self.line))
            } else {
                Option::Some(Token::new(TokenType::Equal, "=".to_owned(), self.line))
            }
        } else if ch == '>' {
            self.current = self.current + 1;
            if self.current < n && self.source_code.as_str().get_char(self.current) == '=' {
                self.current = self.current + 1;
                Option::Some(Token::new(TokenType::GreaterEqual, ">=".to_owned(), self.line))
            } else {
                Option::Some(Token::new(TokenType::Greater, ">".to_owned(), self.line))
            }
        } else if ch == '<' {
            self.current = self.current + 1;
            if self.current < n && self.source_code.as_str().get_char(self.current) == '=' {
                self.current = self.current + 1;
                Option::Some(Token::new(TokenType::LessEqual, "<=".to_owned(), self.line))
            } else {
                Option::Some(Token::new(TokenType::Less, "<".to_owned(), self.line))
            }
        } else if ch == '\n' {
            let token = Token::new(TokenType::Blank, String::new(), self.line);
            self.current = self.current + 1;
            self.line = self.line + 1;
            Option::Some(token)
        } else if ch == ' ' || ch == '\t' || ch == '\r' {
            self.current = self.current + 1;
            Option::Some(Token::new(TokenType::Blank, String::new(), self.line))
        } else if ('A' as u32 <= ch as u32 && ch as u32 <= 'Z' as u32) || ('a' as u32 <= ch as u32
            && ch as u32 <= 'z' as u32) || ch == '_' {
            Option::Some(self.identifier())
        } else if '0' as u32 <= ch as u32 && ch as u32 <= '9' as u32 {
            Option::Some(self.number())
        } else if ch == '"' {
            Option::Some(self.string())
        } else {
            self.current = self.current + 1;
            Option::Some(Token::new(TokenType::Invalid, char_string(ch), self.line))
        }
    }

    /// An identifier run: the starting character and every following
    /// alphanumeric one; a keyword lexeme is classified as that keyword.
    fn identifier(&mut self) -> (t: Token)
        requires
            old(self).wf(),
            old(self).cur() < old(self).src().len(),
        ensures
            final(self).wf(),
            final(self).src() == old(self).src(),
            final(self).line_no() == old(self).line_no(),
            final(self).invalid_view() == old(self).invalid_view(),
            final(self).cur() == ident_end(old(self).src(), old(self).cur() + 1),
            final(self).cur() > old(self).cur(),
            ({
                let lex = old(self).src().subrange(
                    old(self).cur() as int,
                    final(self).cur() as int,
                );
                t@ == (match keyword_of(lex) {
                    Option::Some(ty) => tokv(ty, lex, old(self).line_no()),
                    Option::None => tokv(TokenType::Identifier, lex, old(self).line_no()),
                })
            }),
    {
        let n = self.source_code.as_str().unicode_len();
        let start = self.current;
        self.current = self.current + 1;
        loop
            invariant
                self.wf(),
                n == self.src().len(),
                self.src() == old(self).src(),
                self.line_no() == old(self).line_no(),
                self.invalid_view() == old(self).invalid_view(),
                start == old(self).cur(),
                start < self.cur() <= n,
                ident_end(self.src(), start as nat + 1) == ident_end(self.src(), self.cur()),
            ensures
                self.wf(),
                n == self.src().len(),
                self.src() == old(self).src(),
                self.line_no() == old(self).line_no(),
                self.invalid_view() == old(self).invalid_view(),
                start == old(self).cur(),
                start < self.cur() <= n,
                self.cur() == ident_end(self.src(), start as nat + 1),
            decreases self.src().len() - self.cur(),
        {
            if self.current >= n {
                break ;
            }
            let ch = self.source_code.as_str().get_char(self.current);
            if !is_alphanumeric_ch(ch) {
                break ;
            }
            self.current = self.current + 1;
        }
        let lexeme = self.source_code.as_str().substring_char(start, self.current).to_owned();
        match preserved_word(lexeme.as_str(), self.line) {
            Option::Some(preserved) => preserved,
            Option::None => Token::new(TokenType::Identifier, lexeme, self.line),
        }
    }

    /// A number run: the starting digit, further digits, and at most one
    /// decimal point, consumed greedily.
    fn number(&mut self) -> (t: Token)
        requires
            old(self).wf(),
            old(self).cur() < old(self).src().len(),
        ensures
            final(self).wf(),
            final(self).src() == old(self).src(),
            final(self).line_no() == old(self).line_no(),
            final(self).invalid_view() == old(self).invalid_view(),
            final(self).cur() == number_end(old(self).src(), old(self).cur() + 1, false),
            final(self).cur() > old(self).cur(),
            t@ == tokv(
                TokenType::Number,
                old(self).src().subrange(old(self).cur() as int, final(self).cur() as int),
                old(self).line_no(),
            ),
    {
        let n = self.source_code.as_str().unicode_len();
        let start = self.current;
        self.current = self.current + 1;
        let mut dot_consumed = false;
        loop
            invariant
                self.wf(),
                n == self.src().len(),
                self.src() == old(self).src(),
                self.line_no() == old(self).line_no(),
                self.invalid_view() == old(self).invalid_view(),
                start == old(self).cur(),
                start < self.cur() <= n,
                number_end(self.src(), start as nat + 1, false) == number_end(
                    self.src(),
                    self.cur(),
                    dot_consumed,
                ),
            ensures
                self.wf(),
                n == self.src().len(),
                self.src() == old(self).src(),
                self.line_no() == old(self).line_no(),
                self.invalid_view() == old(self).invalid_view(),
                start == old(self).cur(),
                start < self.cur() <= n,
                self.cur() == number_end(self.src(), start as nat + 1, false),
            decreases self.src().len() - self.cur(),
        {
            if self.current >= n {
                break ;
            }
            let ch = self.source_code.as_str().get_char(self.current);
            if is_numeric_ch(ch) {
                self.current = self.current + 1;
            } else if ch == '.' && !dot_consumed {
                dot_consumed = true;
                self.current = self.current + 1;
            } else {
                break ;
            }
        }
        // error number parse handle
        let lexeme = self.source_code.as_str().substring_char(start, self.current).to_owned();
        Token::new(TokenType::Number, lexeme, self.line)
    }

    /// expect to parse a string literal like "aaa"
    /// do not support \
    fn string(&mut self) -> (t: Token)
        requires
            old(self).wf(),
            old(self).cur() < old(self).src().len(),
        ensures
            final(self).wf(),
            final(self).src() == old(self).src(),
            final(self).invalid_view() == old(self).invalid_view(),
            ({
                let sb = string_body(
                    old(self).src(),
                    old(self).cur() + 1,
                    old(self).line_no(),
                    Seq::empty(),
                );
                &&& t@ == tokv(TokenType::String, sb.0, sb.2)
                &&& final(self).cur() == sb.1
                &&& final(self).line_no() == sb.2
                &&& final(self).cur() > old(self).cur()
            }),
    {
        let n = self.source_code.as_str().unicode_len();
        let mut token = String::new();
        // skip the first quote
        self.current = self.current + 1;
        let ghost sb = string_body(
            old(self).src(),
            old(self).cur() + 1,
            old(self).line_no(),
            Seq::empty(),
        );
        loop
            invariant_except_break
                sb == string_body(self.src(), self.cur(), self.line_no(), token@),
            invariant
                self.wf(),
                n == self.src().len(),
                self.src() == old(self).src(),
                self.invalid_view() == old(self).invalid_view(),
                old(self).cur() < self.cur() <= n,
                sb == string_body(
                    old(self).src(),
                    old(self).cur() + 1,
                    old(self).line_no(),
                    Seq::empty(),
                ),
            ensures
                self.wf(),
                self.src() == old(self).src(),
                self.invalid_view() == old(self).invalid_view(),
                old(self).cur() < self.cur() <= n,
                token@ == sb.0,
                self.cur() == sb.1,
                self.line_no() == sb.2,
            decreases self.src().len() - self.cur(),
        {
            if self.current >= n {
                break ;
            }
            let ch = self.source_code.as_str().get_char(self.current);
            if ch == '\n' {
                self.line = self.line + 1;
            }
            if ch != '"' {
                let ghost prev = token@;
                let one = char_string(ch);
                token.append(one.as_str());
                proof {
                    assert(token@ =~= prev.push(ch));
                }
            }
            self.current = self.current + 1;
            // out of this loop when meeting the second quote
            if ch == '"' {
                break ;
            }
        }
        Token::new(TokenType::String, token, self.line)
    }
}

/// The fixed keyword table.
fn preserved_word(token: &str, line: usize) -> (r: Option<Token>)
    ensures
        (match keyword_of(token@) {
            Option::Some(ty) => r matches Option::Some(t) && t@ == tokv(ty, token@, line as nat),
            Option::None => r is None,
        }),
{
    let owned = token.to_owned();
    if owned == "and".to_owned() {
        Option::Some(Token::new(TokenType::And, "and".to_owned(), line))
    } else if owned == "class".to_owned() {
        Option::Some(Token::new(TokenType::Class, "class".to_owned(), line))
    } else if owned == "else".to_owned() {
        Option::Some(Token::new(TokenType::Else, "else".to_owned(), line))
    } else if owned == "false".to_owned() {
        Option::Some(Token::new(TokenType::False, "false".to_owned(), line))
    } else if owned == "for".to_owned() {
        Option::Some(Token::new(TokenType::For, "for".to_owned(), line))
    } else if owned == "func".to_owned() {
        Option::Some(Token::new(TokenType::Func, "func".to_owned(), line))
    } else if owned == "if".to_owned() {
        Option::Some(Token::new(TokenType::If, "if".to_owned(), line))
    } else if owned == "nil".to_owned() {
        Option::Some(Token::new(TokenType::Nil, "nil".to_owned(), line))
    } else if owned == "or".to_owned() {
        Option::Some(Token::new(TokenType::Or, "or".to_owned(), line))
    } else if owned == "print".to_owned() {
        Option::Some(Token::new(TokenType::Print, "print".to_owned(), line))
    } else if owned == "return".to_owned() {
        Option::Some(Token::new(TokenType::Return, "return".to_owned(), line))
    } else if owned == "super".to_owned() {
        Option::Some(Token::new(TokenType::Super, "super".to_owned(), line))
    } else if owned == "this".to_owned() {
        Option::Some(Token::new(TokenType::This, "this".to_owned(), line))
    } else if owned == "true".to_owned() {
        Option::Some(Token::new(TokenType::True, "true".to_owned(), line))
    } else if owned == "var".to_owned() {
        Option::Some(Token::new(TokenType::Var, "var".to_owned(), line))
    } else if owned == "while".to_owned() {
        Option::Some(Token::new(TokenType::While, "while".to_owned(), line))
    } else {
        Option::None
    }
}

} // verus!
