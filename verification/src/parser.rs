// program        → declaration * EOF ;
// declaration    → varDecl
//                | statement ;
// varDecl        → "var" IDENTIFIER ( "=" expression )? ";" ;
// statement      → exprStmt
//                | printStmt
//                | block;
// block          → "{" declaration* "}" ;
// exprStmt       → expression ";" ;
// printStmt      → "print" expression ";" ;
// expression     → assignment ;
// assignment     → IDENTIFIER "=" assignment
//                | equality;
// equality       → comparison ( ( "!=" | "==" ) comparison )* ;
// comparison     → term ( ( ">" | ">=" | "<" | "<=" ) term )* ;
// term           → factor ( ( "-" | "+" ) factor )* ;
// factor         → unary ( ( "/" | "*" ) unary )* ;
// unary          → ( "!" | "-" ) unary
//                | primary ;
// primary        → NUMBER | STRING | "true" | "false" | "nil"
//                | "(" expression ")"
//                | IDENTIFIER ;
//
// The recursive-descent parser below is specified by a functional model of
// exactly this grammar walk: each method is proved to produce the expression
// or statement image and the cursor that its model function yields.

use vstd::prelude::*;
use vstd::string::*;

use crate::error::ParseError;
use crate::expression::{
    AssignExpr, BinaryExpr, Expr, ExprV, GroupingExpr, LiteralExpr, UnaryExpr, VariableExpr,
};
use crate::scanner::tokens_view;
use crate::statement::{Block, ExprStmt, PrintStmt, Stmt, StmtV, VarDecStmt, stmts_view};
use crate::token::{Token, TokenType, TokenV};

verus! {

broadcast use vstd::std_specs::vec::axiom_spec_len;

/// A well-formed token stream ends with an end-of-input marker.
pub open spec fn wf_toks(toks: Seq<TokenV>) -> bool {
    toks.len() >= 1 && toks[toks.len() - 1].ty == TokenType::Eof
}

/// The kind under the cursor; end-of-input beyond the last token.
pub open spec fn peek_ty(toks: Seq<TokenV>, cur: nat) -> TokenType {
    if cur < toks.len() {
        toks[cur as int].ty
    } else {
        TokenType::Eof
    }
}

pub open spec fn at_end(toks: Seq<TokenV>, cur: nat) -> bool {
    peek_ty(toks, cur) == TokenType::Eof
}

pub open spec fn sp_check(toks: Seq<TokenV>, cur: nat, ty: TokenType) -> bool {
    !at_end(toks, cur) && peek_ty(toks, cur) == ty
}

/// Advancing consumes one token unless the cursor already rests on
/// end-of-input.
pub open spec fn sp_advance(toks: Seq<TokenV>, cur: nat) -> nat {
    if at_end(toks, cur) {
        cur
    } else {
        (cur + 1) as nat
    }
}

/// Matching one of the given kinds consumes the token on a hit.
pub open spec fn sp_match(toks: Seq<TokenV>, cur: nat, tys: Seq<TokenType>) -> (bool, nat) {
    if !at_end(toks, cur) && tys.contains(peek_ty(toks, cur)) {
        (true, (cur + 1) as nat)
    } else {
        (false, cur)
    }
}

/// The cursor a sub-parse hands back, forced forward past `lo` and into the
/// stream; the parser's own contracts show the forcing never fires.
pub open spec fn step_to(toks: Seq<TokenV>, c: nat, lo: nat) -> nat {
    let b = if c < lo {
        lo
    } else {
        c
    };
    if b <= toks.len() {
        b
    } else {
        toks.len()
    }
}

/// Outcome of one expression-grammar rule: the parsed image and the cursor
/// after it, or a failure and the cursor where parsing stopped.
pub enum PR {
    Parsed(ExprV, nat),
    Failed(nat),
}

/// Outcome of one statement-grammar rule.
pub enum SR {
    Parsed(StmtV, nat),
    Failed(nat),
}

pub open spec fn sp_primary(toks: Seq<TokenV>, cur: nat) -> PR
    decreases toks.len() - cur, 1nat,
{
    if cur >= toks.len() {
        PR::Failed(cur)
    } else {
        let lit = seq![
            TokenType::False,
            TokenType::True,
            TokenType::Nil,
            TokenType::Number,
            TokenType::String,
        ];
        let m = sp_match(toks, cur, lit);
        let mlp = sp_match(toks, cur, seq![TokenType::LeftParen]);
        let mid = sp_match(toks, cur, seq![TokenType::Identifier]);
        if m.0 {
            PR::Parsed(ExprV::Literal(toks[cur as int]), m.1)
        } else if mlp.0 {
            match sp_expression(toks, mlp.1) {
                PR::Parsed(e, c2) => {
                    if sp_check(toks, c2, TokenType::RightParen) {
                        PR::Parsed(ExprV::Grouping(Box::new(e)), sp_advance(toks, c2))
                    } else {
                        PR::Failed(c2)
                    }
                },
                PR::Failed(c2) => PR::Failed(c2),
            }
        } else if mid.0 {
            PR::Parsed(ExprV::Variable(toks[cur as int]), mid.1)
        } else {
            PR::Failed(cur)
        }
    }
}

pub open spec fn sp_unary(toks: Seq<TokenV>, cur: nat) -> PR
    decreases toks.len() - cur, 2nat,
{
    if cur >= toks.len() {
        PR::Failed(cur)
    } else {
        let m = sp_match(toks, cur, seq![TokenType::Bang, TokenType::Minus]);
        if m.0 {
            match sp_unary(toks, m.1) {
                PR::Parsed(e, c2) => PR::Parsed(
                    ExprV::Unary(toks[cur as int], Box::new(e)),
                    c2,
                ),
                PR::Failed(c2) => PR::Failed(c2),
            }
        } else {
            sp_primary(toks, cur)
        }
    }
}

/// The left-associative folding shared by the four binary precedence levels:
/// as long as one of `ops` is under the cursor, consume it, parse the next
/// higher level, and fold a binary node around the accumulated left side.
/// `sub` names the next higher level by its rank.
pub open spec fn sp_binary_rest(toks: Seq<TokenV>, acc: ExprV, cur: nat, ops: Seq<TokenType>, sub: nat) -> PR
    decreases toks.len() - cur, sub + 1nat,
    when sub == 2 || sub == 4 || sub == 6 || sub == 8
{
    if cur >= toks.len() {
        PR::Parsed(acc, cur)
    } else {
        let m = sp_match(toks, cur, ops);
        if m.0 {
            let inner = if sub == 2 {
                sp_unary(toks, m.1)
            } else if sub == 4 {
                sp_factor(toks, m.1)
            } else if sub == 6 {
                sp_term(toks, m.1)
            } else {
                sp_comparison(toks, m.1)
            };
            match inner {
                PR::Parsed(r, c2) => sp_binary_rest(
                    toks,
                    ExprV::Binary(Box::new(acc), toks[cur as int], Box::new(r)),
                    step_to(toks, c2, (cur + 1) as nat),
                    ops,
                    sub,
                ),
                PR::Failed(c2) => PR::Failed(c2),
            }
        } else {
            PR::Parsed(acc, cur)
        }
    }
}

pub open spec fn sp_factor(toks: Seq<TokenV>, cur: nat) -> PR
    decreases toks.len() - cur, 4nat,
{
    if cur >= toks.len() {
        PR::Failed(cur)
    } else {
        match sp_unary(toks, cur) {
            PR::Parsed(e, c2) => sp_binary_rest(
                toks,
                e,
                step_to(toks, c2, cur),
                seq![TokenType::Slash, TokenType::Star],
                2nat,
            ),
            PR::Failed(c2) => PR::Failed(c2),
        }
    }
}

pub open spec fn sp_term(toks: Seq<TokenV>, cur: nat) -> PR
    decreases toks.len() - cur, 6nat,
{
    if cur >= toks.len() {
        PR::Failed(cur)
    } else {
        match sp_factor(toks, cur) {
            PR::Parsed(e, c2) => sp_binary_rest(
                toks,
                e,
                step_to(toks, c2, cur),
                seq![TokenType::Minus, TokenType::Plus],
                4nat,
            ),
            PR::Failed(c2) => PR::Failed(c2),
        }
    }
}

pub open spec fn sp_comparison(toks: Seq<TokenV>, cur: nat) -> PR
    decreases toks.len() - cur, 8nat,
{
    if cur >= toks.len() {
        PR::Failed(cur)
    } else {
        match sp_term(toks, cur) {
            PR::Parsed(e, c2) => sp_binary_rest(
                toks,
                e,
                step_to(toks, c2, cur),
                seq![
                    TokenType::Greater,
                    TokenType::GreaterEqual,
                    TokenType::Less,
                    TokenType::LessEqual,
                ],
                6nat,
            ),
            PR::Failed(c2) => PR::Failed(c2),
        }
    }
}

pub open spec fn sp_equality(toks: Seq<TokenV>, cur: nat) -> PR
    decreases toks.len() - cur, 10nat,
{
    if cur >= toks.len() {
        PR::Failed(cur)
    } else {
        match sp_comparison(toks, cur) {
            PR::Parsed(e, c2) => sp_binary_rest(
                toks,
                e,
                step_to(toks, c2, cur),
                seq![TokenType::BangEqual, TokenType::EqualEqual],
                8nat,
            ),
            PR::Failed(c2) => PR::Failed(c2),
        }
    }
}

/// Assignment is right-associative: an already parsed equality is
/// reinterpreted as a target when `=` follows, and must be a plain variable.
pub open spec fn sp_assignment(toks: Seq<TokenV>, cur: nat) -> PR
    decreases toks.len() - cur, 11nat,
{
    if cur >= toks.len() {
        PR::Failed(cur)
    } else {
        match sp_equality(toks, cur) {
            PR::Parsed(e, c2) => {
                if sp_match(toks, c2, seq![TokenType::Equal]).0 {
                    match sp_assignment(toks, step_to(toks, (c2 + 1) as nat, (cur + 1) as nat)) {
                        PR::Parsed(value, c3) => match e {
                            ExprV::Variable(t) => PR::Parsed(
                                ExprV::Assign(t, Box::new(value)),
                                c3,
                            ),
                            _ => PR::Failed(c3),
                        },
                        PR::Failed(c3) => PR::Failed(c3),
                    }
                } else {
                    PR::Parsed(e, c2)
                }
            },
            PR::Failed(c2) => PR::Failed(c2),
        }
    }
}

pub open spec fn sp_expression(toks: Seq<TokenV>, cur: nat) -> PR
    decreases toks.len() - cur, 12nat,
{
    if cur >= toks.len() {
        PR::Failed(cur)
    } else {
        sp_assignment(toks, cur)
    }
}

pub open spec fn sp_print_stmt(toks: Seq<TokenV>, cur: nat) -> SR
    decreases toks.len() - cur, 13nat,
{
    if cur >= toks.len() {
        SR::Failed(cur)
    } else {
        match sp_expression(toks, cur) {
            PR::Parsed(e, c2) => {
                if sp_check(toks, c2, TokenType::Semicolon) {
                    SR::Parsed(StmtV::Print(e), sp_advance(toks, c2))
                } else {
                    SR::Failed(c2)
                }
            },
            PR::Failed(c2) => SR::Failed(c2),
        }
    }
}

pub open spec fn sp_expr_stmt(toks: Seq<TokenV>, cur: nat) -> SR
    decreases toks.len() - cur, 13nat,
{
    if cur >= toks.len() {
        SR::Failed(cur)
    } else {
        match sp_expression(toks, cur) {
            PR::Parsed(e, c2) => {
                if sp_check(toks, c2, TokenType::Semicolon) {
                    SR::Parsed(StmtV::Expr(e), sp_advance(toks, c2))
                } else {
                    SR::Failed(c2)
                }
            },
            PR::Failed(c2) => SR::Failed(c2),
        }
    }
}

pub open spec fn sp_var_declaration(toks: Seq<TokenV>, cur: nat) -> SR
    decreases toks.len() - cur, 13nat,
{
    if cur >= toks.len() {
        SR::Failed(cur)
    } else {
        if sp_check(toks, cur, TokenType::Identifier) {
            let name = toks[cur as int].lexeme;
            let c1 = (cur + 1) as nat;
            if sp_match(toks, c1, seq![TokenType::Equal]).0 {
                match sp_expression(toks, (c1 + 1) as nat) {
                    PR::Parsed(e, c2) => {
                        if sp_check(toks, c2, TokenType::Semicolon) {
                            SR::Parsed(
                                StmtV::Var(name, Option::Some(e)),
                                sp_advance(toks, c2),
                            )
                        } else {
                            SR::Failed(c2)
                        }
                    },
                    PR::Failed(c2) => SR::Failed(c2),
                }
            } else {
                if sp_check(toks, c1, TokenType::Semicolon) {
                    SR::Parsed(StmtV::Var(name, Option::None), sp_advance(toks, c1))
                } else {
                    SR::Failed(c1)
                }
            }
        } else {
            SR::Failed(cur)
        }
    }
}

/// A block gathers declarations until the closing brace or end of input,
/// then requires the closing brace.
pub open spec fn sp_block(toks: Seq<TokenV>, acc: Seq<StmtV>, cur: nat) -> SR
    decreases toks.len() - cur, 16nat,
{
    if cur >= toks.len() {
        SR::Failed(cur)
    } else if !sp_check(toks, cur, TokenType::RightBrace) && !at_end(toks, cur) {
        match sp_declaration(toks, cur) {
            SR::Parsed(s, c2) => sp_block(toks, acc.push(s), step_to(toks, c2, (cur + 1) as nat)),
            SR::Failed(c2) => SR::Failed(c2),
        }
    } else {
        if sp_check(toks, cur, TokenType::RightBrace) {
            SR::Parsed(StmtV::Block(acc), sp_advance(toks, cur))
        } else {
            SR::Failed(cur)
        }
    }
}

pub open spec fn sp_statement(toks: Seq<TokenV>, cur: nat) -> SR
    decreases toks.len() - cur, 14nat,
{
    if cur >= toks.len() {
        SR::Failed(cur)
    } else {
        let mp = sp_match(toks, cur, seq![TokenType::Print]);
        if mp.0 {
            sp_print_stmt(toks, mp.1)
        } else {
            let mb = sp_match(toks, cur, seq![TokenType::LeftBrace]);
            if mb.0 {
                sp_block(toks, Seq::empty(), mb.1)
            } else {
                sp_expr_stmt(toks, cur)
            }
        }
    }
}

pub open spec fn sp_declaration(toks: Seq<TokenV>, cur: nat) -> SR
    decreases toks.len() - cur, 15nat,
{
    if cur >= toks.len() {
        SR::Failed(cur)
    } else {
        let m = sp_match(toks, cur, seq![TokenType::Var]);
        if m.0 {
            sp_var_declaration(toks, m.1)
        } else {
            sp_statement(toks, cur)
        }
    }
}

pub open spec fn boundary_ty(ty: TokenType) -> bool {
    ty == TokenType::Class || ty == TokenType::Func || ty == TokenType::Var || ty
        == TokenType::For || ty == TokenType::If || ty == TokenType::While || ty
        == TokenType::Print || ty == TokenType::Return
}

/// Panic-mode recovery: skip tokens until just past a semicolon or just
/// before a token that starts a new statement.
pub open spec fn sp_sync_loop(toks: Seq<TokenV>, cur: nat) -> nat
    decreases toks.len() - cur,
{
    if cur >= toks.len() || at_end(toks, cur) {
        cur
    } else if cur >= 1 && toks[cur - 1].ty == TokenType::Semicolon {
        cur
    } else if boundary_ty(peek_ty(toks, cur)) {
        cur
    } else {
        sp_sync_loop(toks, (cur + 1) as nat)
    }
}

pub open spec fn sp_synchronize(toks: Seq<TokenV>, cur: nat) -> nat {
    sp_sync_loop(toks, sp_advance(toks, cur))
}

/// The whole program: declarations gathered until end of input, each failed
/// one discarded and skipped past by synchronization.
pub open spec fn sp_parse(toks: Seq<TokenV>, cur: nat) -> (Seq<StmtV>, nat)
    decreases toks.len() - cur, 17nat,
{
    if cur >= toks.len() || at_end(toks, cur) {
        (Seq::empty(), cur)
    } else {
        match sp_declaration(toks, cur) {
            SR::Parsed(s, c2) => {
                let r = sp_parse(toks, step_to(toks, c2, (cur + 1) as nat));
                (seq![s] + r.0, r.1)
            },
            SR::Failed(c2) => {
                let c3 = sp_synchronize(toks, step_to(toks, c2, cur));
                sp_parse(toks, step_to(toks, c3, (cur + 1) as nat))
            },
        }
    }
}

/// One successful step of the program loop: a parsed declaration
/// contributes exactly itself, and the rest of the program parses on from
/// its end.
proof fn lemma_parse_step_parsed(toks: Seq<TokenV>, cur: nat, c2: nat)
    requires
        cur < toks.len(),
        !at_end(toks, cur),
        (sp_declaration(toks, cur) matches SR::Parsed(_, cc) && cc == c2),
        cur < c2 <= toks.len(),
    ensures
        (sp_declaration(toks, cur) matches SR::Parsed(s, _) && sp_parse(toks, cur) == (
            seq![s] + sp_parse(toks, c2).0,
            sp_parse(toks, c2).1,
        )),
{
    assert(step_to(toks, c2, (cur + 1) as nat) == c2);
}

/// Law: panic-mode recovery loses only the malformed statement. Where a
/// declaration fails to parse at a statement start, the program parse
/// yields no statement for it: after synchronizing past it to the next
/// statement boundary, the whole parse returns exactly the parses of what
/// follows.
pub proof fn lemma_parse_recovers(toks: Seq<TokenV>, cur: nat, c2: nat, c3: nat)
    requires
        cur < toks.len(),
        !at_end(toks, cur),
        (sp_declaration(toks, cur) matches SR::Failed(cc) && cc == c2),
        cur <= c2 <= toks.len(),
        c3 == sp_synchronize(toks, c2),
        cur + 1 <= c3 <= toks.len(),
    ensures
        sp_parse(toks, cur) == sp_parse(toks, c3),
{
    assert(step_to(toks, c2, cur) == c2);
    assert(step_to(toks, c3, (cur + 1) as nat) == c3);
}

/// The recursive-descent parser: the token stream and a cursor.
pub struct Parser {
    pub tokens: Vec<Token>,
    current: usize,
}

impl Parser {
    pub closed spec fn toks(&self) -> Seq<TokenV> {
        tokens_view(self.tokens@)
    }

    pub closed spec fn cur(&self) -> nat {
        self.current as nat
    }

    /// The stream ends with end-of-input and the cursor is inside it.
    pub open spec fn wf(&self) -> bool {
        wf_toks(self.toks()) && self.cur() < self.toks().len()
    }

    pub fn new(tokens: Vec<Token>) -> (p: Parser)
        ensures
            p.toks() == tokens_view(tokens@),
            p.cur() == 0,
    {
        Self { tokens, current: 0 }
    }

    /// Whether every token up to (but not including) the end-of-input marker
    /// was consumed: false exactly when trailing tokens remain.
    pub fn all_parsed(&self) -> (r: bool)
        requires
            self.toks().len() >= 1,
        ensures
            r == (self.cur() == self.toks().len() - 1),
    {
        let n = self.tokens.len();
        self.current == n - 1
    }

    /// Parses the whole program, collecting as many statements as possible;
    /// a malformed statement is discarded and skipped past, so parsing never
    /// fails as a whole, and the cursor ends on an end-of-input token.
    #[verifier::rlimit(100)]
    pub fn parse(&mut self) -> (r: Result<Vec<Stmt>, ParseError>)
        requires
            old(self).wf(),
        ensures
            final(self).wf(),
            final(self).toks() == old(self).toks(),
            at_end(final(self).toks(), final(self).cur()),
            (r matches Ok(stmts) && {
                let m = sp_parse(old(self).toks(), old(self).cur());
                stmts_view(stmts@) == m.0 && final(self).cur() == m.1
            }),
    {
        let ghost toks0 = self.toks();
        let ghost cur0 = self.cur();
        let ghost m = sp_parse(toks0, cur0);
        let mut statements: Vec<Stmt> = Vec::new();
        proof {
            assert(stmts_view(statements@) =~= Seq::<StmtV>::empty());
            assert(stmts_view(statements@) + m.0 =~= m.0);
        }
        while !self.is_at_end()
            invariant
                toks0 == old(self).toks(),
                cur0 == old(self).cur(),
                self.wf(),
                self.toks() == toks0,
                m == sp_parse(toks0, cur0),
                ({
                    let rest = sp_parse(toks0, self.cur());
                    m.0 == stmts_view(statements@) + rest.0 && m.1 == rest.1
                }),
            decreases self.toks().len() - self.cur(),
        {
            let ghost pre_cur = self.cur();
            let ghost pre_seq = statements@;
            let ghost pre_stmts = stmts_view(statements@);
            let res = self.declaration();
            match res {
                Result::Ok(statement) => {
                    let ghost sv = statement@;
                    statements.push(statement);
                    proof {
                        crate::statement::lemma_stmts_view_push(pre_seq, statement);
                        lemma_parse_step_parsed(toks0, pre_cur, self.cur());
                        assert(pre_stmts.push(sv) + sp_parse(toks0, self.cur()).0 =~= pre_stmts + (
                        seq![sv] + sp_parse(toks0, self.cur()).0));
                    }
                },
                Result::Err(_) => {
                    let ghost c2 = self.cur();
                    proof {
                        assert(self.cur() >= 1 || !at_end(toks0, self.cur()));
                    }
                    self.synchronize();
                    proof {
                        assert(self.cur() >= pre_cur + 1);
                        lemma_parse_recovers(toks0, pre_cur, c2, self.cur());
                    }
                },
            }
        }
        proof {
            assert(sp_parse(toks0, self.cur()).0 =~= Seq::<StmtV>::empty());
            assert(stmts_view(statements@) + Seq::<StmtV>::empty() =~= stmts_view(statements@));
        }
        Result::Ok(statements)
    }

    // Make test easier
    pub fn parse_expression(&mut self) -> (r: Result<Expr, ParseError>)
        requires
            old(self).wf(),
        ensures
            final(self).wf(),
            final(self).toks() == old(self).toks(),
            final(self).cur() >= old(self).cur(),
            (match r {
                Result::Ok(e) => (sp_expression(old(self).toks(), old(self).cur())
                    matches PR::Parsed(ev, c2) && e@ == ev && final(self).cur() == c2),
                Result::Err(_) => (sp_expression(old(self).toks(), old(self).cur())
                    matches PR::Failed(c2) && final(self).cur() == c2),
            }),
    {
        self.expression()
    }
}

/// The ten decimal digit characters; values past nine never arise.
pub open spec fn digit_char(d: nat) -> char {
    if d == 0 {
        '0'
    } else if d == 1 {
        '1'
    } else if d == 2 {
        '2'
    } else if d == 3 {
        '3'
    } else if d == 4 {
        '4'
    } else if d == 5 {
        '5'
    } else if d == 6 {
        '6'
    } else if d == 7 {
        '7'
    } else if d == 8 {
        '8'
    } else {
        '9'
    }
}

/// The decimal text of a number, most significant digit first.
pub open spec fn dec_str(n: nat) -> Seq<char>
    decreases n,
{
    if n < 10 {
        seq![digit_char(n)]
    } else {
        dec_str(n / 10).push(digit_char(n % 10))
    }
}

fn digit_text(d: u64) -> (c: char)
    ensures
        c == digit_char(d as nat),
{
    if d == 0 {
        '0'
    } else if d == 1 {
        '1'
    } else if d == 2 {
        '2'
    } else if d == 3 {
        '3'
    } else if d == 4 {
        '4'
    } else if d == 5 {
        '5'
    } else if d == 6 {
        '6'
    } else if d == 7 {
        '7'
    } else if d == 8 {
        '8'
    } else {
        '9'
    }
}

/// Writes a number in decimal, for diagnostics.
fn u64_text(n: u64) -> (r: String)
    ensures
        r@ == dec_str(n as nat),
    decreases n,
{
    if n < 10 {
        crate::scanner::char_string(digit_text(n))
    } else {
        let mut s = u64_text(n / 10);
        let ghost pre = s@;
        let one = crate::scanner::char_string(digit_text(n % 10));
        s.append(one.as_str());
        proof {
            assert(s@ =~= pre.push(digit_char((n as nat) % 10)));
        }
        s
    }
}

/// The diagnostic a failed `consume` carries: the offending token's line and
/// text, and the kind that was expected there.
#[verifier::opaque]
pub open spec fn consume_error_text(toks: Seq<TokenV>, cur: nat, ty: TokenType) -> Seq<char>
    recommends
        cur < toks.len(),
{
    "[line "@ + dec_str(toks[cur as int].line) + "]Token type `"@ + ty.text_spec()
        + "` are expected, but got `"@ + toks[cur as int].lexeme + "`"@
}

/// A vector of one token kind, for the matching helper.
fn ops1(a: TokenType) -> (v: Vec<TokenType>)
    ensures
        v@ == seq![a],
{
    let mut v: Vec<TokenType> = Vec::new();
    v.push(a);
    proof {
        assert(v@ =~= seq![a]);
    }
    v
}

/// A vector of two token kinds, for the matching helper.
fn ops2(a: TokenType, b: TokenType) -> (v: Vec<TokenType>)
    ensures
        v@ == seq![a, b],
{
    let mut v: Vec<TokenType> = Vec::new();
    v.push(a);
    v.push(b);
    proof {
        assert(v@ =~= seq![a, b]);
    }
    v
}

/// A vector of four token kinds, for the matching helper.
fn ops4(a: TokenType, b: TokenType, c: TokenType, d: TokenType) -> (v: Vec<TokenType>)
    ensures
        v@ == seq![a, b, c, d],
{
    let mut v: Vec<TokenType> = Vec::new();
    v.push(a);
    v.push(b);
    v.push(c);
    v.push(d);
    proof {
        assert(v@ =~= seq![a, b, c, d]);
    }
    v
}

/// A vector of five token kinds, for the matching helper.
fn ops5(a: TokenType, b: TokenType, c: TokenType, d: TokenType, e: TokenType) -> (v: Vec<
    TokenType,
>)
    ensures
        v@ == seq![a, b, c, d, e],
{
    let mut v: Vec<TokenType> = Vec::new();
    v.push(a);
    v.push(b);
    v.push(c);
    v.push(d);
    v.push(e);
    proof {
        assert(v@ =~= seq![a, b, c, d, e]);
    }
    v
}

impl Parser {
    /// block          → "{" declaration* "}" ;
    #[verifier::rlimit(100)]
    fn block(&mut self) -> (r: Result<Stmt, ParseError>)
        requires
            old(self).wf(),
        ensures
            final(self).wf(),
            final(self).toks() == old(self).toks(),
            final(self).cur() >= old(self).cur(),
            (match r {
                Result::Ok(s) => (sp_block(old(self).toks(), Seq::empty(), old(self).cur())
                    matches SR::Parsed(sv, c2) && s@ == sv && final(self).cur() == c2 && final(self).cur() > old(self).cur()),
                Result::Err(_) => (sp_block(old(self).toks(), Seq::empty(), old(self).cur())
                    matches SR::Failed(c2) && final(self).cur() == c2),
            }),
        decreases self.toks().len() - self.cur(), 18nat,
    {
        let ghost toks0 = self.toks();
        let ghost cur0 = self.cur();
        let mut stmts: Vec<Stmt> = Vec::new();
        proof {
            assert(stmts_view(stmts@) =~= Seq::<StmtV>::empty());
        }
        // not } or end meaning still in the block
        loop
            invariant
                toks0 == old(self).toks(),
                cur0 == old(self).cur(),
                self.wf(),
                self.toks() == toks0,
                self.cur() >= cur0,
                sp_block(toks0, Seq::empty(), cur0) == sp_block(
                    toks0,
                    stmts_view(stmts@),
                    self.cur(),
                ),
            ensures
                self.wf(),
                self.toks() == toks0,
                self.cur() >= cur0,
                sp_block(toks0, Seq::empty(), cur0) == sp_block(
                    toks0,
                    stmts_view(stmts@),
                    self.cur(),
                ),
                sp_check(toks0, self.cur(), TokenType::RightBrace) || at_end(toks0, self.cur()),
            decreases self.toks().len() - self.cur(),
        {
            if self.check(TokenType::RightBrace) {
                break ;
            }
            if self.is_at_end() {
                break ;
            }
            let ghost pre_cur = self.cur();
            let ghost pre_seq = stmts@;
            let s = match self.declaration() {
                Result::Ok(s) => s,
                Result::Err(e) => {
                    return Result::Err(e);
                },
            };
            stmts.push(s);
            proof {
                crate::statement::lemma_stmts_view_push(pre_seq, s);
                assert(step_to(toks0, self.cur(), (pre_cur + 1) as nat) == self.cur());
            }
        }
        match self.consume(TokenType::RightBrace) {
            Result::Ok(_) => Result::Ok(Stmt::Block(Block::new(stmts))),
            Result::Err(e) => Result::Err(e),
        }
    }

    // declaration    → varDecl
    //                | statement ;
    fn declaration(&mut self) -> (r: Result<Stmt, ParseError>)
        requires
            old(self).wf(),
        ensures
            final(self).wf(),
            final(self).toks() == old(self).toks(),
            final(self).cur() >= old(self).cur(),
            (match r {
                Result::Ok(s) => (sp_declaration(old(self).toks(), old(self).cur())
                    matches SR::Parsed(sv, c2) && s@ == sv && final(self).cur() == c2 && final(self).cur() > old(self).cur()),
                Result::Err(_) => (sp_declaration(old(self).toks(), old(self).cur())
                    matches SR::Failed(c2) && final(self).cur() == c2),
            }),
        decreases self.toks().len() - self.cur(), 17nat,
    {
        let vt = ops1(TokenType::Var);
        if self.token_type_match(&vt) {
            self.var_declaration()
        } else {
            self.statement()
        }
    }

    // varDecl        → "var" IDENTIFIER ( "=" expression )? ";" ;
    fn var_declaration(&mut self) -> (r: Result<Stmt, ParseError>)
        requires
            old(self).wf(),
        ensures
            final(self).wf(),
            final(self).toks() == old(self).toks(),
            final(self).cur() >= old(self).cur(),
            (match r {
                Result::Ok(s) => (sp_var_declaration(old(self).toks(), old(self).cur())
                    matches SR::Parsed(sv, c2) && s@ == sv && final(self).cur() == c2 && final(self).cur() > old(self).cur()),
                Result::Err(_) => (sp_var_declaration(old(self).toks(), old(self).cur())
                    matches SR::Failed(c2) && final(self).cur() == c2),
            }),
        decreases self.toks().len() - self.cur(), 16nat,
    {
        let var_name = match self.consume(TokenType::Identifier) {
            Result::Ok(t) => t.lexeme,
            Result::Err(e) => {
                return Result::Err(e);
            },
        };
        let mut expr: Option<Expr> = Option::None;
        let et = ops1(TokenType::Equal);
        if self.token_type_match(&et) {
            let value = match self.expression() {
                Result::Ok(v) => v,
                Result::Err(e) => {
                    return Result::Err(e);
                },
            };
            expr = Option::Some(value);
        }
        match self.consume(TokenType::Semicolon) {
            Result::Ok(_) => Result::Ok(Stmt::Var(VarDecStmt::new(var_name, expr))),
            Result::Err(e) => Result::Err(e),
        }
    }

    /// statement      → exprStmt
    ///                | printStmt
    ///                | block ;
    fn statement(&mut self) -> (r: Result<Stmt, ParseError>)
        requires
            old(self).wf(),
        ensures
            final(self).wf(),
            final(self).toks() == old(self).toks(),
            final(self).cur() >= old(self).cur(),
            (match r {
                Result::Ok(s) => (sp_statement(old(self).toks(), old(self).cur())
                    matches SR::Parsed(sv, c2) && s@ == sv && final(self).cur() == c2 && final(self).cur() > old(self).cur()),
                Result::Err(_) => (sp_statement(old(self).toks(), old(self).cur())
                    matches SR::Failed(c2) && final(self).cur() == c2),
            }),
        decreases self.toks().len() - self.cur(), 16nat,
    {
        let pt = ops1(TokenType::Print);
        let bt = ops1(TokenType::LeftBrace);
        if self.token_type_match(&pt) {
            self.print_stmt()
        } else if self.token_type_match(&bt) {
            self.block()
        } else {
            self.expr_stmt()
        }
    }

    /// printStmt      → "print" expression ";" ;
    fn print_stmt(&mut self) -> (r: Result<Stmt, ParseError>)
        requires
            old(self).wf(),
        ensures
            final(self).wf(),
            final(self).toks() == old(self).toks(),
            final(self).cur() >= old(self).cur(),
            (match r {
                Result::Ok(s) => (sp_print_stmt(old(self).toks(), old(self).cur())
                    matches SR::Parsed(sv, c2) && s@ == sv && final(self).cur() == c2 && final(self).cur() > old(self).cur()),
                Result::Err(_) => (sp_print_stmt(old(self).toks(), old(self).cur())
                    matches SR::Failed(c2) && final(self).cur() == c2),
            }),
        decreases self.toks().len() - self.cur(), 15nat,
    {
        let stmt = match self.expression() {
            Result::Ok(expr) => Stmt::Print(PrintStmt::new(expr)),
            Result::Err(e) => {
                return Result::Err(e);
            },
        };
        match self.consume(TokenType::Semicolon) {
            Result::Ok(_) => Result::Ok(stmt),
            Result::Err(e) => Result::Err(e),
        }
    }

    /// exprStmt       → expression ";" ;
    fn expr_stmt(&mut self) -> (r: Result<Stmt, ParseError>)
        requires
            old(self).wf(),
        ensures
            final(self).wf(),
            final(self).toks() == old(self).toks(),
            final(self).cur() >= old(self).cur(),
            (match r {
                Result::Ok(s) => (sp_expr_stmt(old(self).toks(), old(self).cur())
                    matches SR::Parsed(sv, c2) && s@ == sv && final(self).cur() == c2 && final(self).cur() > old(self).cur()),
                Result::Err(_) => (sp_expr_stmt(old(self).toks(), old(self).cur())
                    matches SR::Failed(c2) && final(self).cur() == c2),
            }),
        decreases self.toks().len() - self.cur(), 15nat,
    {
        let stmt = match self.expression() {
            Result::Ok(expr) => Stmt::Expr(ExprStmt::new(expr)),
            Result::Err(e) => {
                return Result::Err(e);
            },
        };
        match self.consume(TokenType::Semicolon) {
            Result::Ok(_) => Result::Ok(stmt),
            Result::Err(e) => Result::Err(e),
        }
    }

    /// expression     → assignment ;
    fn expression(&mut self) -> (r: Result<Expr, ParseError>)
        requires
            old(self).wf(),
        ensures
            final(self).wf(),
            final(self).toks() == old(self).toks(),
            final(self).cur() >= old(self).cur(),
            (match r {
                Result::Ok(e) => (sp_expression(old(self).toks(), old(self).cur())
                    matches PR::Parsed(ev, c2) && e@ == ev && final(self).cur() == c2 && final(self).cur() > old(self).cur()),
                Result::Err(_) => (sp_expression(old(self).toks(), old(self).cur())
                    matches PR::Failed(c2) && final(self).cur() == c2),
            }),
        decreases self.toks().len() - self.cur(), 14nat,
    {
        self.assignment()
    }

    fn assignment(&mut self) -> (r: Result<Expr, ParseError>)
        requires
            old(self).wf(),
        ensures
            final(self).wf(),
            final(self).toks() == old(self).toks(),
            final(self).cur() >= old(self).cur(),
            (match r {
                Result::Ok(e) => (sp_assignment(old(self).toks(), old(self).cur())
                    matches PR::Parsed(ev, c2) && e@ == ev && final(self).cur() == c2 && final(self).cur() > old(self).cur()),
                Result::Err(_) => (sp_assignment(old(self).toks(), old(self).cur())
                    matches PR::Failed(c2) && final(self).cur() == c2),
            }),
        decreases self.toks().len() - self.cur(), 13nat,
    {
        let expr = match self.equality() {
            Result::Ok(e) => e,
            Result::Err(e) => {
                return Result::Err(e);
            },
        };
        // assignment statement
        let et = ops1(TokenType::Equal);
        if self.token_type_match(&et) {
            let value = match self.assignment() {
                Result::Ok(v) => v,
                Result::Err(e) => {
                    return Result::Err(e);
                },
            };
            if let Expr::Variable(var_expr) = expr {
                let token = var_expr.var;
                return Result::Ok(Expr::Assign(AssignExpr { lvar: token, value: Box::new(value) }));
            }
            return Result::Err(ParseError::new("Invalid assignment target.".to_owned()));
        }
        Result::Ok(expr)
    }

    /// equality       → comparison ( ( "!=" | "==" ) comparison )* ;
    fn equality(&mut self) -> (r: Result<Expr, ParseError>)
        requires
            old(self).wf(),
        ensures
            final(self).wf(),
            final(self).toks() == old(self).toks(),
            final(self).cur() >= old(self).cur(),
            (match r {
                Result::Ok(e) => (sp_equality(old(self).toks(), old(self).cur())
                    matches PR::Parsed(ev, c2) && e@ == ev && final(self).cur() == c2 && final(self).cur() > old(self).cur()),
                Result::Err(_) => (sp_equality(old(self).toks(), old(self).cur())
                    matches PR::Failed(c2) && final(self).cur() == c2),
            }),
        decreases self.toks().len() - self.cur(), 12nat,
    {
        let ghost toks0 = self.toks();
        let ghost cur0 = self.cur();
        let mut expr = match self.comparison() {
            Result::Ok(e) => e,
            Result::Err(e) => {
                return Result::Err(e);
            },
        };
        let op_types = ops2(TokenType::BangEqual, TokenType::EqualEqual);
        loop
            invariant
                toks0 == old(self).toks(),
                cur0 == old(self).cur(),
                self.wf(),
                self.toks() == toks0,
                self.cur() > cur0,
                op_types@ == seq![TokenType::BangEqual, TokenType::EqualEqual],
                sp_equality(toks0, cur0) == sp_binary_rest(
                    toks0,
                    expr@,
                    self.cur(),
                    op_types@,
                    8nat,
                ),
            ensures
                self.wf(),
                self.toks() == toks0,
                self.cur() > cur0,
                sp_equality(toks0, cur0) == PR::Parsed(expr@, self.cur()),
            decreases self.toks().len() - self.cur(),
        {
            if !self.token_type_match(&op_types) {
                break ;
            }
            let op = self.previous().dup();
            let right = match self.comparison() {
                Result::Ok(e) => e,
                Result::Err(e) => {
                    return Result::Err(e);
                },
            };
            expr = Expr::Binary(
                BinaryExpr { left: Box::new(expr), operator: op, right: Box::new(right) },
            );
        }
        Result::Ok(expr)
    }

    // comparison     → term ( ( ">" | ">=" | "<" | "<=" ) term )* ;
    fn comparison(&mut self) -> (r: Result<Expr, ParseError>)
        requires
            old(self).wf(),
        ensures
            final(self).wf(),
            final(self).toks() == old(self).toks(),
            final(self).cur() >= old(self).cur(),
            (match r {
                Result::Ok(e) => (sp_comparison(old(self).toks(), old(self).cur())
                    matches PR::Parsed(ev, c2) && e@ == ev && final(self).cur() == c2 && final(self).cur() > old(self).cur()),
                Result::Err(_) => (sp_comparison(old(self).toks(), old(self).cur())
                    matches PR::Failed(c2) && final(self).cur() == c2),
            }),
        decreases self.toks().len() - self.cur(), 10nat,
    {
        let ghost toks0 = self.toks();
        let ghost cur0 = self.cur();
        let mut expr = match self.term() {
            Result::Ok(e) => e,
            Result::Err(e) => {
                return Result::Err(e);
            },
        };
        let op_types = ops4(
            TokenType::Greater,
            TokenType::GreaterEqual,
            TokenType::Less,
            TokenType::LessEqual,
        );
        loop
            invariant
                toks0 == old(self).toks(),
                cur0 == old(self).cur(),
                self.wf(),
                self.toks() == toks0,
                self.cur() > cur0,
                op_types@ == seq![
                    TokenType::Greater,
                    TokenType::GreaterEqual,
                    TokenType::Less,
                    TokenType::LessEqual,
                ],
                sp_comparison(toks0, cur0) == sp_binary_rest(
                    toks0,
                    expr@,
                    self.cur(),
                    op_types@,
                    6nat,
                ),
            ensures
                self.wf(),
                self.toks() == toks0,
                self.cur() > cur0,
                sp_comparison(toks0, cur0) == PR::Parsed(expr@, self.cur()),
            decreases self.toks().len() - self.cur(),
        {
            if !self.token_type_match(&op_types) {
                break ;
            }
            let operator = self.previous().dup();
            let right = match self.term() {
                Result::Ok(e) => e,
                Result::Err(e) => {
                    return Result::Err(e);
                },
            };
            expr = Expr::Binary(BinaryExpr { left: Box::new(expr), operator, right: Box::new(right) });
        }
        Result::Ok(expr)
    }

    // term           → factor ( ( "-" | "+" ) factor )* ;
    fn term(&mut self) -> (r: Result<Expr, ParseError>)
        requires
            old(self).wf(),
        ensures
            final(self).wf(),
            final(self).toks() == old(self).toks(),
            final(self).cur() >= old(self).cur(),
            (match r {
                Result::Ok(e) => (sp_term(old(self).toks(), old(self).cur())
                    matches PR::Parsed(ev, c2) && e@ == ev && final(self).cur() == c2 && final(self).cur() > old(self).cur()),
                Result::Err(_) => (sp_term(old(self).toks(), old(self).cur())
                    matches PR::Failed(c2) && final(self).cur() == c2),
            }),
        decreases self.toks().len() - self.cur(), 8nat,
    {
        let ghost toks0 = self.toks();
        let ghost cur0 = self.cur();
        let mut expr = match self.factor() {
            Result::Ok(e) => e,
            Result::Err(e) => {
                return Result::Err(e);
            },
        };
        let op_types = ops2(TokenType::Minus, TokenType::Plus);
        loop
            invariant
                toks0 == old(self).toks(),
                cur0 == old(self).cur(),
                self.wf(),
                self.toks() == toks0,
                self.cur() > cur0,
                op_types@ == seq![TokenType::Minus, TokenType::Plus],
                sp_term(toks0, cur0) == sp_binary_rest(toks0, expr@, self.cur(), op_types@, 4nat),
            ensures
                self.wf(),
                self.toks() == toks0,
                self.cur() > cur0,
                sp_term(toks0, cur0) == PR::Parsed(expr@, self.cur()),
            decreases self.toks().len() - self.cur(),
        {
            if !self.token_type_match(&op_types) {
                break ;
            }
            let operator = self.previous().dup();
            let right = match self.factor() {
                Result::Ok(e) => e,
                Result::Err(e) => {
                    return Result::Err(e);
                },
            };
            expr = Expr::Binary(BinaryExpr { left: Box::new(expr), operator, right: Box::new(right) });
        }
        Result::Ok(expr)
    }

    // factor         → unary ( ( "/" | "*" ) unary )* ;
    fn factor(&mut self) -> (r: Result<Expr, ParseError>)
        requires
            old(self).wf(),
        ensures
            final(self).wf(),
            final(self).toks() == old(self).toks(),
            final(self).cur() >= old(self).cur(),
            (match r {
                Result::Ok(e) => (sp_factor(old(self).toks(), old(self).cur())
                    matches PR::Parsed(ev, c2) && e@ == ev && final(self).cur() == c2 && final(self).cur() > old(self).cur()),
                Result::Err(_) => (sp_factor(old(self).toks(), old(self).cur())
                    matches PR::Failed(c2) && final(self).cur() == c2),
            }),
        decreases self.toks().len() - self.cur(), 6nat,
    {
        let ghost toks0 = self.toks();
        let ghost cur0 = self.cur();
        let mut expr = match self.unary() {
            Result::Ok(e) => e,
            Result::Err(e) => {
                return Result::Err(e);
            },
        };
        let op_types = ops2(TokenType::Slash, TokenType::Star);
        loop
            invariant
                toks0 == old(self).toks(),
                cur0 == old(self).cur(),
                self.wf(),
                self.toks() == toks0,
                self.cur() > cur0,
                op_types@ == seq![TokenType::Slash, TokenType::Star],
                sp_factor(toks0, cur0) == sp_binary_rest(toks0, expr@, self.cur(), op_types@, 2nat),
            ensures
                self.wf(),
                self.toks() == toks0,
                self.cur() > cur0,
                sp_factor(toks0, cur0) == PR::Parsed(expr@, self.cur()),
            decreases self.toks().len() - self.cur(),
        {
            if !self.token_type_match(&op_types) {
                break ;
            }
            let operator = self.previous().dup();
            let right = match self.unary() {
                Result::Ok(e) => e,
                Result::Err(e) => {
                    return Result::Err(e);
                },
            };
            expr = Expr::Binary(BinaryExpr { left: Box::new(expr), operator, right: Box::new(right) });
        }
        Result::Ok(expr)
    }

    // unary          → ( "!" | "-" ) unary
    //                | primary ;
    fn unary(&mut self) -> (r: Result<Expr, ParseError>)
        requires
            old(self).wf(),
        ensures
            final(self).wf(),
            final(self).toks() == old(self).toks(),
            final(self).cur() >= old(self).cur(),
            (match r {
                Result::Ok(e) => (sp_unary(old(self).toks(), old(self).cur())
                    matches PR::Parsed(ev, c2) && e@ == ev && final(self).cur() == c2 && final(self).cur() > old(self).cur()),
                Result::Err(_) => (sp_unary(old(self).toks(), old(self).cur())
                    matches PR::Failed(c2) && final(self).cur() == c2),
            }),
        decreases self.toks().len() - self.cur(), 4nat,
    {
        let op_types = ops2(TokenType::Bang, TokenType::Minus);
        if self.token_type_match(&op_types) {
            let operator = self.previous().dup();
            let right = match self.unary() {
                Result::Ok(e) => e,
                Result::Err(e) => {
                    return Result::Err(e);
                },
            };
            Result::Ok(Expr::Unary(UnaryExpr { operator, expression: Box::new(right) }))
        } else {
            self.primary()
        }
    }

    // primary        → NUMBER | STRING | "true" | "false" | "nil"
    //                | "(" expression ")" ;
    //                | IDENTIFIER
    fn primary(&mut self) -> (r: Result<Expr, ParseError>)
        requires
            old(self).wf(),
        ensures
            final(self).wf(),
            final(self).toks() == old(self).toks(),
            final(self).cur() >= old(self).cur(),
            (match r {
                Result::Ok(e) => (sp_primary(old(self).toks(), old(self).cur())
                    matches PR::Parsed(ev, c2) && e@ == ev && final(self).cur() == c2 && final(self).cur() > old(self).cur()),
                Result::Err(_) => (sp_primary(old(self).toks(), old(self).cur())
                    matches PR::Failed(c2) && final(self).cur() == c2),
            }),
        decreases self.toks().len() - self.cur(), 2nat,
    {
        let lit_types = ops5(
            TokenType::False,
            TokenType::True,
            TokenType::Nil,
            TokenType::Number,
            TokenType::String,
        );
        let lp = ops1(TokenType::LeftParen);
        let id = ops1(TokenType::Identifier);
        if self.token_type_match(&lit_types) {
            Result::Ok(Expr::Literal(LiteralExpr { token: self.previous().dup() }))
        } else if self.token_type_match(&lp) {
            let expr = match self.expression() {
                Result::Ok(e) => e,
                Result::Err(e) => {
                    return Result::Err(e);
                },
            };
            match self.consume(TokenType::RightParen) {
                Result::Ok(_) => Result::Ok(
                    Expr::Grouping(GroupingExpr { expression: Box::new(expr) }),
                ),
                Result::Err(e) => Result::Err(e),
            }
        } else if self.token_type_match(&id) {
            Result::Ok(Expr::Variable(VariableExpr { var: self.previous().dup() }))
        } else {
            let mut msg = "Expected an expression, but got `".to_owned();
            msg.append(self.peek().lexeme.as_str());
            msg.append("`");
            proof {
                reveal(consume_error_text);
            }
            Result::Err(ParseError::new(msg))
        }
    }
}

impl Parser {
    /// returns the token before the cursor
    fn previous(&self) -> (r: &Token)
        requires
            self.cur() >= 1,
            self.cur() <= self.toks().len(),
        ensures
            r@ == self.toks()[self.cur() - 1],
    {
        &self.tokens[self.current - 1]
    }

    fn peek(&self) -> (r: &Token)
        requires
            self.cur() < self.toks().len(),
        ensures
            r@ == self.toks()[self.cur() as int],
    {
        &self.tokens[self.current]
    }

    fn advance(&mut self)
        requires
            old(self).wf(),
        ensures
            final(self).wf(),
            final(self).toks() == old(self).toks(),
            final(self).cur() == sp_advance(old(self).toks(), old(self).cur()),
    {
        let n = self.tokens.len();
        if !self.is_at_end() {
            if self.current < n {
                self.current = self.current + 1;
            }
        }
    }

    fn is_at_end(&self) -> (r: bool)
        requires
            self.cur() < self.toks().len(),
        ensures
            r == at_end(self.toks(), self.cur()),
    {
        self.peek().ty == TokenType::Eof
    }

    fn check(&self, token_type: TokenType) -> (r: bool)
        requires
            self.cur() < self.toks().len(),
        ensures
            r == sp_check(self.toks(), self.cur(), token_type),
    {
        if self.is_at_end() {
            false
        } else {
            self.peek().ty == token_type
        }
    }

    fn token_type_match(&mut self, types: &Vec<TokenType>) -> (r: bool)
        requires
            old(self).wf(),
        ensures
            final(self).wf(),
            final(self).toks() == old(self).toks(),
            ({
                let m = sp_match(old(self).toks(), old(self).cur(), types@);
                r == m.0 && final(self).cur() == m.1
            }),
    {
        let n = types.len();
        let mut i: usize = 0;
        while i < n
            invariant
                self.wf(),
                *self == *old(self),
                i <= n,
                n == types@.len(),
                forall|j: int| 0 <= j < i ==> !sp_check(self.toks(), self.cur(), types@[j]),
            decreases n - i,
        {
            let ty = types[i];
            if self.check(ty) {
                self.advance();
                proof {
                    assert(types@.contains(types@[i as int]));
                }
                return true;
            }
            i = i + 1;
        }
        proof {
            if !at_end(self.toks(), self.cur()) && types@.contains(peek_ty(self.toks(), self.cur())) {
                let j = choose|j: int|
                    0 <= j < types@.len() && types@[j] == peek_ty(self.toks(), self.cur());
                assert(sp_check(self.toks(), self.cur(), types@[j]));
            }
        }
        false
    }

    fn consume(&mut self, token_type: TokenType) -> (r: Result<Token, ParseError>)
        requires
            old(self).wf(),
        ensures
            final(self).wf(),
            final(self).toks() == old(self).toks(),
            (if sp_check(old(self).toks(), old(self).cur(), token_type) {
                r matches Ok(t) && t@ == old(self).toks()[old(self).cur() as int] && final(self).cur() == old(self).cur() + 1
            } else {
                (r matches Err(e) && e.message_spec() == consume_error_text(
                    old(self).toks(),
                    old(self).cur(),
                    token_type,
                ) && final(self).cur() == old(self).cur())
            }),
    {
        if self.check(token_type) {
            let t = self.peek().dup();
            self.advance();
            Result::Ok(t)
        } else {
            let mut msg = "[line ".to_owned();
            let line_text = u64_text(self.peek().line as u64);
            msg.append(line_text.as_str());
            msg.append("]Token type `");
            let ty_text = token_type.text();
            msg.append(ty_text.as_str());
            msg.append("` are expected, but got `");
            msg.append(self.peek().lexeme.as_str());
            msg.append("`");
            proof {
                reveal(consume_error_text);
            }
            Result::Err(ParseError::new(msg))
        }
    }
}

impl Parser {
    /// Panic-mode recovery: discard tokens until a statement boundary, so
    /// that parsing can resume after a malformed statement.
    fn synchronize(&mut self)
        requires
            old(self).wf(),
            old(self).cur() >= 1 || !at_end(old(self).toks(), old(self).cur()),
        ensures
            final(self).wf(),
            final(self).toks() == old(self).toks(),
            final(self).cur() == sp_synchronize(old(self).toks(), old(self).cur()),
            final(self).cur() >= old(self).cur(),
            !at_end(old(self).toks(), old(self).cur()) ==> final(self).cur() > old(self).cur(),
    {
        let ghost toks0 = self.toks();
        let ghost cur0 = self.cur();
        self.advance();
        while !self.is_at_end()
            invariant
                toks0 == old(self).toks(),
                cur0 == old(self).cur(),
                self.wf(),
                self.toks() == toks0,
                self.cur() >= 1,
                self.cur() >= sp_advance(toks0, cur0),
                sp_synchronize(toks0, cur0) == sp_sync_loop(toks0, self.cur()),
            ensures
                self.wf(),
                self.toks() == toks0,
                self.cur() >= sp_advance(toks0, cur0),
                self.cur() == sp_synchronize(toks0, cur0),
            decreases self.toks().len() - self.cur(),
        {
            if self.previous().ty == TokenType::Semicolon {
                return ;
            }
            // reach a new statement
            let ty = self.peek().ty;
            if ty == TokenType::Class || ty == TokenType::Func || ty == TokenType::Var || ty
                == TokenType::For || ty == TokenType::If || ty == TokenType::While || ty
                == TokenType::Print || ty == TokenType::Return {
                return ;
            }
            self.advance();
        }
    }
}

} // verus!
