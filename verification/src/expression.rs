//! Expression trees produced by the parser and consumed by the interpreter,
//! together with their mathematical image and their debug-printable text.

use vstd::prelude::*;
use vstd::string::*;
use crate::numbers::{num_display, num_parse, num_text_spec, parsed_bits_of};
use crate::token::{Token, TokenType, TokenV};

verus! {

/// An expression node. All children are owned; the tree has no sharing.
pub enum Expr {
    Binary(BinaryExpr),
    Unary(UnaryExpr),
    Grouping(GroupingExpr),
    Literal(LiteralExpr),
    Variable(VariableExpr),
    Assign(AssignExpr),
}

pub struct AssignExpr {
    /// left value token
    pub lvar: Token,
    /// right value expression
    pub value: Box<Expr>,
}

pub struct VariableExpr {
    pub var: Token,
}

pub struct BinaryExpr {
    pub left: Box<Expr>,
    pub operator: Token,
    pub right: Box<Expr>,
}

pub struct UnaryExpr {
    pub operator: Token,
    pub expression: Box<Expr>,
}

pub struct GroupingExpr {
    pub expression: Box<Expr>,
}

pub struct LiteralExpr {
    pub token: Token,
}

/// The mathematical image of an expression tree.
pub enum ExprV {
    Binary(Box<ExprV>, TokenV, Box<ExprV>),
    Unary(TokenV, Box<ExprV>),
    Grouping(Box<ExprV>),
    Literal(TokenV),
    Variable(TokenV),
    Assign(TokenV, Box<ExprV>),
}

pub open spec fn expr_view(e: Expr) -> ExprV
    decreases e,
{
    match e {
        Expr::Binary(b) => ExprV::Binary(
            Box::new(expr_view(*b.left)),
            b.operator@,
            Box::new(expr_view(*b.right)),
        ),
        Expr::Unary(u) => ExprV::Unary(u.operator@, Box::new(expr_view(*u.expression))),
        Expr::Grouping(g) => ExprV::Grouping(Box::new(expr_view(*g.expression))),
        Expr::Literal(l) => ExprV::Literal(l.token@),
        Expr::Variable(v) => ExprV::Variable(v.var@),
        Expr::Assign(a) => ExprV::Assign(a.lvar@, Box::new(expr_view(*a.value))),
    }
}

impl View for Expr {
    type V = ExprV;

    open spec fn view(&self) -> ExprV {
        expr_view(*self)
    }
}

/// The debug-printable text of an expression: prefix form for operators,
/// lexemes for leaves.
pub open spec fn expr_text_spec(e: ExprV) -> Seq<char>
    decreases e,
{
    match e {
        ExprV::Binary(l, op, r) => "("@ + op.lexeme + " "@ + expr_text_spec(*l) + " "@
            + expr_text_spec(*r) + ")"@,
        ExprV::Unary(op, x) => "("@ + op.lexeme + " "@ + expr_text_spec(*x) + ")"@,
        ExprV::Grouping(x) => "(grouping "@ + expr_text_spec(*x) + ")"@,
        ExprV::Literal(t) => t.lexeme,
        ExprV::Variable(t) => t.lexeme,
        ExprV::Assign(t, x) => t.lexeme + " = "@ + expr_text_spec(*x),
    }
}

impl Expr {
    pub fn to_string(&self) -> (r: String)
        ensures
            r@ == expr_text_spec(self@),
        decreases *self,
    {
        match self {
            Expr::Binary(binary) => binary.to_string(),
            Expr::Unary(unary) => unary.to_string(),
            Expr::Grouping(grouping) => grouping.to_string(),
            Expr::Literal(literal) => literal.to_string(),
            Expr::Variable(var) => var.to_string(),
            Expr::Assign(assign) => assign.to_string(),
        }
    }
}

impl UnaryExpr {
    pub fn to_string(&self) -> (r: String)
        ensures
            r@ == expr_text_spec(ExprV::Unary(self.operator@, Box::new((*self.expression)@))),
        decreases *self,
    {
        let mut s = String::new();
        s.append("(");
        s.append(self.operator.lexeme.as_str());
        s.append(" ");
        let inner = self.expression.to_string();
        s.append(inner.as_str());
        s.append(")");
        s
    }
}

impl BinaryExpr {
    pub fn to_string(&self) -> (r: String)
        ensures
            r@ == expr_text_spec(
                ExprV::Binary(Box::new((*self.left)@), self.operator@, Box::new((*self.right)@)),
            ),
        decreases *self,
    {
        let mut s = String::new();
        s.append("(");
        s.append(self.operator.lexeme.as_str());
        s.append(" ");
        let left = self.left.to_string();
        s.append(left.as_str());
        s.append(" ");
        let right = self.right.to_string();
        s.append(right.as_str());
        s.append(")");
        s
    }
}

impl GroupingExpr {
    pub fn to_string(&self) -> (r: String)
        ensures
            r@ == expr_text_spec(ExprV::Grouping(Box::new((*self.expression)@))),
        decreases *self,
    {
        let mut s = String::new();
        s.append("(grouping ");
        let inner = self.expression.to_string();
        s.append(inner.as_str());
        s.append(")");
        s
    }
}

impl LiteralExpr {
    pub fn to_string(&self) -> (r: String)
        ensures
            r@ == expr_text_spec(ExprV::Literal(self.token@)),
    {
        self.token.lexeme.clone()
    }
}

impl VariableExpr {
    pub fn to_string(&self) -> (r: String)
        ensures
            r@ == expr_text_spec(ExprV::Variable(self.var@)),
    {
        self.var.lexeme.clone()
    }
}

impl AssignExpr {
    pub fn to_string(&self) -> (r: String)
        ensures
            r@ == expr_text_spec(ExprV::Assign(self.lvar@, Box::new((*self.value)@))),
        decreases *self,
    {
        let mut s = String::new();
        s.append(self.lvar.lexeme.as_str());
        s.append(" = ");
        let inner = self.value.to_string();
        s.append(inner.as_str());
        s
    }
}

/// The literal value carried by a literal token, if its kind carries one:
/// the lexeme itself for a string, the correctly rounded double read from
/// the lexeme for a number, and the fixed values of `true`, `false`, `nil`.
pub open spec fn literal_value_spec(t: TokenV) -> Option<ValueV> {
    match t.ty {
        TokenType::String => Option::Some(ValueV::Str(t.lexeme)),
        TokenType::Number => match parsed_bits_of(t.lexeme) {
            Option::Some(b) => Option::Some(ValueV::Num(b)),
            Option::None => Option::None,
        },
        TokenType::True => Option::Some(ValueV::Bool(true)),
        TokenType::False => Option::Some(ValueV::Bool(false)),
        TokenType::Nil => Option::Some(ValueV::Nil),
        _ => Option::None,
    }
}

/// extract the value from a literal expression
impl LiteralExpr {
    pub fn get_literal_value(&self) -> (r: Option<LiteralValue>)
        ensures
            (match literal_value_spec(self.token@) {
                Option::Some(v) => r matches Option::Some(rv) && rv@ == v,
                Option::None => r is None,
            }),
    {
        match self.token.ty {
            TokenType::String => Option::Some(LiteralValue::Str(self.token.lexeme.clone())),
            TokenType::Number => {
                match num_parse(self.token.lexeme.as_str()) {
                    Option::Some(bits) => Option::Some(LiteralValue::Num(bits)),
                    Option::None => Option::None,
                }
            },
            TokenType::True => Option::Some(LiteralValue::Bool(true)),
            TokenType::False => Option::Some(LiteralValue::Bool(false)),
            TokenType::Nil => Option::Some(LiteralValue::Nil),
            _ => Option::None,
        }
    }
}

/// A value produced during evaluation. A number is carried as the raw bits
/// of an IEEE-754 double.
#[derive(Debug, PartialEq, Clone)]
pub enum LiteralValue {
    Num(u64),
    Str(String),
    Bool(bool),
    Nil,
}

/// The mathematical image of a runtime value.
pub enum ValueV {
    Num(u64),
    Str(Seq<char>),
    Bool(bool),
    Nil,
}

impl View for LiteralValue {
    type V = ValueV;

    open spec fn view(&self) -> ValueV {
        match self {
            LiteralValue::Num(b) => ValueV::Num(*b),
            LiteralValue::Str(s) => ValueV::Str(s@),
            LiteralValue::Bool(b) => ValueV::Bool(*b),
            LiteralValue::Nil => ValueV::Nil,
        }
    }
}

/// The display form of a runtime value, as the print statement writes it.
pub open spec fn value_text_spec(v: ValueV) -> Seq<char> {
    match v {
        ValueV::Num(b) => num_text_spec(b),
        ValueV::Str(s) => s,
        ValueV::Bool(b) => if b {
            "true"@
        } else {
            "false"@
        },
        ValueV::Nil => "nil"@,
    }
}

impl LiteralValue {
    /// An explicit copy whose view is known to equal the receiver's.
    pub fn dup(&self) -> (r: LiteralValue)
        ensures
            r@ == self@,
    {
        match self {
            LiteralValue::Num(b) => LiteralValue::Num(*b),
            LiteralValue::Str(s) => LiteralValue::Str(s.clone()),
            LiteralValue::Bool(b) => LiteralValue::Bool(*b),
            LiteralValue::Nil => LiteralValue::Nil,
        }
    }

    /// The display form of this value.
    pub fn display_text(&self) -> (r: String)
        ensures
            r@ == value_text_spec(self@),
    {
        match self {
            LiteralValue::Num(b) => num_display(*b),
            LiteralValue::Str(s) => s.clone(),
            LiteralValue::Bool(b) => if *b {
                "true".to_owned()
            } else {
                "false".to_owned()
            },
            LiteralValue::Nil => "nil".to_owned(),
        }
    }
}

/// A value as an evaluation step classifies it: a produced literal value, or
/// a variable reference still to be resolved.
pub enum Value {
    Literal(LiteralValue),
    Variable(),
}

} // verus!
