//! Statement trees: variable declarations, print statements, bare expression
//! statements, and blocks, together with their mathematical image.

use vstd::prelude::*;
use crate::expression::{Expr, ExprV, expr_view};

verus! {

broadcast use vstd::std_specs::vec::axiom_vec_index_decreases, vstd::std_specs::vec::axiom_vec_decreases_to_view;

/// A statement node. A program is an ordered sequence of statements.
pub enum Stmt {
    Var(VarDecStmt),
    Print(PrintStmt),
    Expr(ExprStmt),
    Block(Block),
}

/// A brace-delimited sequence of statements executed in their own scope.
pub struct Block {
    pub stmts: Vec<Stmt>,
}

/// `var` name (`=` initializer)? `;`
pub struct VarDecStmt {
    pub var_name: String,
    pub initializer: Option<Expr>,
}

/// `print` expression `;`
pub struct PrintStmt {
    pub expr: Expr,
}

/// expression `;`
pub struct ExprStmt {
    pub expr: Expr,
}

/// The mathematical image of a statement tree.
pub enum StmtV {
    Var(Seq<char>, Option<ExprV>),
    Print(ExprV),
    Expr(ExprV),
    Block(Seq<StmtV>),
}

pub open spec fn stmt_view(s: Stmt) -> StmtV
    decreases s,
{
    match s {
        Stmt::Var(v) => StmtV::Var(
            v.var_name@,
            match v.initializer {
                Option::Some(e) => Option::Some(expr_view(e)),
                Option::None => Option::None,
            },
        ),
        Stmt::Print(p) => StmtV::Print(expr_view(p.expr)),
        Stmt::Expr(x) => StmtV::Expr(expr_view(x.expr)),
        Stmt::Block(b) => StmtV::Block(stmts_view(b.stmts@)),
    }
}

/// The image of a statement sequence, element by element.
pub open spec fn stmts_view(ss: Seq<Stmt>) -> Seq<StmtV>
    decreases ss,
{
    if ss.len() == 0 {
        Seq::empty()
    } else {
        stmts_view(ss.drop_last()).push(stmt_view(ss.last()))
    }
}

impl View for Stmt {
    type V = StmtV;

    open spec fn view(&self) -> StmtV {
        stmt_view(*self)
    }
}

pub proof fn lemma_stmts_view_push(ss: Seq<Stmt>, x: Stmt)
    ensures
        stmts_view(ss.push(x)) == stmts_view(ss).push(stmt_view(x)),
{
    assert(ss.push(x).drop_last() =~= ss);
    assert(ss.push(x).last() == x);
}

pub broadcast proof fn lemma_stmts_view_len(ss: Seq<Stmt>)
    ensures
        (#[trigger] stmts_view(ss)).len() == ss.len(),
    decreases ss.len(),
{
    if ss.len() > 0 {
        lemma_stmts_view_len(ss.drop_last());
    }
}

pub broadcast proof fn lemma_stmts_view_index(ss: Seq<Stmt>, i: int)
    requires
        0 <= i < ss.len(),
    ensures
        stmts_view(ss).len() == ss.len(),
        #[trigger] stmts_view(ss)[i] == stmt_view(ss[i]),
    decreases ss.len(),
{
    lemma_stmts_view_len(ss);
    if i < ss.len() - 1 {
        lemma_stmts_view_index(ss.drop_last(), i);
    }
}

impl Block {
    pub fn new(stmts: Vec<Stmt>) -> (b: Block)
        ensures
            b.stmts@ == stmts@,
    {
        Block { stmts }
    }
}

impl VarDecStmt {
    pub fn new(var_name: String, initializer: Option<Expr>) -> (s: VarDecStmt)
        ensures
            s.var_name@ == var_name@,
            s.initializer == initializer,
    {
        VarDecStmt { var_name, initializer }
    }
}

impl PrintStmt {
    pub fn new(expr: Expr) -> (s: PrintStmt)
        ensures
            s.expr == expr,
    {
        PrintStmt { expr }
    }
}

impl ExprStmt {
    pub fn new(expr: Expr) -> (s: ExprStmt)
        ensures
            s.expr == expr,
    {
        ExprStmt { expr }
    }
}

} // verus!
