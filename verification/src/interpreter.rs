//! The tree-walking interpreter. Its behaviour is specified by a recursive
//! evaluation model over expression and statement images: every exec path is
//! proved to produce exactly the value, environment and output of the model.

use vstd::prelude::*;
use vstd::string::*;
use crate::environment::{EnvV, Environment, env_assign_spec, env_define_spec, env_lookup};
use crate::error::RuntimeError;
use crate::expression::{
    BinaryExpr, Expr, ExprV, LiteralValue, UnaryExpr, ValueV, literal_value_spec, value_text_spec,
};
use crate::numbers::{
    add_bits_of, div_bits_of, is_zero_bits, mul_bits_of, neg_bits, num_add, num_div, num_eq,
    num_eq_bits, num_is_zero, num_le, num_le_bits, num_lt, num_lt_bits, num_mul, num_neg, num_sub,
    sub_bits_of,
};
use crate::statement::{Stmt, StmtV, stmt_view, stmts_view};
use crate::token::{TokenType, TokenV};

verus! {

broadcast use vstd::std_specs::vec::axiom_vec_index_decreases, crate::statement::lemma_stmts_view_index;

/// The truthiness rule, used by `!`: zero and the empty string are false,
/// a boolean is itself, everything else (nil included) is true.
pub open spec fn truthy_spec(v: ValueV) -> bool {
    match v {
        ValueV::Num(b) => !is_zero_bits(b),
        ValueV::Str(s) => s.len() != 0,
        ValueV::Bool(b) => b,
        ValueV::Nil => true,
    }
}

/// What a binary operator yields on two number operands; `None` is the
/// unsupported-combination error.
pub open spec fn binary_num_spec(op: TokenType, a: u64, b: u64) -> Option<ValueV> {
    match op {
        TokenType::Plus => Option::Some(ValueV::Num(add_bits_of(a, b))),
        TokenType::Minus => Option::Some(ValueV::Num(sub_bits_of(a, b))),
        TokenType::Slash => Option::Some(ValueV::Num(div_bits_of(a, b))),
        TokenType::Star => Option::Some(ValueV::Num(mul_bits_of(a, b))),
        TokenType::EqualEqual => Option::Some(ValueV::Bool(num_eq_bits(a, b))),
        TokenType::BangEqual => Option::Some(ValueV::Bool(!num_eq_bits(a, b))),
        TokenType::Greater => Option::Some(ValueV::Bool(num_lt_bits(b, a))),
        TokenType::GreaterEqual => Option::Some(ValueV::Bool(num_le_bits(b, a))),
        TokenType::Less => Option::Some(ValueV::Bool(num_lt_bits(a, b))),
        TokenType::LessEqual => Option::Some(ValueV::Bool(num_le_bits(a, b))),
        _ => Option::None,
    }
}

/// What a binary operator yields on two evaluated operands. Division whose
/// right operand is the number zero is an error before any other dispatch,
/// whatever the left operand is; numbers combine under arithmetic and
/// comparison; `+` concatenates two strings; everything else is an error.
pub open spec fn binary_result_spec(op: TokenType, lv: ValueV, rv: ValueV) -> Option<ValueV> {
    if op == TokenType::Slash && (rv matches ValueV::Num(z) && is_zero_bits(z)) {
        Option::None
    } else {
        match (lv, rv) {
            (ValueV::Num(a), ValueV::Num(b)) => binary_num_spec(op, a, b),
            (ValueV::Str(x), ValueV::Str(y)) => if op == TokenType::Plus {
                Option::Some(ValueV::Str(x + y))
            } else {
                Option::None
            },
            _ => Option::None,
        }
    }
}

/// The outcome of evaluating one expression: a value and the environment
/// after, or a runtime failure and the environment at the failure.
pub enum EvalR {
    Val(ValueV, EnvV),
    Fail(EnvV),
}

/// The evaluation model: literals carry their token's value, groupings are
/// transparent, variables resolve innermost-first, assignment evaluates its
/// right side and then rebinds an already defined name, unary and binary
/// operators evaluate their operands left to right and then dispatch.
pub open spec fn eval_expr(e: ExprV, env: EnvV) -> EvalR
    decreases e,
{
    match e {
        ExprV::Literal(t) => match literal_value_spec(t) {
            Option::Some(v) => EvalR::Val(v, env),
            Option::None => EvalR::Fail(env),
        },
        ExprV::Grouping(x) => eval_expr(*x, env),
        ExprV::Variable(t) => match env_lookup(env, t.lexeme) {
            Option::Some(v) => EvalR::Val(v, env),
            Option::None => EvalR::Fail(env),
        },
        ExprV::Assign(t, x) => match eval_expr(*x, env) {
            EvalR::Val(v, env1) => match env_assign_spec(env1, t.lexeme, v) {
                Option::Some(env2) => EvalR::Val(v, env2),
                Option::None => EvalR::Fail(env1),
            },
            EvalR::Fail(env1) => EvalR::Fail(env1),
        },
        ExprV::Unary(op, x) => match eval_expr(*x, env) {
            EvalR::Val(v, env1) => match op.ty {
                TokenType::Minus => match v {
                    ValueV::Num(b) => EvalR::Val(ValueV::Num(neg_bits(b)), env1),
                    _ => EvalR::Fail(env1),
                },
                TokenType::Bang => EvalR::Val(ValueV::Bool(!truthy_spec(v)), env1),
                _ => EvalR::Fail(env1),
            },
            EvalR::Fail(env1) => EvalR::Fail(env1),
        },
        ExprV::Binary(l, op, r) => match eval_expr(*l, env) {
            EvalR::Val(lv, env1) => match eval_expr(*r, env1) {
                EvalR::Val(rv, env2) => match binary_result_spec(op.ty, lv, rv) {
                    Option::Some(v) => EvalR::Val(v, env2),
                    Option::None => EvalR::Fail(env2),
                },
                EvalR::Fail(env2) => EvalR::Fail(env2),
            },
            EvalR::Fail(env1) => EvalR::Fail(env1),
        },
    }
}

/// Law: division whose right operand evaluates to the number zero always
/// fails with a runtime error, regardless of the left operand's value or
/// type-compatibility.
pub proof fn lemma_division_by_zero(l: Box<ExprV>, op: TokenV, r: Box<ExprV>, env: EnvV)
    requires
        op.ty == TokenType::Slash,
        (match eval_expr(*l, env) {
            EvalR::Val(_, env1) => (match eval_expr(*r, env1) {
                EvalR::Val(rv, _) => rv matches ValueV::Num(z) && is_zero_bits(z),
                EvalR::Fail(_) => false,
            }),
            EvalR::Fail(_) => false,
        }),
    ensures
        eval_expr(ExprV::Binary(l, op, r), env) matches EvalR::Fail(_),
{
}

/// Law: `+` concatenates exactly two strings; a string beside any
/// non-string operand is an error.
pub proof fn lemma_string_concatenation(x: Seq<char>, y: Seq<char>, lv: ValueV, rv: ValueV)
    ensures
        binary_result_spec(TokenType::Plus, ValueV::Str(x), ValueV::Str(y)) == Option::Some(
            ValueV::Str(x + y),
        ),
        ((lv is Str && !(rv is Str)) || (!(lv is Str) && rv is Str)) ==> binary_result_spec(
            TokenType::Plus,
            lv,
            rv,
        ) is None,
{
}

/// The outcome of executing statements: the environment and the whole output
/// written so far, with or without a runtime failure.
pub enum ExecR {
    Done(EnvV, Seq<char>),
    Fail(EnvV, Seq<char>),
}

/// The execution model. A block pushes a fresh scope and pops it again on
/// every exit path, the failing one included; a failure aborts the remaining
/// statements but keeps the output and bindings already committed.
pub open spec fn exec_stmt(s: StmtV, env: EnvV, out: Seq<char>) -> ExecR
    decreases s,
{
    match s {
        StmtV::Expr(e) => match eval_expr(e, env) {
            EvalR::Val(_, env1) => ExecR::Done(env1, out),
            EvalR::Fail(env1) => ExecR::Fail(env1, out),
        },
        StmtV::Print(e) => match eval_expr(e, env) {
            EvalR::Val(v, env1) => ExecR::Done(env1, out + value_text_spec(v) + "\n"@),
            EvalR::Fail(env1) => ExecR::Fail(env1, out),
        },
        StmtV::Var(name, init) => match init {
            Option::Some(e) => match eval_expr(e, env) {
                EvalR::Val(v, env1) => ExecR::Done(env_define_spec(env1, name, v), out),
                EvalR::Fail(env1) => ExecR::Fail(env1, out),
            },
            Option::None => ExecR::Done(env_define_spec(env, name, ValueV::Nil), out),
        },
        StmtV::Block(ss) => match exec_seq(ss, env.push(Map::empty()), out) {
            ExecR::Done(env1, out1) => ExecR::Done(env1.drop_last(), out1),
            ExecR::Fail(env1, out1) => ExecR::Fail(env1.drop_last(), out1),
        },
    }
}

/// Executes statements in order; the first failure aborts the rest.
pub open spec fn exec_seq(ss: Seq<StmtV>, env: EnvV, out: Seq<char>) -> ExecR
    decreases ss,
{
    if ss.len() == 0 {
        ExecR::Done(env, out)
    } else {
        match exec_stmt(ss[0], env, out) {
            ExecR::Done(env1, out1) => exec_seq(ss.drop_first(), env1, out1),
            ExecR::Fail(env1, out1) => ExecR::Fail(env1, out1),
        }
    }
}

/// Evaluation never changes how many scopes are on the stack.
pub proof fn lemma_eval_env_len(e: ExprV, env: EnvV)
    ensures
        (match eval_expr(e, env) {
            EvalR::Val(_, e2) => e2.len() == env.len(),
            EvalR::Fail(e2) => e2.len() == env.len(),
        }),
    decreases e,
{
    match e {
        ExprV::Literal(_) => {},
        ExprV::Variable(_) => {},
        ExprV::Grouping(x) => {
            lemma_eval_env_len(*x, env);
        },
        ExprV::Assign(t, x) => {
            lemma_eval_env_len(*x, env);
            match eval_expr(*x, env) {
                EvalR::Val(v, env1) => {
                    crate::environment::lemma_env_assign_len(env1, env1.len() as int, t.lexeme, v);
                },
                EvalR::Fail(_) => {},
            }
        },
        ExprV::Unary(_, x) => {
            lemma_eval_env_len(*x, env);
        },
        ExprV::Binary(l, _, r) => {
            lemma_eval_env_len(*l, env);
            match eval_expr(*l, env) {
                EvalR::Val(_, env1) => {
                    lemma_eval_env_len(*r, env1);
                },
                EvalR::Fail(_) => {},
            }
        },
    }
}

/// Statement execution never changes how many scopes are on the stack: a
/// block's pushed scope is popped again on every exit path. This is the
/// shadowing guarantee: an inner declaration lives only inside its block.
pub proof fn lemma_exec_stmt_len(s: StmtV, env: EnvV, out: Seq<char>)
    requires
        env.len() >= 1,
    ensures
        (match exec_stmt(s, env, out) {
            ExecR::Done(e2, _) => e2.len() == env.len(),
            ExecR::Fail(e2, _) => e2.len() == env.len(),
        }),
    decreases s,
{
    match s {
        StmtV::Expr(e) => {
            lemma_eval_env_len(e, env);
        },
        StmtV::Print(e) => {
            lemma_eval_env_len(e, env);
        },
        StmtV::Var(_, init) => {
            match init {
                Option::Some(e) => {
                    lemma_eval_env_len(e, env);
                },
                Option::None => {},
            }
        },
        StmtV::Block(ss) => {
            lemma_exec_seq_len(ss, env.push(Map::empty()), out);
        },
    }
}

pub proof fn lemma_exec_seq_len(ss: Seq<StmtV>, env: EnvV, out: Seq<char>)
    requires
        env.len() >= 1,
    ensures
        (match exec_seq(ss, env, out) {
            ExecR::Done(e2, _) => e2.len() == env.len(),
            ExecR::Fail(e2, _) => e2.len() == env.len(),
        }),
    decreases ss,
{
    if ss.len() > 0 {
        lemma_exec_stmt_len(ss[0], env, out);
        match exec_stmt(ss[0], env, out) {
            ExecR::Done(env1, out1) => {
                lemma_exec_seq_len(ss.drop_first(), env1, out1);
            },
            ExecR::Fail(_, _) => {},
        }
    }
}

/// The interpreter: the owned scope stack and the output collected so far.
/// The caller reads or takes the output; nothing is written elsewhere.
pub struct Interpreter {
    environment: Environment,
    output: String,
}

impl Interpreter {
    /// The scope stack always holds at least the global scope.
    pub closed spec fn wf(&self) -> bool {
        self.environment@.len() >= 1
    }

    pub closed spec fn env(&self) -> EnvV {
        self.environment@
    }

    pub closed spec fn out(&self) -> Seq<char> {
        self.output@
    }

    pub fn new() -> (r: Interpreter)
        ensures
            r.wf(),
            r.env().len() == 1,
            r.env()[0] == Map::<Seq<char>, ValueV>::empty(),
            r.out() == Seq::<char>::empty(),
    {
        Interpreter { environment: Environment::new(), output: String::new() }
    }

    /// The output written so far.
    pub fn output(&self) -> (r: &String)
        ensures
            r@ == self.out(),
    {
        &self.output
    }

    /// Hands the output written so far to the caller and starts afresh.
    pub fn take_output(&mut self) -> (r: String)
        ensures
            r@ == old(self).out(),
            final(self).out() == Seq::<char>::empty(),
            final(self).env() == old(self).env(),
            final(self).wf() == old(self).wf(),
    {
        let r = self.output.clone();
        self.output = String::new();
        r
    }

    /// Interpret a program (contains multiple statements): executes the
    /// statements in order; the first failure aborts the rest, keeping the
    /// output and bindings already committed.
    pub fn interpret(&mut self, stmts: &Vec<Stmt>) -> (r: Result<(), RuntimeError>)
        requires
            old(self).wf(),
        ensures
            final(self).wf(),
            (match exec_seq(stmts_view(stmts@), old(self).env(), old(self).out()) {
                ExecR::Done(e2, o2) => r is Ok && final(self).env() == e2 && final(self).out()
                    == o2,
                ExecR::Fail(e2, o2) => r is Err && final(self).env() == e2 && final(self).out()
                    == o2,
            }),
    {
        let ghost env0 = self.env();
        let ghost out0 = self.out();
        let ghost ssv = stmts_view(stmts@);
        let n = stmts.len();
        let mut k: usize = 0;
        proof {
            crate::statement::lemma_stmts_view_len(stmts@);
            assert(ssv.skip(0) =~= ssv);
        }
        while k < n
            invariant
                env0 == old(self).env(),
                out0 == old(self).out(),
                k <= n,
                n == stmts.len(),
                ssv == stmts_view(stmts@),
                ssv.len() == n,
                self.wf(),
                exec_seq(ssv, env0, out0) == exec_seq(ssv.skip(k as int), self.env(), self.out()),
            decreases n - k,
        {
            let res = self.execute(&stmts[k]);
            proof {
                crate::statement::lemma_stmts_view_index(stmts@, k as int);
                assert(ssv.skip(k as int)[0] == stmt_view(stmts@[k as int]));
                assert(ssv.skip(k as int).drop_first() =~= ssv.skip(k as int + 1));
            }
            match res {
                Result::Ok(()) => {
                    k = k + 1;
                },
                Result::Err(err) => {
                    return Result::Err(err);
                },
            }
        }
        proof {
            assert(ssv.skip(n as int) =~= Seq::<StmtV>::empty());
        }
        Result::Ok(())
    }

    fn is_truthy(&self, expr: &LiteralValue) -> (r: bool)
        ensures
            r == truthy_spec(expr@),
    {
        match expr {
            LiteralValue::Num(num) => !num_is_zero(*num),
            LiteralValue::Str(s) => !s.as_str().is_empty(),
            LiteralValue::Bool(b) => *b,
            LiteralValue::Nil => true,
        }
    }

    /// Evaluates one expression against the current environment; the output
    /// is untouched, and on failure the bindings already made remain.
    pub fn evaluate(&mut self, expr: &Expr) -> (r: Result<Option<LiteralValue>, RuntimeError>)
        ensures
            final(self).out() == old(self).out(),
            (match eval_expr(expr@, old(self).env()) {
                EvalR::Val(v, e2) => r matches Ok(Option::Some(rv)) && rv@ == v && final(self).env()
                    == e2,
                EvalR::Fail(e2) => r is Err && final(self).env() == e2,
            }),
        decreases *expr,
    {
        match expr {
            Expr::Binary(binary) => match self.evaluate_binary(binary) {
                Result::Ok(value) => Result::Ok(Option::Some(value)),
                Result::Err(e) => Result::Err(e),
            },
            Expr::Unary(unary) => match self.evaluate_unary(unary) {
                Result::Ok(value) => Result::Ok(Option::Some(value)),
                Result::Err(e) => Result::Err(e),
            },
            Expr::Grouping(grouping) => self.evaluate(&grouping.expression),
            Expr::Literal(literal) => match literal.get_literal_value() {
                Option::Some(v) => Result::Ok(Option::Some(v)),
                Option::None => Result::Err(
                    RuntimeError::new("Expression has no value.".to_owned()),
                ),
            },
            Expr::Variable(var) => match self.environment.get(var.var.lexeme.as_str()) {
                Result::Ok(v) => Result::Ok(Option::Some(v.dup())),
                Result::Err(e) => Result::Err(e),
            },
            Expr::Assign(assign) => {
                let value = match self.evaluate(&assign.value) {
                    Result::Ok(v) => v,
                    Result::Err(e) => {
                        return Result::Err(e);
                    },
                };
                match value {
                    Option::Some(value) => {
                        match self.environment.assign(assign.lvar.dup(), value.dup()) {
                            Result::Ok(()) => Result::Ok(Option::Some(value)),
                            Result::Err(e) => Result::Err(e),
                        }
                    },
                    Option::None => Result::Err(
                        RuntimeError::new("Expression has no value.".to_owned()),
                    ),
                }
            },
        }
    }

    fn evaluate_unary(&mut self, expr: &UnaryExpr) -> (r: Result<LiteralValue, RuntimeError>)
        ensures
            final(self).out() == old(self).out(),
            (match eval_expr(
                ExprV::Unary(expr.operator@, Box::new((*expr.expression)@)),
                old(self).env(),
            ) {
                EvalR::Val(v, e2) => r matches Ok(rv) && rv@ == v && final(self).env() == e2,
                EvalR::Fail(e2) => r is Err && final(self).env() == e2,
            }),
        decreases *expr,
    {
        let right = match self.evaluate(&expr.expression) {
            Result::Ok(v) => v,
            Result::Err(e) => {
                return Result::Err(e);
            },
        };
        match right {
            Option::Some(right) => match expr.operator.ty {
                TokenType::Minus => {
                    if let LiteralValue::Num(num) = right {
                        Result::Ok(LiteralValue::Num(num_neg(num)))
                    } else {
                        Result::Err(RuntimeError::new("Operand must be number.".to_owned()))
                    }
                },
                TokenType::Bang => {
                    let truthy = self.is_truthy(&right);
                    Result::Ok(LiteralValue::Bool(!truthy))
                },
                _ => {
                    let mut msg = "Invalid unary operator `".to_owned();
                    msg.append(expr.operator.lexeme.as_str());
                    msg.append("`");
                    Result::Err(RuntimeError::new(msg))
                },
            },
            Option::None => Result::Err(RuntimeError::new("Expression has no value.".to_owned())),
        }
    }

    fn evaluate_binary(&mut self, expr: &BinaryExpr) -> (r: Result<LiteralValue, RuntimeError>)
        ensures
            final(self).out() == old(self).out(),
            (match eval_expr(
                ExprV::Binary(Box::new((*expr.left)@), expr.operator@, Box::new((*expr.right)@)),
                old(self).env(),
            ) {
                EvalR::Val(v, e2) => r matches Ok(rv) && rv@ == v && final(self).env() == e2,
                EvalR::Fail(e2) => r is Err && final(self).env() == e2,
            }),
        decreases *expr,
    {
        let left = match self.evaluate(&expr.left) {
            Result::Ok(v) => v,
            Result::Err(e) => {
                return Result::Err(e);
            },
        };
        let right = match self.evaluate(&expr.right) {
            Result::Ok(v) => v,
            Result::Err(e) => {
                return Result::Err(e);
            },
        };
        let op_type = expr.operator.ty;
        match (left, right) {
            (Option::Some(left), Option::Some(right)) => {
                // divided by zero, checked before any other dispatch
                let right_is_zero = match &right {
                    LiteralValue::Num(z) => num_is_zero(*z),
                    _ => false,
                };
                if op_type == TokenType::Slash && right_is_zero {
                    return Result::Err(
                        RuntimeError::new("Divided by zero is not allowed.".to_owned()),
                    );
                }
                match (left, right) {
                    (LiteralValue::Num(a), LiteralValue::Num(b)) => match op_type {
                        TokenType::Plus => Result::Ok(LiteralValue::Num(num_add(a, b))),
                        TokenType::Minus => Result::Ok(LiteralValue::Num(num_sub(a, b))),
                        TokenType::Slash => Result::Ok(LiteralValue::Num(num_div(a, b))),
                        TokenType::Star => Result::Ok(LiteralValue::Num(num_mul(a, b))),
                        TokenType::EqualEqual => Result::Ok(LiteralValue::Bool(num_eq(a, b))),
                        TokenType::BangEqual => Result::Ok(LiteralValue::Bool(!num_eq(a, b))),
                        TokenType::Greater => Result::Ok(LiteralValue::Bool(num_lt(b, a))),
                        TokenType::GreaterEqual => Result::Ok(LiteralValue::Bool(num_le(b, a))),
                        TokenType::Less => Result::Ok(LiteralValue::Bool(num_lt(a, b))),
                        TokenType::LessEqual => Result::Ok(LiteralValue::Bool(num_le(a, b))),
                        _ => Result::Err(
                            RuntimeError::new("Expression can not be interpreted.".to_owned()),
                        ),
                    },
                    (LiteralValue::Str(x), LiteralValue::Str(y)) => {
                        if op_type == TokenType::Plus {
                            Result::Ok(LiteralValue::Str(x.concat(y.as_str())))
                        } else {
                            Result::Err(
                                RuntimeError::new("Expression can not be interpreted.".to_owned()),
                            )
                        }
                    },
                    _ => Result::Err(
                        RuntimeError::new("Expression can not be interpreted.".to_owned()),
                    ),
                }
            },
            _ => Result::Err(RuntimeError::new("Expression has no value.".to_owned())),
        }
    }

    /// Executes one statement: the environment is threaded through, printing
    /// appends the value's display form and a newline to the output, and a
    /// block's scope is popped on every exit path.
    pub fn execute(&mut self, stmt: &Stmt) -> (r: Result<(), RuntimeError>)
        requires
            old(self).wf(),
        ensures
            final(self).wf(),
            (match exec_stmt(stmt@, old(self).env(), old(self).out()) {
                ExecR::Done(e2, o2) => r is Ok && final(self).env() == e2 && final(self).out()
                    == o2,
                ExecR::Fail(e2, o2) => r is Err && final(self).env() == e2 && final(self).out()
                    == o2,
            }),
        decreases *stmt,
    {
        proof {
            lemma_exec_stmt_len(stmt@, old(self).env(), old(self).out());
        }
        match stmt {
            Stmt::Print(stmt) => {
                let value = match self.evaluate(&stmt.expr) {
                    Result::Ok(v) => v,
                    Result::Err(e) => {
                        return Result::Err(e);
                    },
                };
                match value {
                    Option::None => Result::Err(
                        RuntimeError::new("Expression has no value.".to_owned()),
                    ),
                    Option::Some(v) => {
                        let text = v.display_text();
                        self.output.append(text.as_str());
                        self.output.append("\n");
                        Result::Ok(())
                    },
                }
            },
            Stmt::Expr(stmt) => {
                match self.evaluate(&stmt.expr) {
                    Result::Ok(_) => Result::Ok(()),
                    Result::Err(e) => Result::Err(e),
                }
            },
            Stmt::Var(var_stmt) => {
                match &var_stmt.initializer {
                    Option::Some(init_v) => {
                        let value = match self.evaluate(init_v) {
                            Result::Ok(v) => v,
                            Result::Err(e) => {
                                return Result::Err(e);
                            },
                        };
                        match value {
                            Option::Some(lit_v) => {
                                proof {
                                    lemma_eval_env_len(init_v@, old(self).env());
                                }
                                self.environment.define(var_stmt.var_name.as_str(), lit_v);
                                Result::Ok(())
                            },
                            Option::None => Result::Err(
                                RuntimeError::new("Expression has no value.".to_owned()),
                            ),
                        }
                    },
                    Option::None => {
                        self.environment.define(var_stmt.var_name.as_str(), LiteralValue::Nil);
                        Result::Ok(())
                    },
                }
            },
            Stmt::Block(block) => {
                self.environment.create_scope();
                let ghost env0 = self.env();
                let ghost out0 = self.out();
                let ghost ssv = stmts_view(block.stmts@);
                let n = block.stmts.len();
                let mut k: usize = 0;
                proof {
                    crate::statement::lemma_stmts_view_len(block.stmts@);
                    assert(ssv.skip(0) =~= ssv);
                }
                while k < n
                    invariant
                        k <= n,
                        n == block.stmts.len(),
                        ssv == stmts_view(block.stmts@),
                        ssv.len() == n,
                        self.env().len() == env0.len(),
                        env0.len() >= 2,
                        exec_seq(ssv, env0, out0) == exec_seq(ssv.skip(k as int), self.env(), self.out()),
                        stmt_view(*stmt) == StmtV::Block(ssv),
                        *stmt == Stmt::Block(*block),
                        env0 == old(self).env().push(Map::<Seq<char>, ValueV>::empty()),
                        out0 == old(self).out(),
                        old(self).env().len() >= 1,
                    decreases n - k,
                {
                    let ghost env_k = self.env();
                    let ghost out_k = self.out();
                    proof {
                        assert(*stmt == Stmt::Block(*block));
                        assert(decreases_to!(*stmt => stmt->Block_0));
                        assert(decreases_to!(stmt->Block_0 => stmt->Block_0.stmts));
                        assert(decreases_to!(stmt->Block_0.stmts => stmt->Block_0.stmts@));
                        assert(decreases_to!(stmt->Block_0.stmts@ => stmt->Block_0.stmts@[k as int]));
                    }
                    let res = self.execute(&block.stmts[k]);
                    proof {
                        lemma_exec_stmt_len(stmt_view(block.stmts@[k as int]), env_k, out_k);
                        crate::statement::lemma_stmts_view_index(block.stmts@, k as int);
                        assert(ssv.skip(k as int)[0] == stmt_view(block.stmts@[k as int]));
                        assert(ssv.skip(k as int).drop_first() =~= ssv.skip(k as int + 1));
                    }
                    match res {
                        Result::Ok(()) => {
                            k = k + 1;
                        },
                        Result::Err(e) => {
                            self.environment.drop_scope();
                            return Result::Err(e);
                        },
                    }
                }
                proof {
                    assert(ssv.skip(n as int) =~= Seq::<StmtV>::empty());
                }
                self.environment.drop_scope();
                Result::Ok(())
            },
        }
    }
}

} // verus!
