//! The single entry point the core exposes upward: `run` scans the source,
//! parses it, rejects the program when trailing tokens were left unconsumed,
//! and then executes the statements in order against the owned interpreter.

use vstd::prelude::*;
use vstd::string::*;
use crate::environment::EnvV;
use crate::error::{LoxError, ParseError};
use crate::interpreter::{ExecR, Interpreter, exec_seq};
use crate::parser::{Parser, sp_parse};
use crate::scanner::{Scanner, scan_rest, tokens_view, tokv};
use crate::statement::{Stmt, stmts_view};
use crate::token::{TokenType, TokenV};

verus! {

/// The token stream a source text scans to: the kept tokens and the final
/// end-of-input marker.
pub open spec fn scan_model(src: Seq<char>) -> Seq<TokenV> {
    let whole = scan_rest(src, 0, 1);
    whole.0.push(tokv(TokenType::Eof, Seq::empty(), whole.2))
}

/// What one `run` call does, given the environment and output beforehand.
pub enum RunR {
    /// Trailing tokens remained after parsing: the program is rejected
    /// before anything executes.
    Rejected,
    Done(EnvV, Seq<char>),
    Failed(EnvV, Seq<char>),
}

/// The whole pipeline: scan, parse, reject unless every token up to the
/// end-of-input marker was consumed, then execute the statements in order.
pub open spec fn run_spec(src: Seq<char>, env: EnvV, out: Seq<char>) -> RunR {
    let toks = scan_model(src);
    let m = sp_parse(toks, 0);
    if m.1 != toks.len() - 1 {
        RunR::Rejected
    } else {
        match exec_seq(m.0, env, out) {
            ExecR::Done(e, o) => RunR::Done(e, o),
            ExecR::Fail(e, o) => RunR::Failed(e, o),
        }
    }
}

/// The language front end: an interpreter kept across `run` calls, so that
/// bindings persist from one source text to the next.
pub struct Lox {
    interpretor: Interpreter,
}

impl Lox {
    pub closed spec fn wf(&self) -> bool {
        self.interpretor.wf()
    }

    pub closed spec fn env(&self) -> EnvV {
        self.interpretor.env()
    }

    pub closed spec fn out(&self) -> Seq<char> {
        self.interpretor.out()
    }

    pub fn new() -> (r: Lox)
        ensures
            r.wf(),
            r.env().len() == 1,
            r.env()[0] == Map::<Seq<char>, crate::expression::ValueV>::empty(),
            r.out() == Seq::<char>::empty(),
    {
        Lox { interpretor: Interpreter::new() }
    }

    /// The output printed so far.
    pub fn output(&self) -> (r: &String)
        ensures
            r@ == self.out(),
    {
        self.interpretor.output()
    }

    /// Hands the output printed so far to the caller and starts afresh.
    pub fn take_output(&mut self) -> (r: String)
        ensures
            r@ == old(self).out(),
            final(self).out() == Seq::<char>::empty(),
            final(self).env() == old(self).env(),
            final(self).wf() == old(self).wf(),
    {
        self.interpretor.take_output()
    }

    /// Runs one source text: scan, parse, check that every token was
    /// consumed, execute. The first parse rejection or runtime failure is
    /// returned; output printed and bindings made before it remain.
    pub fn run(&mut self, source: &str) -> (r: Result<(), LoxError>)
        requires
            old(self).wf(),
            source@.len() < usize::MAX,
        ensures
            final(self).wf(),
            (match run_spec(source@, old(self).env(), old(self).out()) {
                RunR::Rejected => (r matches Err(LoxError::ParseError(_)) && final(self).env()
                    == old(self).env() && final(self).out() == old(self).out()),
                RunR::Done(e, o) => r is Ok && final(self).env() == e && final(self).out() == o,
                RunR::Failed(e, o) => (r matches Err(LoxError::RuntimeError(_)) && final(self).env()
                    == e && final(self).out() == o),
            }),
    {
        let ghost env0 = self.env();
        let ghost out0 = self.out();
        let mut scanner = Scanner::new(source.to_owned());
        let tokens = scanner.scan_tokens();
        let ghost toksv = tokens_view(tokens@);
        proof {
            assert(toksv == scan_model(source@));
            assert(toksv.len() >= 1);
            assert(toksv[toksv.len() - 1].ty == TokenType::Eof);
        }
        let mut parser = Parser::new(tokens);
        let stmts = match parser.parse() {
            Result::Ok(stmts) => stmts,
            Result::Err(err) => {
                return Result::Err(LoxError::ParseError(err));
            },
        };
        let ghost m = sp_parse(toksv, 0);
        if !parser.all_parsed() {
            return Result::Err(
                LoxError::ParseError(ParseError::new("not all token parsed".to_owned())),
            );
        }
        // execute all statements
        proof {
            assert(stmts_view(stmts@) == m.0);
        }
        match self.interpretor.interpret(&stmts) {
            Result::Ok(()) => Result::Ok(()),
            Result::Err(err) => Result::Err(LoxError::RuntimeError(err)),
        }
    }
}

} // verus!
