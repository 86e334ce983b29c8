//! The two error kinds of the pipeline: parse-time and run-time failures.
//! Both are simple message carriers; rendering them is a collaborator concern.

use vstd::prelude::*;

verus! {

/// Any failure of a `run` call: scanning, parsing or execution.
#[derive(Debug)]
pub enum LoxError {
    TokenError(),
    ParseError(ParseError),
    RuntimeError(RuntimeError),
}

/// A failure found while parsing: an unexpected token, an invalid assignment
/// target, or trailing tokens left unconsumed.
#[derive(Debug)]
pub struct ParseError {
    message: String,
}

impl ParseError {
    pub closed spec fn message_spec(&self) -> Seq<char> {
        self.message@
    }

    pub fn new(msg: String) -> (e: ParseError)
        ensures
            e.message_spec() == msg@,
    {
        ParseError { message: msg }
    }

    /// The carried diagnostic text.
    pub fn message(&self) -> (r: &String)
        ensures
            r@ == self.message_spec(),
    {
        &self.message
    }
}

/// A failure found while evaluating or executing: an undefined variable, an
/// unsupported operand combination, or a division by zero.
#[derive(Debug)]
pub struct RuntimeError {
    message: String,
}

impl RuntimeError {
    pub closed spec fn message_spec(&self) -> Seq<char> {
        self.message@
    }

    pub fn new(msg: String) -> (e: RuntimeError)
        ensures
            e.message_spec() == msg@,
    {
        RuntimeError { message: msg }
    }

    /// The carried diagnostic text.
    pub fn message(&self) -> (r: &String)
        ensures
            r@ == self.message_spec(),
    {
        &self.message
    }
}

} // verus!
