//! A small dynamically typed scripting language: a scanner turns source text
//! into tokens, a recursive-descent parser turns tokens into syntax trees, and
//! a tree-walking interpreter executes them against a stack of lexical scopes.

pub mod args;
pub mod environment;
pub mod error;
pub mod expression;
pub mod interpreter;
pub mod lox;
pub mod numbers;
pub mod parser;
pub mod scanner;
pub mod statement;
pub mod token;
