//! A reduction engine for the untyped lambda calculus, extended with named
//! top-level bindings (written `NAME = expr`) and metavariable
//! references that resolve against those bindings.
//!
//! The pipeline has three stages: lexing an input line into tokens, parsing
//! the tokens into an expression tree, and evaluating the tree. Evaluation
//! first expands every metavariable reference against the session
//! environment, then beta-reduces the expanded tree to full normal form,
//! substituting capture-avoidingly and alpha-renaming binders with fresh
//! names where a capture could occur.

pub mod token;
pub mod expr;
pub mod errors;
pub mod env;
pub mod semantics;
pub mod laws;
pub mod evaluator;
pub mod lexer;
pub mod parser;
