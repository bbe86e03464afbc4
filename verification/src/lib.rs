//! A small interpreter for a Lisp-like language: a character-stream
//! tokenizer, a recursive-descent reader that builds S-expression trees,
//! and a tree-walking evaluator with lexical environments, closures and a
//! fixed table of native builtins.
//!
//! Numeric values are IEEE-754 double-precision numbers, carried
//! everywhere as their 64-bit encodings so that all structural logic is
//! verified; the arithmetic itself is delegated to a software
//! implementation of IEEE-754 behind a handful of trusted wrappers.
use vstd::prelude::*;

pub mod arith;
pub mod laws;
pub mod lex;
pub mod env;
pub mod liblisp;
pub mod reader;
pub mod strmap;
pub mod text;

verus! {

} // verus!
