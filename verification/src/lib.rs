//! A tiny compiler for flat `+`/`-` expressions over non-negative decimal
//! integers.  It tokenizes the input text, checks it against the grammar
//! `expr := NUMBER (('+' | '-') NUMBER)*`, and emits the assembly lines of a
//! `main` routine that computes the expression's value in the accumulator
//! register and returns it.
//!
//! The pipeline is pure: every stage reports failure through an error value
//! instead of terminating the process, so a caller decides what to do with a
//! diagnostic.
#![verifier::loop_isolation(false)]

pub mod codegen;
pub mod error;
pub mod laws;
pub mod parser;
pub mod scanner;
pub mod token;
pub mod tokenizer;
