//! A single-pass tokenizer for a small programming language: a scanner that
//! turns a character buffer into classified tokens, with one character of
//! lookahead for the two-character operators, and a keyword classifier for
//! identifier runs.

pub mod laws;
pub mod lexer;
pub mod token;
