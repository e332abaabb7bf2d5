//! Front end of a small expression-oriented language: a tokenizer and a
//! syntax parser that build an abstract syntax tree from source text.
//!
//! - [`lexer`]: source text to tokens. The rules, the choice of the longest
//!   match and the recovery from input that no rule matches.
//! - [`parser`]: tokens to the syntax tree. The grammar as functions on
//!   sequences of tokens, the productions that compute them, and what holds
//!   of the grammar in general.
//! - [`model`]: the models of values that hold other values.

pub mod lexer;
pub mod model;
pub mod parser;
