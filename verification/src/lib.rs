//! Classification of raw numeric-literal tokens.
//!
//! A tokenizer hands this library the exact text of a numeric token; the
//! library decides whether that text is an integer, floating-point or
//! imaginary literal and wraps it, verbatim, in a syntax-tree node.

pub mod grammar;
pub mod parser;
