//! Front end for a small expression language: a lexical scanner that turns
//! source text into a flat token stream, and a recursive-descent parser that
//! turns that stream into expression trees under an explicit operator
//! precedence grammar.  Both stages collect their diagnostics instead of
//! aborting, and both are specified against mathematical models of their
//! output.

pub mod expression;
pub mod grammar;
pub mod parse_model;
pub mod parser;
pub mod render;
pub mod scan_model;
pub mod scanner;
pub mod text;
pub mod token;
