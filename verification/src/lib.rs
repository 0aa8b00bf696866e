//! A verified recursive-descent parser for a small imperative scripting
//! language (variables, `print`, `if`/`else`, blocks, first-class functions,
//! arithmetic, comparison, equality, grouping, calls).
//!
//! The parser consumes a finished token vector and returns an abstract syntax
//! tree of statements; it does not read source text, evaluate, or report to
//! users directly.  Its behaviour is pinned down by a family of spec-level
//! parsing functions over the token sequence, and every executable routine is
//! proved to agree with them.

pub mod ast;
pub mod grammar;
pub mod laws;
pub mod parser;
pub mod token;
