//! Grammar-agnostic backtracking parser combinators over a token reader.

pub mod ast;
pub mod fragments;
pub mod matchers;
