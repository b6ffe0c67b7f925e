//! Front-end infrastructure for a compiler: source management with exact
//! position tracking, grapheme-aware reading, token construction, backtracking
//! parser combinators, diagnostic accumulation, and diagnostic rendering.

pub mod domain;
pub mod lexing;
pub mod message;
pub mod parsing;
pub mod reporting;
pub mod source;
pub mod sourcing;
pub mod tokenizing;
