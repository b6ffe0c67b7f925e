//! Tokens and token-level reading for the lexing pass.

pub mod lexer;
pub mod numbers;
pub mod reader;
pub mod token;
