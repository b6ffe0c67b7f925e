//! Diagnostics accumulated during lexing and parsing, kept in render order.

pub mod domain;
