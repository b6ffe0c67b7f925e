//! Token construction over a grapheme-cluster reader: a context that
//! accumulates read graphemes into pending tokens, and reusable reading
//! fragments for quoted text, numbers and symbols.

pub mod context;
pub mod fragments;
pub mod token;
