//! Loaded source texts and byte-level reading over them.

pub mod domain;
pub mod error;
pub mod reader;
