//! Reports of errors and warnings: a validated report model, a store that
//! keeps reports in render order with running counts, and a renderer that
//! turns the store into styled, source-annotated text.

pub mod context;
pub mod rendering;
pub mod report;
pub mod unicode;
