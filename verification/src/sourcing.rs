//! Grapheme-aware source management: loaded sources addressed by stable
//! handles, locations in lines and grapheme-cluster columns, and a reader
//! that walks a source one grapheme cluster at a time.

pub mod domain;
pub mod error;
pub mod reader;
pub mod segmentation;
