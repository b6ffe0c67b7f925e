use vstd::prelude::*;

verus! {

/// The errors that can come out of loading and addressing source text.
#[derive(Debug, Clone, Copy, PartialEq, Eq, Structural)]
pub enum SourceError {
    /// Paths to files cannot be empty strings; use `"--"` for text that was
    /// not read from a file.
    EmptyPath,

    /// Line numbers start at 1, not 0.
    LineNumberCannotBeZero,

    /// Column numbers start at 1, not 0.
    ColumnNumberCannotBeZero,
}

impl SourceError {
    /// A short human-readable description of the error.
    pub fn describe(&self) -> (r: &'static str)
        ensures
            *self is EmptyPath ==> r@ == "empty path"@,
            *self is LineNumberCannotBeZero ==> r@ == "line number cannot be zero"@,
            *self is ColumnNumberCannotBeZero ==> r@ == "column number cannot be zero"@,
    {
        match self {
            SourceError::EmptyPath => "empty path",
            SourceError::LineNumberCannotBeZero => "line number cannot be zero",
            SourceError::ColumnNumberCannotBeZero => "column number cannot be zero",
        }
    }
}

} // verus!
