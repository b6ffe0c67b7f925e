use vstd::prelude::*;

verus! {

/// A general-purpose error type used when reading source code.
#[derive(Debug, Clone, Copy, PartialEq, Eq, Structural)]
pub enum ErrorSource {
    /// An unhandled error while finding the boundaries of the next grapheme
    /// cluster; never expected during normal use.
    UnicodeSegmentation,

    /// The bytes of a grapheme cluster are not valid UTF-8; never expected
    /// during normal use, since sources are meant to hold UTF-8 text.
    Utf8,

    /// Paths to files cannot be empty strings; use `"--"` for text that was
    /// not read from a file.
    EmptyPath,

    /// Line numbers start at 1, not 0.
    LineNumberCannotBeZero,

    /// Column numbers start at 1, not 0.
    ColumnNumberCannotBeZero,

    /// Reading was attempted past the end of the source; common during
    /// normal use.
    NoMoreToBeRead,

    /// The byte offset stands in the middle of a grapheme cluster.
    ByteOffsetInMiddleOfGraphemeCluster(usize),
}

impl ErrorSource {
    /// A short human-readable description of the error.
    pub fn describe(&self) -> (r: &'static str)
        ensures
            *self is NoMoreToBeRead ==> r@ == "no more to be read"@,
            *self is EmptyPath ==> r@ == "empty path"@,
    {
        match self {
            ErrorSource::UnicodeSegmentation => "unicode segmentation error",
            ErrorSource::Utf8 => "UTF-8 error",
            ErrorSource::EmptyPath => "empty path",
            ErrorSource::LineNumberCannotBeZero => "line number cannot be zero",
            ErrorSource::ColumnNumberCannotBeZero => "column number cannot be zero",
            ErrorSource::NoMoreToBeRead => "no more to be read",
            ErrorSource::ByteOffsetInMiddleOfGraphemeCluster(_) => {
                "byte offset is in the middle of a grapheme cluster"
            },
        }
    }
}

} // verus!
