use vstd::prelude::*;

use crate::sourcing::domain::SourceLocation;
use crate::sourcing::segmentation::utf8_lossy_chars;

verus! {

/// A token in the source code: a value that determines its meaning, and the
/// locations of its first and last grapheme clusters.
#[derive(Clone)]
pub struct Token<'source_context, TokenValue> {
    /// The value of the token which determines its meaning.
    pub value: TokenValue,

    /// The location of the first grapheme cluster of the token.
    pub first: SourceLocation<'source_context>,

    /// The location of the last grapheme cluster of the token.
    pub last: SourceLocation<'source_context>,
}

impl<'source_context, TokenValue> Token<'source_context, TokenValue> {
    /// Build a token from its value and the locations of its first and last
    /// grapheme clusters.
    pub fn new(
        value: TokenValue,
        first: SourceLocation<'source_context>,
        last: SourceLocation<'source_context>,
    ) -> (r: Token<'source_context, TokenValue>)
        requires
            first.byte_offset <= last.byte_offset,
        ensures
            r.value == value,
            r.first == first,
            r.last == last,
    {
        Token { value, first, last }
    }

    /// The text of the token: the bytes from its first to its last location,
    /// decoded leniently.
    pub fn text(&self) -> (r: String)
        requires
            self.first.wf(),
            self.first.source == self.last.source,
            self.first.byte_offset <= self.last.byte_offset,
            self.last.byte_offset < self.first.source.spec_data().len(),
        ensures
            r@ == utf8_lossy_chars(
                self.first.source.spec_data().subrange(
                    self.first.byte_offset as int,
                    self.last.byte_offset + 1,
                ),
            ),
    {
        self.first.string_between(&self.last)
    }
}

} // verus!
