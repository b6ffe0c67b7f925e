use vstd::prelude::*;

use crate::source::domain::SourceLocation;

verus! {

/// What peeking at `offset` yields: the byte there, with `\r` presented as
/// `\n`, or nothing at the end of the data.
pub open spec fn spec_peek_byte(data: Seq<u8>, offset: int) -> Option<u8> {
    if 0 <= offset < data.len() {
        if data[offset] == 13u8 {
            Some(10u8)
        } else {
            Some(data[offset])
        }
    } else {
        None
    }
}

/// Where one read from `offset` lands: one byte further, or two when a `\r`
/// is directly followed by `\n`, so that `\r\n` is consumed as a single
/// break; a lone `\r` is its own one-byte break.
pub open spec fn spec_read_advance(data: Seq<u8>, offset: int) -> int {
    if 0 <= offset < data.len() {
        if data[offset] == 13u8 && offset + 1 < data.len() && data[offset + 1] == 10u8 {
            offset + 2
        } else {
            offset + 1
        }
    } else {
        offset
    }
}

/// Whether the byte at `offset` ends a line.
pub open spec fn spec_is_break(data: Seq<u8>, offset: int) -> bool {
    0 <= offset < data.len() && (data[offset] == 10u8 || data[offset] == 13u8)
}

/// A saved state of a [`SourceReader`], used to backtrack to a previous
/// location.
#[derive(Clone, Copy)]
pub struct SourceReaderState<'source_context> {
    pub current_location: SourceLocation<'source_context>,
}

/// A reader that walks one source byte by byte, keeping the line and column
/// of the current position and presenting `\n`, `\r\n` and lone `\r` alike as
/// a single `\n`.
pub struct SourceReader<'source_context> {
    state: SourceReaderState<'source_context>,
}

impl<'source_context> SourceReader<'source_context> {
    /// The reader's position lies inside its source.
    pub open spec fn wf(self) -> bool {
        self.spec_location().wf()
    }

    /// The current state of the reader.
    pub closed spec fn spec_state(self) -> SourceReaderState<'source_context> {
        self.state
    }

    /// The current location of the reader.
    pub open spec fn spec_location(self) -> SourceLocation<'source_context> {
        self.spec_state().current_location
    }

    /// The bytes of the source being read.
    pub open spec fn spec_data(self) -> Seq<u8> {
        self.spec_location().source.spec_data()
    }

    pub fn new(initial_location: SourceLocation<'source_context>) -> (r: SourceReader<
        'source_context,
    >)
        ensures
            r.spec_location() == initial_location,
            initial_location.wf() ==> r.wf(),
    {
        SourceReader { state: SourceReaderState { current_location: initial_location } }
    }

    /// Whether any bytes remain to be read.
    pub fn is_more(&self) -> (r: bool)
        requires
            self.wf(),
        ensures
            r == (self.spec_location().offset < self.spec_data().len()),
    {
        self.state.current_location.offset < self.state.current_location.source.data().len()
    }

    /// The next byte, with `\r` presented as `\n`, without advancing; `None`
    /// at the end of the source.
    pub fn peek_next(&self) -> (r: Option<u8>)
        requires
            self.wf(),
        ensures
            r == spec_peek_byte(self.spec_data(), self.spec_location().offset as int),
    {
        if self.is_more() {
            let byte = self.state.current_location.source.data()[self.state.current_location.offset];
            if byte == 13u8 {
                Some(10u8)
            } else {
                Some(byte)
            }
        } else {
            None
        }
    }

    /// Read the next byte and advance.
    ///
    /// A line break (`\n`, `\r\n`, or lone `\r`) comes back as a single `\n`,
    /// advances the offset past the whole break, moves to the next line and
    /// resets the column to 1; any other byte comes back unchanged and moves
    /// one column further. At the end of the source nothing changes and
    /// `None` comes back.
    pub fn read_next(&mut self) -> (r: Option<u8>)
        requires
            old(self).wf(),
        ensures
            final(self).wf(),
            r == spec_peek_byte(old(self).spec_data(), old(self).spec_location().offset as int),
            final(self).spec_location().source == old(self).spec_location().source,
            r is None ==> *final(self) == *old(self),
            r is Some ==> final(self).spec_location().offset == spec_read_advance(
                old(self).spec_data(),
                old(self).spec_location().offset as int,
            ),
            r is Some && spec_is_break(old(self).spec_data(), old(self).spec_location().offset as int)
                ==> final(self).spec_location().line_number == old(
                self,
            ).spec_location().line_number + 1 && final(self).spec_location().column_number == 1,
            r is Some && !spec_is_break(old(self).spec_data(), old(self).spec_location().offset as int)
                ==> final(self).spec_location().line_number == old(
                self,
            ).spec_location().line_number && final(self).spec_location().column_number == old(
                self,
            ).spec_location().column_number + 1,
    {
        if !self.is_more() {
            return None;
        }

        let byte = self.state.current_location.source.data()[self.state.current_location.offset];

        self.state.current_location.offset = self.state.current_location.offset + 1;

        if byte == 10u8 {
            self.state.current_location.line_number = self.state.current_location.line_number + 1;
            self.state.current_location.column_number = 1;
            Some(10u8)
        } else if byte == 13u8 {
            let data = self.state.current_location.source.data();
            if self.state.current_location.offset < data.len() && data[self.state.current_location.offset] == 10u8 {
                self.state.current_location.offset = self.state.current_location.offset + 1;
            }
            self.state.current_location.line_number = self.state.current_location.line_number + 1;
            self.state.current_location.column_number = 1;
            Some(10u8)
        } else {
            self.state.current_location.column_number = self.state.current_location.column_number
                + 1;
            Some(byte)
        }
    }

    /// The current location of the reader in the source.
    pub fn current_location(&self) -> (r: &SourceLocation<'source_context>)
        ensures
            *r == self.spec_location(),
    {
        &self.state.current_location
    }

    /// Save the current state of the reader, to be restored later.
    pub fn save_state(&self) -> (r: SourceReaderState<'source_context>)
        ensures
            r == self.spec_state(),
    {
        self.state
    }

    /// Rewind the reader to a previously saved state.
    pub fn restore_state(&mut self, state: SourceReaderState<'source_context>)
        ensures
            final(self).spec_state() == state,
    {
        self.state = state;
    }
}

} // verus!
