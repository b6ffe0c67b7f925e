use vstd::prelude::*;

use crate::sourcing::domain::SourceLocation;
use crate::sourcing::error::ErrorSource;
use crate::sourcing::segmentation::{
    cluster_readable, next_grapheme_boundary, next_grapheme_cluster, utf8_chars,
};

verus! {

/// Whether the byte at `offset` starts a line break.
pub open spec fn spec_grapheme_is_break(data: Seq<u8>, offset: int) -> bool {
    0 <= offset < data.len() && (data[offset] == 10u8 || data[offset] == 13u8)
}

/// The text one peek at `offset` shows: the next grapheme cluster, with a
/// `\r` or `\r\n` cluster presented as a single `\n`.
pub open spec fn spec_peek_grapheme(data: Seq<u8>, offset: int) -> Seq<char> {
    if 0 <= offset < data.len() && data[offset] == 13u8 {
        seq!['\n']
    } else {
        utf8_chars(data.subrange(offset, next_grapheme_boundary(data, offset)))
    }
}

/// Where one read from `offset` lands: past the grapheme cluster there, and
/// also past a directly following `\n` when the cluster was a lone `\r`, so
/// that a broken-up `\r\n` still counts as one break.
pub open spec fn spec_grapheme_advance(data: Seq<u8>, offset: int) -> int {
    let boundary = next_grapheme_boundary(data, offset);
    if 0 <= offset < data.len() && data[offset] == 13u8 && boundary == offset + 1 && boundary
        < data.len() && data[boundary] == 10u8 {
        boundary + 1
    } else {
        boundary
    }
}

/// Away from line breaks, a read consumes exactly the bytes of the grapheme
/// cluster that a peek at the same position shows, and the two yield the
/// same text.
pub proof fn lemma_peek_read_consistent(data: Seq<u8>, offset: int)
    requires
        0 <= offset < data.len(),
        data[offset] != 13u8,
    ensures
        spec_grapheme_advance(data, offset) == next_grapheme_boundary(data, offset),
        spec_peek_grapheme(data, offset) == utf8_chars(
            data.subrange(offset, next_grapheme_boundary(data, offset)),
        ),
{
}

/// A saved state of a [`SourceReader`], used to backtrack to a previous
/// location safely.
#[derive(Clone, Copy)]
pub struct SourceReaderState<'source_context> {
    pub current_location: SourceLocation<'source_context>,
}

/// A reader that walks one source as a stream of grapheme clusters, keeping
/// the line and the grapheme-cluster column of the current position, and
/// presenting DOS line endings as plain `\n`.
pub struct SourceReader<'source_context> {
    state: SourceReaderState<'source_context>,
}

impl<'source_context> SourceReader<'source_context> {
    /// The reader's position lies inside its source.
    pub open spec fn wf(self) -> bool {
        self.spec_location().wf()
    }

    /// The current state of the reader.
    pub closed spec fn spec_state(self) -> SourceReaderState<'source_context> {
        self.state
    }

    /// The current location of the reader.
    pub open spec fn spec_location(self) -> SourceLocation<'source_context> {
        self.spec_state().current_location
    }

    /// The bytes of the source being read.
    pub open spec fn spec_data(self) -> Seq<u8> {
        self.spec_location().source.spec_data()
    }

    /// Creates a new reader starting at the given location.
    pub fn new(initial_location: SourceLocation<'source_context>) -> (r: SourceReader<
        'source_context,
    >)
        ensures
            r.spec_location() == initial_location,
            initial_location.wf() ==> r.wf(),
    {
        SourceReader { state: SourceReaderState { current_location: initial_location } }
    }

    /// Whether any bytes remain to be read; they need not form a complete
    /// grapheme cluster.
    pub fn is_more(&self) -> (r: bool)
        requires
            self.wf(),
        ensures
            r == (self.spec_location().byte_offset < self.spec_data().len()),
    {
        self.state.current_location.byte_offset
            < self.state.current_location.source.data().len()
    }

    /// The next grapheme cluster, without advancing; `\r` and `\r\n` are
    /// presented as a single `\n`.
    ///
    /// At the end of the source nothing can be read; a byte offset in the
    /// middle of a cluster or invalid UTF-8 is reported rather than silently
    /// tolerated.
    pub fn peek_next_grapheme_cluster(&self) -> (r: Result<String, ErrorSource>)
        requires
            self.wf(),
        ensures
            (r matches Err(e) && e == ErrorSource::NoMoreToBeRead) <==> self.spec_location().byte_offset >= self.spec_data().len(),
            self.spec_location().byte_offset < self.spec_data().len() ==> ((r is Ok)
                <==> cluster_readable(self.spec_data(), self.spec_location().byte_offset as int)),
            (self.spec_location().byte_offset < self.spec_data().len() && (forall|i: int|
                0 <= i < self.spec_data().len() ==> self.spec_data()[i] < 128u8))
                ==> cluster_readable(self.spec_data(), self.spec_location().byte_offset as int),
            r matches Ok(cluster) ==> self.spec_location().byte_offset < self.spec_data().len()
                && cluster@ == spec_peek_grapheme(
                self.spec_data(),
                self.spec_location().byte_offset as int,
            ),
    {
        let location = &self.state.current_location;
        let data = location.source.data();
        if location.byte_offset >= data.len() {
            return Err(ErrorSource::NoMoreToBeRead);
        }
        match next_grapheme_cluster(data, location.byte_offset) {
            Err(e) => Err(e),
            Ok((cluster, _boundary)) => {
                if data[location.byte_offset] == 13u8 {
                    let newline = String::from_str("\n");
                    proof {
                        reveal_strlit("\n");
                        assert(newline@ =~= seq!['\n']);
                    }
                    Ok(newline)
                } else {
                    Ok(cluster)
                }
            },
        }
    }

    /// Read the next grapheme cluster and advance.
    ///
    /// A line break comes back as a single `\n`, advances the offset past
    /// the whole break, moves to the next line and resets the column to 1;
    /// any other cluster comes back as its own text and moves one column
    /// further.
    pub fn read_next_grapheme_cluster(&mut self) -> (r: Result<String, ErrorSource>)
        requires
            old(self).wf(),
        ensures
            final(self).wf(),
            final(self).spec_location().source == old(self).spec_location().source,
            r is Err ==> *final(self) == *old(self),
            (r matches Err(e) && e == ErrorSource::NoMoreToBeRead) <==> old(self).spec_location().byte_offset >= old(self).spec_data().len(),
            old(self).spec_location().byte_offset < old(self).spec_data().len() ==> ((r is Ok)
                <==> cluster_readable(
                old(self).spec_data(),
                old(self).spec_location().byte_offset as int,
            )),
            (old(self).spec_location().byte_offset < old(self).spec_data().len() && (forall|i: int|
                0 <= i < old(self).spec_data().len() ==> old(self).spec_data()[i] < 128u8))
                ==> cluster_readable(
                old(self).spec_data(),
                old(self).spec_location().byte_offset as int,
            ),
            r matches Ok(cluster) ==> ({
                let data = old(self).spec_data();
                let p = old(self).spec_location().byte_offset as int;
                &&& (data[p] == 13u8 ==> final(self).spec_location().byte_offset == (
                if p + 1 < data.len() && data[p + 1] == 10u8 {
                    p + 2
                } else {
                    p + 1
                }))
                &&& (data[p] == 10u8 ==> final(self).spec_location().byte_offset == p + 1)
                &&& ((data[p] < 128u8 && data[p] != 13u8 && data[p] != 10u8 && (p + 1 == data.len()
                    || data[p + 1] < 128u8)) ==> final(self).spec_location().byte_offset == p + 1
                    && cluster@ == seq![data[p] as char])
            }),
            r matches Ok(cluster) ==> {
                let data = old(self).spec_data();
                let p = old(self).spec_location().byte_offset as int;
                &&& p < data.len()
                &&& cluster@ == spec_peek_grapheme(data, p)
                &&& final(self).spec_location().byte_offset == spec_grapheme_advance(data, p)
                &&& final(self).spec_location().byte_offset > p
                &&& (spec_grapheme_is_break(data, p) ==> final(self).spec_location().line_number
                    == old(self).spec_location().line_number + 1 && final(self).spec_location().column_number == 1)
                &&& (!spec_grapheme_is_break(data, p) ==> final(self).spec_location().line_number
                    == old(self).spec_location().line_number && final(self).spec_location().column_number == old(self).spec_location().column_number + 1)
            },
    {
        let location = &self.state.current_location;
        let data = location.source.data();
        let offset = location.byte_offset;
        if offset >= data.len() {
            return Err(ErrorSource::NoMoreToBeRead);
        }
        let (cluster, boundary) = match next_grapheme_cluster(data, offset) {
            Err(e) => {
                return Err(e);
            },
            Ok(pair) => pair,
        };

        let first_byte = data[offset];
        if first_byte == 10u8 || first_byte == 13u8 {
            let mut landing = boundary;
            if first_byte == 13u8 && boundary == offset + 1 && boundary < data.len()
                && data[boundary] == 10u8 {
                landing = boundary + 1;
            }
            self.state.current_location.byte_offset = landing;
            self.state.current_location.line_number =
                self.state.current_location.line_number + 1;
            self.state.current_location.column_number = 1;
            let newline = String::from_str("\n");
            proof {
                reveal_strlit("\n");
                assert(newline@ =~= seq!['\n']);
                if first_byte == 10u8 {
                    assert(data@.subrange(offset as int, boundary as int) =~= seq![10u8]);
                    assert(data@.subrange(offset as int, boundary as int).map_values(
                        |b: u8| b as char,
                    ) =~= seq!['\n']);
                }
            }
            Ok(newline)
        } else {
            self.state.current_location.byte_offset = boundary;
            self.state.current_location.column_number =
                self.state.current_location.column_number + 1;
            Ok(cluster)
        }
    }

    /// The current location of the reader in the source.
    pub fn current_location(&self) -> (r: SourceLocation<'source_context>)
        ensures
            r == self.spec_location(),
    {
        self.state.current_location
    }

    /// Save the current state of the reader, to be restored later.
    pub fn save_state(&self) -> (r: SourceReaderState<'source_context>)
        ensures
            r == self.spec_state(),
    {
        self.state
    }

    /// Rewind the reader to a previously saved state: the byte offset, the
    /// line and the column all return to their saved values.
    pub fn restore_state(&mut self, state: SourceReaderState<'source_context>)
        ensures
            final(self).spec_state() == state,
    {
        self.state = state;
    }
}

/// Saving before any sequence of reads and restoring afterwards is an exact
/// round trip: a reader whose state was restored stands at the saved byte
/// offset, line and column, whatever was read in between.
pub proof fn lemma_save_restore_round_trip<'sc>(
    saved: SourceReaderState<'sc>,
    restored: SourceReader<'sc>,
)
    requires
        restored.spec_state() == saved,
    ensures
        restored.spec_location().byte_offset == saved.current_location.byte_offset,
        restored.spec_location().line_number == saved.current_location.line_number,
        restored.spec_location().column_number == saved.current_location.column_number,
{
}

} // verus!
