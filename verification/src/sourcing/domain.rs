use vstd::prelude::*;

use crate::source::domain::{
    line_starts, offsets_view, spec_line_offset, ColumnNumber, LineNumber, SourceId,
    SourceOffset, MAX_SOURCE_LEN,
};
use crate::sourcing::error::ErrorSource;
use vstd::string::StringSliceAdditionalSpecFns;
use crate::sourcing::segmentation::{bytes_to_string_lossy, utf8_lossy_chars};

verus! {

/// The byte offset in a source.
pub type SourceByteOffset = SourceOffset;

/// The data loaded from one source file, with its lazily built index of the
/// byte offsets of line starts.
pub struct SourceData {
    pub path: String,
    pub data: Vec<u8>,
    pub line_byte_offset_index: Option<Vec<usize>>,
}

impl SourceData {
    /// The index has been built and holds exactly the line starts of the data.
    pub open spec fn index_ok(self) -> bool {
        &&& self.line_byte_offset_index is Some
        &&& offsets_view(self.line_byte_offset_index->0@) == line_starts(self.data@, 0)
    }

    /// Scan the whole data once and record the byte offset of the first byte
    /// of every line after line 1.
    pub fn build_line_byte_offset_index(&mut self)
        ensures
            final(self).path == old(self).path,
            final(self).data == old(self).data,
            final(self).index_ok(),
    {
        let mut line_byte_offset_index: Vec<usize> = Vec::new();
        let mut byte_offset: usize = 0;

        while byte_offset < self.data.len()
            invariant
                *self == *old(self),
                byte_offset <= self.data@.len(),
                offsets_view(line_byte_offset_index@) + line_starts(
                    self.data@,
                    byte_offset as int,
                ) == line_starts(self.data@, 0),
            decreases self.data@.len() - byte_offset,
        {
            let ghost prev_index = line_byte_offset_index@;
            let ghost at = byte_offset as int;

            if self.data[byte_offset] == 10u8 {
                if byte_offset + 1 < self.data.len() {
                    line_byte_offset_index.push(byte_offset + 1);
                }
                proof {
                    assert(offsets_view(line_byte_offset_index@) =~= offsets_view(prev_index)
                        + crate::source::domain::line_start_if_inside(self.data@, at + 1));
                }
                byte_offset = byte_offset + 1;
            } else if self.data[byte_offset] == 13u8 {
                if byte_offset + 1 < self.data.len() && self.data[byte_offset + 1] == 10u8 {
                    if byte_offset + 2 < self.data.len() {
                        line_byte_offset_index.push(byte_offset + 2);
                    }
                    proof {
                        assert(offsets_view(line_byte_offset_index@) =~= offsets_view(prev_index)
                            + crate::source::domain::line_start_if_inside(self.data@, at + 2));
                    }
                    byte_offset = byte_offset + 2;
                } else {
                    if byte_offset + 1 < self.data.len() {
                        line_byte_offset_index.push(byte_offset + 1);
                    }
                    proof {
                        assert(offsets_view(line_byte_offset_index@) =~= offsets_view(prev_index)
                            + crate::source::domain::line_start_if_inside(self.data@, at + 1));
                    }
                    byte_offset = byte_offset + 1;
                }
            } else {
                byte_offset = byte_offset + 1;
            }
        }

        self.line_byte_offset_index = Some(line_byte_offset_index);
    }

    /// Get the byte offset of the first byte of the given line, building the
    /// index on the first query.
    pub fn get_line_byte_offset(&mut self, line_number: LineNumber) -> (r: Result<
        Option<SourceByteOffset>,
        ErrorSource,
    >)
        requires
            old(self).line_byte_offset_index is Some ==> old(self).index_ok(),
        ensures
            final(self).path == old(self).path,
            final(self).data == old(self).data,
            final(self).index_ok(),
            r == spec_line_byte_offset(old(self).data@, line_number),
    {
        if self.line_byte_offset_index.is_none() {
            self.build_line_byte_offset_index();
        }
        if line_number < 1 {
            return Err(ErrorSource::LineNumberCannotBeZero);
        }
        if line_number == 1 {
            return Ok(Some(0));
        }
        match &self.line_byte_offset_index {
            Some(index) => {
                let i = (line_number - 2) as usize;
                if i < index.len() {
                    Ok(Some(index[i]))
                } else {
                    Ok(None)
                }
            },
            None => {
                // The index was built above.
                assert(false);
                Ok(None)
            },
        }
    }
}

/// What looking up the first byte offset of a line returns: an error for
/// line 0, offset 0 for line 1, the indexed offset for lines that exist, and
/// nothing for lines past the end.
pub open spec fn spec_line_byte_offset(data: Seq<u8>, line_number: LineNumber) -> Result<
    Option<usize>,
    ErrorSource,
> {
    match spec_line_offset(data, line_number) {
        Ok(o) => Ok(o),
        Err(_) => Err(ErrorSource::LineNumberCannotBeZero),
    }
}

/// A context for managing source files.
///
/// Sources are only added, never removed or replaced, so a [`SourceRef`]
/// handed out by the context stays valid for the context's whole lifetime.
pub struct SourceContext {
    sources: Vec<SourceData>,
    source_id_counter: SourceId,
}

impl SourceContext {
    /// Every source in the context has its line index built and is small
    /// enough that line and column numbers fit in 32 bits.
    pub closed spec fn wf(self) -> bool {
        &&& self.source_id_counter == self.sources@.len()
        &&& forall|i: int|
            0 <= i < self.sources@.len() ==> (#[trigger] self.sources@[i]).index_ok()
                && self.sources@[i].data@.len() <= MAX_SOURCE_LEN
    }

    /// The sources loaded so far.
    pub closed spec fn spec_sources(self) -> Seq<SourceData> {
        self.sources@
    }

    pub fn new() -> (r: SourceContext)
        ensures
            r.wf(),
            r.spec_sources().len() == 0,
    {
        SourceContext { sources: Vec::new(), source_id_counter: 0 }
    }

    /// Add a new source from raw byte data; fails when the path is empty.
    pub fn add_raw(&mut self, path: &str, data: Vec<u8>) -> (r: Result<SourceRef, ErrorSource>)
        requires
            old(self).wf(),
            old(self).spec_sources().len() < usize::MAX,
            data@.len() <= MAX_SOURCE_LEN,
        ensures
            final(self).wf(),
            path@.len() == 0 ==> (r matches Err(e) && e == ErrorSource::EmptyPath
                && *final(self) == *old(self)),
            path@.len() > 0 ==> final(self).spec_sources().len() == old(self).spec_sources().len()
                + 1 && (r matches Ok(sref) && sref.wf() && sref.spec_id() == old(
                self,
            ).spec_sources().len() && sref.spec_path() == path@ && sref.spec_data() == data@),
            path@.len() > 0 ==> final(self).spec_sources().take(
                old(self).spec_sources().len() as int,
            ) == old(self).spec_sources() && final(self).spec_sources().last().path@ == path@
                && final(self).spec_sources().last().data@ == data@,
    {
        if path.unicode_len() == 0 {
            return Err(ErrorSource::EmptyPath);
        }

        let id = self.source_id_counter;
        self.source_id_counter = self.source_id_counter + 1;

        let mut source = SourceData {
            path: String::from_str(path),
            data,
            line_byte_offset_index: None,
        };
        source.build_line_byte_offset_index();
        self.sources.push(source);
        proof {
            assert(self.sources@.take(self.sources@.len() - 1) =~= old(self).spec_sources());
        }

        Ok(SourceRef { context: self, id })
    }

    /// Add a new source from string data.
    pub fn add_from_string(&mut self, path: &str, data: String) -> (r: Result<
        SourceRef,
        ErrorSource,
    >)
        requires
            old(self).wf(),
            old(self).spec_sources().len() < usize::MAX,
            vstd::utf8::encode_utf8(data@).len() <= MAX_SOURCE_LEN,
        ensures
            final(self).wf(),
            path@.len() == 0 ==> (r matches Err(e) && e == ErrorSource::EmptyPath
                && *final(self) == *old(self)),
            path@.len() > 0 ==> final(self).spec_sources().len() == old(self).spec_sources().len()
                + 1 && (r matches Ok(sref) && sref.wf() && sref.spec_id() == old(
                self,
            ).spec_sources().len() && sref.spec_path() == path@ && sref.spec_data()
                == vstd::utf8::encode_utf8(data@)),
            path@.len() > 0 ==> final(self).spec_sources().take(
                old(self).spec_sources().len() as int,
            ) == old(self).spec_sources() && final(self).spec_sources().last().path@ == path@
                && final(self).spec_sources().last().data@ == vstd::utf8::encode_utf8(data@),
    {
        let bytes = string_to_bytes(&data);
        self.add_raw(path, bytes)
    }
}

/// Copy a string's underlying UTF-8 bytes.
fn string_to_bytes(data: &String) -> (r: Vec<u8>)
    ensures
        r@ == vstd::utf8::encode_utf8(data@),
{
    let raw = data.as_str().as_bytes();
    let mut bytes: Vec<u8> = Vec::new();
    let mut i: usize = 0;
    while i < raw.len()
        invariant
            raw@ == vstd::utf8::encode_utf8(data@),
            i <= raw@.len(),
            bytes@ == raw@.take(i as int),
        decreases raw@.len() - i,
    {
        bytes.push(raw[i]);
        proof {
            assert(bytes@ =~= raw@.take(i + 1));
        }
        i = i + 1;
    }
    proof {
        assert(raw@.take(raw@.len() as int) =~= raw@);
    }
    bytes
}

/// A cheap handle to one source held by a [`SourceContext`].
#[derive(Clone, Copy)]
pub struct SourceRef<'source_context> {
    context: &'source_context SourceContext,
    id: SourceId,
}

impl<'source_context> SourceRef<'source_context> {
    /// The handle points at a loaded source whose line index is built.
    pub closed spec fn wf(self) -> bool {
        &&& self.id < self.context.sources@.len()
        &&& self.context.sources@[self.id as int].index_ok()
        &&& self.context.sources@[self.id as int].data@.len() <= MAX_SOURCE_LEN
    }

    /// The id of the source this handle points at.
    pub closed spec fn spec_id(self) -> SourceId {
        self.id
    }

    /// The bytes of the source this handle points at.
    pub closed spec fn spec_data(self) -> Seq<u8> {
        self.context.sources@[self.id as int].data@
    }

    /// The path of the source this handle points at.
    pub closed spec fn spec_path(self) -> Seq<char> {
        self.context.sources@[self.id as int].path@
    }

    /// The path of the source file on the filesystem; `"--"` stands for text
    /// that was not read from a file.
    pub fn path(&self) -> (r: &str)
        requires
            self.wf(),
        ensures
            r@ == self.spec_path(),
    {
        self.context.sources[self.id].path.as_str()
    }

    /// The data of the source file in bytes.
    pub fn data(&self) -> (r: &'source_context [u8])
        requires
            self.wf(),
        ensures
            r@ == self.spec_data(),
    {
        self.context.sources[self.id].data.as_slice()
    }

    /// Get the location of the first byte of a line; `O(1)` because the line
    /// index was built when the source was loaded.
    ///
    /// Line 1 always starts at byte offset 0, a line past the end of the
    /// source yields `None`, and line 0 is an error. A line's first byte is
    /// never in the middle of a grapheme cluster: it is either the start of
    /// the source or the byte just after a line break.
    pub fn get_first_location_of_line(&self, line_number: LineNumber) -> (r: Result<
        Option<SourceLocation<'source_context>>,
        ErrorSource,
    >)
        requires
            self.wf(),
        ensures
            match spec_line_byte_offset(self.spec_data(), line_number) {
                Err(e) => r matches Err(e2) && e2 == e,
                Ok(Some(off)) => r matches Ok(o) && o matches Some(loc) && loc.source == *self
                    && loc.byte_offset == off && loc.line_number == line_number
                    && loc.column_number == 1 && loc.wf(),
                Ok(None) => r matches Ok(o) && o is None,
            },
    {
        proof {
            crate::source::domain::lemma_line_starts_bounds(self.spec_data(), 0);
        }
        if line_number < 1 {
            return Err(ErrorSource::LineNumberCannotBeZero);
        }
        if line_number == 1 {
            return Ok(
                Some(
                    SourceLocation {
                        source: *self,
                        byte_offset: 0,
                        line_number,
                        column_number: 1,
                    },
                ),
            );
        }
        match &self.context.sources[self.id].line_byte_offset_index {
            Some(index) => {
                let i = (line_number - 2) as usize;
                if i < index.len() {
                    Ok(
                        Some(
                            SourceLocation {
                                source: *self,
                                byte_offset: index[i],
                                line_number,
                                column_number: 1,
                            },
                        ),
                    )
                } else {
                    Ok(None)
                }
            },
            None => {
                // The context's well-formedness says every index is built.
                assert(false);
                Ok(None)
            },
        }
    }
}

/// A referenced location within a source.
///
/// The byte offset addresses a byte; the line number and the column number
/// are the 1-based human-readable coordinates of that byte, columns counted
/// in grapheme clusters. Locations are compared by their byte offsets only.
#[derive(Clone, Copy)]
pub struct SourceLocation<'source_context> {
    /// A reference to the source file, for convenience.
    pub source: SourceRef<'source_context>,
    /// The offset of the location, in bytes.
    pub byte_offset: SourceByteOffset,
    /// The line number of the location, starting at 1.
    pub line_number: LineNumber,
    /// The column number of the location, starting at 1, counted in grapheme
    /// clusters.
    pub column_number: ColumnNumber,
}

impl<'source_context> SourceLocation<'source_context> {
    /// The location lies inside its source and its line and column stay
    /// small enough that advancing one step cannot overflow them.
    pub open spec fn wf(self) -> bool {
        &&& self.source.wf()
        &&& self.source.spec_data().len() <= MAX_SOURCE_LEN
        &&& self.byte_offset <= self.source.spec_data().len()
        &&& 1 <= self.line_number
        &&& 1 <= self.column_number
        &&& self.line_number + self.column_number <= self.byte_offset + 2
    }

    /// Create a new source location from raw coordinates; line and column
    /// numbers start at 1, and 0 is rejected for either.
    pub fn new(
        source: SourceRef<'source_context>,
        byte_offset: SourceByteOffset,
        line_number: LineNumber,
        column_number: ColumnNumber,
    ) -> (r: Result<SourceLocation<'source_context>, ErrorSource>)
        ensures
            line_number == 0 ==> (r matches Err(e) && e == ErrorSource::LineNumberCannotBeZero),
            line_number >= 1 && column_number == 0 ==> (r matches Err(e) && e
                == ErrorSource::ColumnNumberCannotBeZero),
            line_number >= 1 && column_number >= 1 ==> (r matches Ok(loc) && loc.source == source
                && loc.byte_offset == byte_offset && loc.line_number == line_number
                && loc.column_number == column_number),
    {
        if line_number < 1 {
            return Err(ErrorSource::LineNumberCannotBeZero);
        }
        if column_number < 1 {
            return Err(ErrorSource::ColumnNumberCannotBeZero);
        }
        Ok(SourceLocation { source, byte_offset, line_number, column_number })
    }

    /// The location of the very first byte of a source.
    pub fn new_at_start(source: SourceRef<'source_context>) -> (r: SourceLocation<
        'source_context,
    >)
        ensures
            r.source == source,
            r.byte_offset == 0,
            r.line_number == 1,
            r.column_number == 1,
            source.wf() ==> r.wf(),
    {
        SourceLocation { source, byte_offset: 0, line_number: 1, column_number: 1 }
    }

    /// The bytes between two locations, whichever comes first, including the
    /// byte at the later location.
    pub fn bytes_between(&self, other: &Self) -> (r: &[u8])
        requires
            self.wf(),
            self.source == other.source,
            self.byte_offset < self.source.spec_data().len(),
            other.byte_offset < self.source.spec_data().len(),
        ensures
            self.byte_offset < other.byte_offset ==> r@ == self.source.spec_data().subrange(
                self.byte_offset as int,
                other.byte_offset + 1,
            ),
            self.byte_offset >= other.byte_offset ==> r@ == self.source.spec_data().subrange(
                other.byte_offset as int,
                self.byte_offset + 1,
            ),
    {
        let data = self.source.data();
        if self.byte_offset < other.byte_offset {
            vstd::slice::slice_subrange(data, self.byte_offset, other.byte_offset + 1)
        } else {
            vstd::slice::slice_subrange(data, other.byte_offset, self.byte_offset + 1)
        }
    }

    /// The text between two locations, whichever comes first, including the
    /// grapheme at the later location; bytes that are not valid UTF-8 come
    /// out as replacement characters.
    pub fn string_between(&self, other: &Self) -> (r: String)
        requires
            self.wf(),
            self.source == other.source,
            self.byte_offset < self.source.spec_data().len(),
            other.byte_offset < self.source.spec_data().len(),
        ensures
            self.byte_offset < other.byte_offset ==> r@ == utf8_lossy_chars(
                self.source.spec_data().subrange(self.byte_offset as int, other.byte_offset + 1),
            ),
            self.byte_offset >= other.byte_offset ==> r@ == utf8_lossy_chars(
                self.source.spec_data().subrange(other.byte_offset as int, self.byte_offset + 1),
            ),
    {
        bytes_to_string_lossy(self.bytes_between(other))
    }
}

} // verus!
