use vstd::prelude::*;

use crate::source::error::SourceError;
use vstd::string::StringSliceAdditionalSpecFns;

verus! {

/// The id of a loaded source, used to discriminate between sources.
pub type SourceId = usize;

/// A byte offset into a source.
pub type SourceOffset = usize;

/// A line number in a source, starting at 1.
pub type LineNumber = u32;

/// A column number in a source, starting at 1, counted in grapheme clusters.
pub type ColumnNumber = u32;

/// The largest source size accepted, chosen so that line and column numbers
/// always fit in 32 bits and grapheme counts with tabs expanded cannot
/// overflow.
pub const MAX_SOURCE_LEN: usize = 0x3fff_fffd;

/// The offset `candidate`, as a one-element sequence if it lies inside the
/// data, and the empty sequence if it lies at or past the end.
pub open spec fn line_start_if_inside(data: Seq<u8>, candidate: int) -> Seq<int> {
    if candidate < data.len() {
        seq![candidate]
    } else {
        Seq::empty()
    }
}

/// The byte offsets of the first byte of every line after line 1, scanning
/// from `offset`: `\n`, `\r\n` and lone `\r` each end a line, and a break at
/// the very end of the data starts no new line.
pub open spec fn line_starts(data: Seq<u8>, offset: int) -> Seq<int>
    decreases data.len() - offset,
{
    if offset < 0 || offset >= data.len() {
        Seq::empty()
    } else if data[offset] == 10u8 {
        line_start_if_inside(data, offset + 1) + line_starts(data, offset + 1)
    } else if data[offset] == 13u8 && offset + 1 < data.len() && data[offset + 1] == 10u8 {
        line_start_if_inside(data, offset + 2) + line_starts(data, offset + 2)
    } else if data[offset] == 13u8 {
        line_start_if_inside(data, offset + 1) + line_starts(data, offset + 1)
    } else {
        line_starts(data, offset + 1)
    }
}

/// Every line start produced by scanning from `offset` lies strictly between
/// `offset + i` and the end of the data.
pub proof fn lemma_line_starts_bounds(data: Seq<u8>, offset: int)
    ensures
        forall|i: int|
            0 <= i < line_starts(data, offset).len() ==> offset + i < #[trigger] line_starts(
                data,
                offset,
            )[i] < data.len(),
    decreases data.len() - offset,
{
    if offset < 0 || offset >= data.len() {
    } else {
        let next = if data[offset] == 13u8 && offset + 1 < data.len() && data[offset + 1]
            == 10u8 {
            offset + 2
        } else {
            offset + 1
        };
        lemma_line_starts_bounds(data, next);
        let s = line_starts(data, offset);
        let rest = line_starts(data, next);
        if data[offset] == 10u8 || data[offset] == 13u8 {
            assert(s == line_start_if_inside(data, next) + rest);
            assert forall|i: int| 0 <= i < s.len() implies offset + i < #[trigger] s[i]
                < data.len() by {
                if next < data.len() {
                    if i > 0 {
                        assert(s[i] == rest[i - 1]);
                    }
                }
            }
        } else {
            assert(s == rest);
        }
    }
}

/// What looking up the first byte offset of a line returns: an error for line
/// 0, offset 0 for line 1, the indexed offset for lines that exist, and
/// nothing for lines past the end.
pub open spec fn spec_line_offset(data: Seq<u8>, line_number: u32) -> Result<
    Option<usize>,
    SourceError,
> {
    let starts = line_starts(data, 0);
    if line_number == 0 {
        Err(SourceError::LineNumberCannotBeZero)
    } else if line_number == 1 {
        Ok(Some(0usize))
    } else if line_number - 2 < starts.len() {
        Ok(Some(starts[line_number - 2] as usize))
    } else {
        Ok(None)
    }
}

/// The view of a vector of offsets as a sequence of mathematical integers.
pub open spec fn offsets_view(offsets: Seq<usize>) -> Seq<int> {
    offsets.map_values(|o: usize| o as int)
}

/// The data loaded from one source file, with its lazily built index of line
/// start offsets.
pub struct SourceData {
    pub path: String,
    pub data: Vec<u8>,
    pub line_offset_index: Option<Vec<usize>>,
}

impl SourceData {
    /// The index has been built and holds exactly the line starts of the data.
    pub open spec fn index_ok(self) -> bool {
        &&& self.line_offset_index is Some
        &&& offsets_view(self.line_offset_index->0@) == line_starts(self.data@, 0)
    }

    /// Scan the whole data once and record the offset of the first byte of
    /// every line after line 1.
    pub fn build_line_offset_index(&mut self)
        ensures
            final(self).path == old(self).path,
            final(self).data == old(self).data,
            final(self).index_ok(),
    {
        let mut line_offset_index: Vec<usize> = Vec::new();
        let mut offset: usize = 0;

        while offset < self.data.len()
            invariant
                *self == *old(self),
                offset <= self.data@.len(),
                offsets_view(line_offset_index@) + line_starts(self.data@, offset as int)
                    == line_starts(self.data@, 0),
            decreases self.data@.len() - offset,
        {
            let ghost prev_index = line_offset_index@;
            let ghost at = offset as int;

            if self.data[offset] == 10u8 {
                if offset + 1 < self.data.len() {
                    line_offset_index.push(offset + 1);
                }
                proof {
                    assert(offsets_view(line_offset_index@) =~= offsets_view(prev_index)
                        + line_start_if_inside(self.data@, at + 1));
                }
                offset = offset + 1;
            } else if self.data[offset] == 13u8 {
                if offset + 1 < self.data.len() && self.data[offset + 1] == 10u8 {
                    if offset + 2 < self.data.len() {
                        line_offset_index.push(offset + 2);
                    }
                    proof {
                        assert(offsets_view(line_offset_index@) =~= offsets_view(prev_index)
                            + line_start_if_inside(self.data@, at + 2));
                    }
                    offset = offset + 2;
                } else {
                    if offset + 1 < self.data.len() {
                        line_offset_index.push(offset + 1);
                    }
                    proof {
                        assert(offsets_view(line_offset_index@) =~= offsets_view(prev_index)
                            + line_start_if_inside(self.data@, at + 1));
                    }
                    offset = offset + 1;
                }
            } else {
                offset = offset + 1;
            }
        }

        self.line_offset_index = Some(line_offset_index);
    }

    /// Read the offset of the first byte of the given line out of the built
    /// index.
    pub fn lookup_line_offset(&self, line_number: LineNumber) -> (r: Result<
        Option<SourceOffset>,
        SourceError,
    >)
        requires
            self.index_ok(),
        ensures
            r == spec_line_offset(self.data@, line_number),
    {
        if line_number < 1 {
            return Err(SourceError::LineNumberCannotBeZero);
        }
        if line_number == 1 {
            return Ok(Some(0));
        }
        match &self.line_offset_index {
            Some(index) => {
                let i = (line_number - 2) as usize;
                if i < index.len() {
                    Ok(Some(index[i]))
                } else {
                    Ok(None)
                }
            },
            None => {
                // The precondition says the index is built.
                assert(false);
                Ok(None)
            },
        }
    }

    /// Get the offset of the first byte of the given line, building the index
    /// on the first query.
    pub fn get_line_offset(&mut self, line_number: LineNumber) -> (r: Result<
        Option<SourceOffset>,
        SourceError,
    >)
        requires
            old(self).line_offset_index is Some ==> old(self).index_ok(),
        ensures
            final(self).path == old(self).path,
            final(self).data == old(self).data,
            final(self).index_ok(),
            r == spec_line_offset(old(self).data@, line_number),
    {
        if self.line_offset_index.is_none() {
            self.build_line_offset_index();
        }
        self.lookup_line_offset(line_number)
    }
}

/// A context owning all loaded sources.
///
/// Sources are only added, never removed or replaced, so a [`SourceRef`]
/// handed out by [`SourceContext::add_raw`] stays valid for the context's
/// whole lifetime.
pub struct SourceContext {
    sources: Vec<SourceData>,
    source_id_counter: SourceId,
}

impl SourceContext {
    /// Every source in the context has its line index built and is small
    /// enough that line and column numbers fit in 32 bits.
    pub closed spec fn wf(self) -> bool {
        &&& self.source_id_counter == self.sources@.len()
        &&& forall|i: int|
            0 <= i < self.sources@.len() ==> (#[trigger] self.sources@[i]).index_ok()
                && self.sources@[i].data@.len() <= MAX_SOURCE_LEN
    }

    /// The sources loaded so far.
    pub closed spec fn spec_sources(self) -> Seq<SourceData> {
        self.sources@
    }

    pub fn new() -> (r: SourceContext)
        ensures
            r.wf(),
            r.spec_sources().len() == 0,
    {
        SourceContext { sources: Vec::new(), source_id_counter: 0 }
    }

    /// Add a new source from raw byte data; fails when the path is empty.
    pub fn add_raw(&mut self, path: String, data: Vec<u8>) -> (r: Result<SourceRef, SourceError>)
        requires
            old(self).wf(),
            old(self).spec_sources().len() < usize::MAX,
            data@.len() <= MAX_SOURCE_LEN,
        ensures
            final(self).wf(),
            path@.len() == 0 ==> (r matches Err(e) && e == SourceError::EmptyPath
                && *final(self) == *old(self)),
            path@.len() > 0 ==> final(self).spec_sources().len() == old(self).spec_sources().len()
                + 1 && (r matches Ok(sref) && sref.wf() && sref.spec_id() == old(
                self,
            ).spec_sources().len() && sref.spec_path() == path@ && sref.spec_data() == data@),
            path@.len() > 0 ==> final(self).spec_sources().take(
                old(self).spec_sources().len() as int,
            ) == old(self).spec_sources() && final(self).spec_sources().last().path@ == path@
                && final(self).spec_sources().last().data@ == data@,
    {
        if path.as_str().unicode_len() == 0 {
            return Err(SourceError::EmptyPath);
        }

        let id = self.next_id();

        let mut source = SourceData { path, data, line_offset_index: None };
        source.build_line_offset_index();
        self.sources.push(source);
        proof {
            assert(self.sources@.take(self.sources@.len() - 1) =~= old(self).spec_sources());
        }

        Ok(SourceRef { context: self, id })
    }

    /// Add a new source from string data.
    pub fn add_from_str(&mut self, path: String, data: &str) -> (r: Result<
        SourceRef,
        SourceError,
    >)
        requires
            old(self).wf(),
            old(self).spec_sources().len() < usize::MAX,
            data.spec_bytes().len() <= MAX_SOURCE_LEN,
        ensures
            final(self).wf(),
            path@.len() == 0 ==> (r matches Err(e) && e == SourceError::EmptyPath
                && *final(self) == *old(self)),
            path@.len() > 0 ==> final(self).spec_sources().len() == old(self).spec_sources().len()
                + 1 && (r matches Ok(sref) && sref.wf() && sref.spec_id() == old(
                self,
            ).spec_sources().len() && sref.spec_path() == path@ && sref.spec_data()
                == data.spec_bytes()),
            path@.len() > 0 ==> final(self).spec_sources().take(
                old(self).spec_sources().len() as int,
            ) == old(self).spec_sources() && final(self).spec_sources().last().path@ == path@
                && final(self).spec_sources().last().data@ == data.spec_bytes(),
    {
        let bytes = str_to_bytes(data);
        self.add_raw(path, bytes)
    }

    fn next_id(&mut self) -> (id: SourceId)
        requires
            old(self).wf(),
            old(self).spec_sources().len() < usize::MAX,
        ensures
            final(self).sources == old(self).sources,
            final(self).source_id_counter == old(self).source_id_counter + 1,
            id == old(self).source_id_counter,
    {
        let id = self.source_id_counter;
        self.source_id_counter = self.source_id_counter + 1;
        id
    }
}

/// Copy a string's underlying UTF-8 bytes.
fn str_to_bytes(data: &str) -> (r: Vec<u8>)
    ensures
        r@ == data.spec_bytes(),
{
    let raw = data.as_bytes();
    let mut bytes: Vec<u8> = Vec::new();
    let mut i: usize = 0;
    while i < raw.len()
        invariant
            raw@ == data.spec_bytes(),
            i <= raw@.len(),
            bytes@ == raw@.take(i as int),
        decreases raw@.len() - i,
    {
        bytes.push(raw[i]);
        proof {
            assert(bytes@ =~= raw@.take(i + 1));
        }
        i = i + 1;
    }
    proof {
        assert(raw@.take(raw@.len() as int) =~= raw@);
    }
    bytes
}

/// A cheap handle to one source held by a [`SourceContext`].
#[derive(Clone, Copy)]
pub struct SourceRef<'source_context> {
    context: &'source_context SourceContext,
    id: SourceId,
}

impl<'source_context> SourceRef<'source_context> {
    /// The handle points at a loaded source whose line index is built.
    pub closed spec fn wf(self) -> bool {
        &&& self.id < self.context.sources@.len()
        &&& self.context.sources@[self.id as int].index_ok()
        &&& self.context.sources@[self.id as int].data@.len() <= MAX_SOURCE_LEN
    }

    /// The id of the source this handle points at.
    pub closed spec fn spec_id(self) -> SourceId {
        self.id
    }

    /// The bytes of the source this handle points at.
    pub closed spec fn spec_data(self) -> Seq<u8> {
        self.context.sources@[self.id as int].data@
    }

    /// The path of the source this handle points at.
    pub closed spec fn spec_path(self) -> Seq<char> {
        self.context.sources@[self.id as int].path@
    }

    /// The path of the source file on the filesystem; `"--"` stands for text
    /// that was not read from a file.
    pub fn path(&self) -> (r: &str)
        requires
            self.wf(),
        ensures
            r@ == self.spec_path(),
    {
        self.context.sources[self.id].path.as_str()
    }

    /// The data of the source file in bytes.
    pub fn data(&self) -> (r: &'source_context [u8])
        requires
            self.wf(),
        ensures
            r@ == self.spec_data(),
    {
        self.context.sources[self.id].data.as_slice()
    }

    /// Get the location of the first byte of a line; `O(1)` because the line
    /// index was built when the source was loaded.
    ///
    /// Line 1 always starts at offset 0, a line past the end of the source
    /// yields `None`, and line 0 is an error.
    pub fn get_first_location_of_line(&self, line_number: LineNumber) -> (r: Result<
        Option<SourceLocation<'source_context>>,
        SourceError,
    >)
        requires
            self.wf(),
        ensures
            match spec_line_offset(self.spec_data(), line_number) {
                Err(e) => r matches Err(e2) && e2 == e,
                Ok(Some(off)) => r matches Ok(o) && o matches Some(loc) && loc.source == *self
                    && loc.offset == off && loc.line_number == line_number && loc.column_number
                    == 1 && loc.wf(),
                Ok(None) => r matches Ok(o) && o is None,
            },
    {
        proof {
            lemma_line_starts_bounds(self.spec_data(), 0);
        }
        match self.context.sources[self.id].lookup_line_offset(line_number) {
            Err(e) => Err(e),
            Ok(None) => Ok(None),
            Ok(Some(offset)) => Ok(
                Some(
                    SourceLocation {
                        source: *self,
                        offset,
                        line_number,
                        column_number: 1,
                    },
                ),
            ),
        }
    }
}

/// A location within a loaded source.
///
/// The offset addresses a byte; the line number and the column number are the
/// 1-based human-readable coordinates of that byte, columns counted in
/// grapheme clusters.
#[derive(Clone, Copy)]
pub struct SourceLocation<'source_context> {
    pub source: SourceRef<'source_context>,
    pub offset: SourceOffset,
    pub line_number: LineNumber,
    pub column_number: ColumnNumber,
}

impl<'source_context> SourceLocation<'source_context> {
    /// The location lies inside its source and its line and column stay small
    /// enough that advancing one step cannot overflow them.
    pub open spec fn wf(self) -> bool {
        &&& self.source.wf()
        &&& self.source.spec_data().len() <= MAX_SOURCE_LEN
        &&& self.offset <= self.source.spec_data().len()
        &&& 1 <= self.line_number
        &&& 1 <= self.column_number
        &&& self.line_number + self.column_number <= self.offset + 2
    }

    /// The location of the very first byte of a source.
    pub fn new(source: SourceRef<'source_context>) -> (r: SourceLocation<'source_context>)
        ensures
            r.source == source,
            r.offset == 0,
            r.line_number == 1,
            r.column_number == 1,
            source.wf() ==> r.wf(),
    {
        SourceLocation { source, offset: 0, line_number: 1, column_number: 1 }
    }

    /// The bytes from this location up to, and excluding, `other`.
    pub fn bytes_between(&self, other: &Self) -> (r: &[u8])
        requires
            self.wf(),
            self.source == other.source,
            self.offset <= other.offset,
            other.offset <= self.source.spec_data().len(),
        ensures
            r@ == self.source.spec_data().subrange(self.offset as int, other.offset as int),
    {
        let data = self.source.data();
        vstd::slice::slice_subrange(data, self.offset, other.offset)
    }

    /// The text from this location up to, and excluding, `other`; bytes that
    /// are not valid UTF-8 come out as replacement characters.
    pub fn string_between(&self, other: &Self) -> (r: String)
        requires
            self.wf(),
            self.source == other.source,
            self.offset <= other.offset,
            other.offset <= self.source.spec_data().len(),
        ensures
            r@ == crate::sourcing::segmentation::utf8_lossy_chars(
                self.source.spec_data().subrange(self.offset as int, other.offset as int),
            ),
    {
        crate::sourcing::segmentation::bytes_to_string_lossy(self.bytes_between(other))
    }
}

} // verus!

