use vstd::prelude::*;

use crate::sourcing::domain::SourceLocation;
use crate::sourcing::error::ErrorSource;
use crate::sourcing::reader::{
    spec_grapheme_advance, spec_grapheme_is_break, spec_peek_grapheme, SourceReader,
};
use crate::sourcing::segmentation::cluster_readable;
use crate::tokenizing::token::Token;

verus! {

/// A context that can be used for lexing: it reads grapheme clusters through
/// a [`SourceReader`], tracks the range of the pending token, and emits
/// finished tokens into its output list.
pub struct LexingContext<'source_context, TokenValue> {
    reader: SourceReader<'source_context>,
    tokens: Vec<Token<'source_context, TokenValue>>,
    token_first: SourceLocation<'source_context>,
    token_last: SourceLocation<'source_context>,
    last_grapheme_cluster: Option<String>,
}

impl<'source_context, TokenValue> LexingContext<'source_context, TokenValue> {
    /// The reader the context reads through.
    pub closed spec fn spec_reader(self) -> SourceReader<'source_context> {
        self.reader
    }

    /// The tokens emitted so far, in order.
    pub closed spec fn spec_tokens(self) -> Seq<Token<'source_context, TokenValue>> {
        self.tokens@
    }

    /// The location of the first grapheme of the pending token.
    pub closed spec fn spec_token_first(self) -> SourceLocation<'source_context> {
        self.token_first
    }

    /// The location of the last grapheme read into the pending token.
    pub closed spec fn spec_token_last(self) -> SourceLocation<'source_context> {
        self.token_last
    }

    /// The last grapheme cluster that was read, if any.
    pub closed spec fn spec_last_grapheme(self) -> Option<String> {
        self.last_grapheme_cluster
    }

    /// The reader lies inside its source and the pending range lies behind
    /// the reader, first before last.
    pub open spec fn wf(self) -> bool {
        &&& self.spec_reader().wf()
        &&& self.spec_token_first().source == self.spec_reader().spec_location().source
        &&& self.spec_token_last().source == self.spec_reader().spec_location().source
        &&& self.spec_token_first().byte_offset <= self.spec_token_last().byte_offset
        &&& self.spec_token_last().byte_offset
            <= self.spec_reader().spec_location().byte_offset
    }

    /// Begin lexing at the reader's current position, with no tokens emitted
    /// and nothing pending.
    pub fn new(reader: SourceReader<'source_context>) -> (r: LexingContext<
        'source_context,
        TokenValue,
    >)
        requires
            reader.wf(),
        ensures
            r.wf(),
            r.spec_reader() == reader,
            r.spec_tokens().len() == 0,
            r.spec_token_first() == reader.spec_location(),
            r.spec_last_grapheme() is None,
    {
        let current_location = reader.current_location();
        LexingContext {
            reader,
            tokens: Vec::new(),
            token_first: current_location,
            token_last: current_location,
            last_grapheme_cluster: None,
        }
    }

    /// Hand back the emitted tokens, consuming the context.
    pub fn into_tokens(self) -> (r: Vec<Token<'source_context, TokenValue>>)
        ensures
            r@ == self.spec_tokens(),
    {
        self.tokens
    }

    /// Whether there are more grapheme clusters to read; an incomplete
    /// trailing cluster still counts.
    pub fn is_more(&self) -> (r: bool)
        requires
            self.wf(),
        ensures
            r == (self.spec_reader().spec_location().byte_offset
                < self.spec_reader().spec_data().len()),
    {
        self.reader.is_more()
    }

    /// Peek at the next grapheme cluster without advancing.
    pub fn peek_next_grapheme_cluster(&self) -> (r: Result<String, ErrorSource>)
        requires
            self.wf(),
        ensures
            (r matches Err(e) && e == ErrorSource::NoMoreToBeRead) <==> self.spec_reader().spec_location().byte_offset >= self.spec_reader().spec_data().len(),
            self.spec_reader().spec_location().byte_offset < self.spec_reader().spec_data().len()
                ==> ((r is Ok) <==> cluster_readable(
                self.spec_reader().spec_data(),
                self.spec_reader().spec_location().byte_offset as int,
            )),
            r matches Ok(cluster) ==> cluster@ == spec_peek_grapheme(
                self.spec_reader().spec_data(),
                self.spec_reader().spec_location().byte_offset as int,
            ),
    {
        self.reader.peek_next_grapheme_cluster()
    }

    /// Read the next grapheme cluster: the pending token extends over it,
    /// and it is remembered for lookbehind.
    pub fn read_next_grapheme_cluster(&mut self) -> (r: Result<String, ErrorSource>)
        requires
            old(self).wf(),
        ensures
            final(self).wf(),
            final(self).spec_tokens() == old(self).spec_tokens(),
            final(self).spec_token_first() == old(self).spec_token_first(),
            final(self).spec_reader().spec_location().source == old(self).spec_reader().spec_location().source,
            (r matches Err(e) && e == ErrorSource::NoMoreToBeRead) <==> old(self).spec_reader().spec_location().byte_offset >= old(self).spec_reader().spec_data().len(),
            old(self).spec_reader().spec_location().byte_offset < old(
                self,
            ).spec_reader().spec_data().len() ==> ((r is Ok) <==> cluster_readable(
                old(self).spec_reader().spec_data(),
                old(self).spec_reader().spec_location().byte_offset as int,
            )),
            r matches Ok(cluster) ==> final(self).spec_reader().spec_location().byte_offset > old(
                self,
            ).spec_reader().spec_location().byte_offset,
            r matches Ok(cluster) ==> ({
                let data = old(self).spec_reader().spec_data();
                let p = old(self).spec_reader().spec_location().byte_offset as int;
                &&& (data[p] == 13u8 ==> final(self).spec_reader().spec_location().byte_offset
                    == (if p + 1 < data.len() && data[p + 1] == 10u8 {
                    p + 2
                } else {
                    p + 1
                }))
                &&& (data[p] == 10u8 ==> final(self).spec_reader().spec_location().byte_offset == p
                    + 1)
                &&& ((data[p] < 128u8 && data[p] != 13u8 && data[p] != 10u8 && (p + 1 == data.len()
                    || data[p + 1] < 128u8)) ==> final(self).spec_reader().spec_location().byte_offset == p + 1 && cluster@ == seq![data[p] as char])
            }),
            r matches Ok(cluster) ==> {
                let data = old(self).spec_reader().spec_data();
                let p = old(self).spec_reader().spec_location().byte_offset as int;
                &&& cluster@ == spec_peek_grapheme(data, p)
                &&& final(self).spec_reader().spec_location().byte_offset
                    == spec_grapheme_advance(data, p)
                &&& final(self).spec_token_last() == old(self).spec_reader().spec_location()
                &&& final(self).spec_last_grapheme() matches Some(g) && g@ == cluster@
            },
            r is Err ==> final(self).spec_reader() == old(self).spec_reader(),
    {
        self.token_last = self.reader.current_location();

        match self.reader.read_next_grapheme_cluster() {
            Ok(grapheme_cluster) => {
                let remembered = clone_string(&grapheme_cluster);
                self.last_grapheme_cluster = Some(remembered);
                Ok(grapheme_cluster)
            },
            Err(error) => Err(error),
        }
    }

    /// Whether any grapheme clusters have been read since lexing began or
    /// since the last token was popped or skipped; when this is false,
    /// popping does nothing.
    pub fn has_token(&self) -> (r: bool)
        requires
            self.wf(),
        ensures
            r == (self.spec_token_first().byte_offset
                < self.spec_reader().spec_location().byte_offset),
    {
        self.token_first.byte_offset < self.reader.current_location().byte_offset
    }

    /// The current location in the source.
    pub fn current_location(&self) -> (r: SourceLocation<'source_context>)
        ensures
            r == self.spec_reader().spec_location(),
    {
        self.reader.current_location()
    }

    /// Pop a token with the given value, if one is pending: the token spans
    /// the pending range, and the pending range resets to the current
    /// position.
    pub fn pop_token(&mut self, value: TokenValue) -> (r: bool)
        requires
            old(self).wf(),
        ensures
            final(self).wf(),
            final(self).spec_reader() == old(self).spec_reader(),
            r == (old(self).spec_token_first().byte_offset < old(self).spec_reader().spec_location().byte_offset),
            r ==> final(self).spec_tokens().len() == old(self).spec_tokens().len() + 1 && (final(self).spec_tokens().last().value == value && final(self).spec_tokens().last().first == old(self).spec_token_first() && final(self).spec_tokens().last().last == old(self).spec_token_last()) && final(self).spec_tokens().take(
                old(self).spec_tokens().len() as int,
            ) == old(self).spec_tokens() && final(self).spec_token_first() == old(self).spec_reader().spec_location() && final(self).spec_token_last() == old(self).spec_reader().spec_location(),
            final(self).spec_last_grapheme() == old(self).spec_last_grapheme(),
            !r ==> *final(self) == *old(self),
    {
        if self.has_token() {
            let token = Token::new(value, self.token_first, self.token_last);
            self.token_first = self.reader.current_location();
            self.token_last = self.reader.current_location();
            self.tokens.push(token);
            proof {
                assert(self.tokens@.take(self.tokens@.len() - 1) =~= old(self).spec_tokens());
            }
            true
        } else {
            false
        }
    }

    /// Skip the pending token: the pending range resets to the current
    /// position and nothing is emitted.
    pub fn skip_token(&mut self) -> (r: bool)
        requires
            old(self).wf(),
        ensures
            final(self).wf(),
            final(self).spec_reader() == old(self).spec_reader(),
            final(self).spec_tokens() == old(self).spec_tokens(),
            r == (old(self).spec_token_first().byte_offset < old(self).spec_reader().spec_location().byte_offset),
            r ==> final(self).spec_token_first() == old(self).spec_reader().spec_location()
                && final(self).spec_token_last() == old(self).spec_reader().spec_location(),
            final(self).spec_last_grapheme() == old(self).spec_last_grapheme(),
            !r ==> *final(self) == *old(self),
    {
        if self.has_token() {
            self.token_first = self.reader.current_location();
            self.token_last = self.reader.current_location();
            true
        } else {
            false
        }
    }

    /// The last grapheme cluster that was read; helpful as context for the
    /// current one, for example to detect escapes.
    pub fn last_grapheme_cluster(&self) -> (r: Option<&str>)
        ensures
            match self.spec_last_grapheme() {
                Some(g) => r matches Some(s) && s@ == g@,
                None => r is None,
            },
    {
        match &self.last_grapheme_cluster {
            Some(cluster) => Some(cluster.as_str()),
            None => None,
        }
    }
}

/// A copy of a string.
fn clone_string(s: &String) -> (r: String)
    ensures
        r@ == s@,
{
    String::from_str(s.as_str())
}

} // verus!
