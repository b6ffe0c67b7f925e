use vstd::prelude::*;

use crate::lexing::token::Token;

verus! {

/// A saved state of a [`TokenReader`], used to backtrack to a previous
/// position while parsing speculatively.
#[derive(Clone, Copy)]
pub struct TokenReaderState {
    current_offset: usize,
}

impl TokenReaderState {
    /// The position the state stands for.
    pub closed spec fn spec_offset(self) -> usize {
        self.current_offset
    }

    /// The position the state stands for.
    pub fn offset(&self) -> (r: usize)
        ensures
            r == self.spec_offset(),
    {
        self.current_offset
    }
}

/// A reader that walks a fixed list of tokens, with cheap snapshot and
/// rewind: the whole reader state is one index.
pub struct TokenReader<'source_context> {
    tokens: Vec<Token<'source_context>>,
    state: TokenReaderState,
}

impl<'source_context> TokenReader<'source_context> {
    /// The tokens being read; they never change after construction.
    pub closed spec fn spec_tokens(self) -> Seq<Token<'source_context>> {
        self.tokens@
    }

    /// The position of the reader.
    pub closed spec fn spec_offset(self) -> usize {
        self.state.current_offset
    }

    /// The position lies within the token list.
    pub open spec fn wf(self) -> bool {
        self.spec_offset() <= self.spec_tokens().len()
    }

    pub fn new(tokens: Vec<Token<'source_context>>) -> (r: TokenReader<'source_context>)
        ensures
            r.wf(),
            r.spec_tokens() == tokens@,
            r.spec_offset() == 0,
    {
        TokenReader { tokens, state: TokenReaderState { current_offset: 0 } }
    }

    /// Whether any tokens remain to be read.
    pub fn is_more(&self) -> (r: bool)
        ensures
            r == (self.spec_offset() < self.spec_tokens().len()),
    {
        self.state.current_offset < self.tokens.len()
    }

    /// The next token without advancing; `None` when none remain.
    pub fn peek_next(&self) -> (r: Option<&Token<'source_context>>)
        ensures
            self.spec_offset() < self.spec_tokens().len() ==> (r matches Some(t) && *t
                == self.spec_tokens()[self.spec_offset() as int]),
            self.spec_offset() >= self.spec_tokens().len() ==> r is None,
    {
        if self.state.current_offset < self.tokens.len() {
            Some(&self.tokens[self.state.current_offset])
        } else {
            None
        }
    }

    /// The next token, advancing past it; `None` when none remain.
    pub fn read_next(&mut self) -> (r: Option<&Token<'source_context>>)
        requires
            old(self).wf(),
        ensures
            final(self).wf(),
            final(self).spec_tokens() == old(self).spec_tokens(),
            old(self).spec_offset() < old(self).spec_tokens().len() ==> (r matches Some(t) && *t
                == old(self).spec_tokens()[old(self).spec_offset() as int]
                && final(self).spec_offset() == old(self).spec_offset() + 1),
            old(self).spec_offset() >= old(self).spec_tokens().len() ==> r is None && *final(self)
                == *old(self),
    {
        if self.state.current_offset < self.tokens.len() {
            let token = &self.tokens[self.state.current_offset];
            self.state.current_offset = self.state.current_offset + 1;
            Some(token)
        } else {
            None
        }
    }

    /// Save the current position, to be restored later.
    pub fn save_state(&self) -> (r: TokenReaderState)
        ensures
            r.spec_offset() == self.spec_offset(),
    {
        TokenReaderState { current_offset: self.state.current_offset }
    }

    /// Rewind the reader to a previously saved position.
    pub fn restore_state(&mut self, state: TokenReaderState)
        requires
            state.spec_offset() <= old(self).spec_tokens().len(),
        ensures
            final(self).wf(),
            final(self).spec_tokens() == old(self).spec_tokens(),
            final(self).spec_offset() == state.spec_offset(),
    {
        self.state = state;
    }
}

} // verus!
