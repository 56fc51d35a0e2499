//! The token cursor: an ordered, immutable sequence of string tokens plus a
//! consumption depth. Snapshots are cheap (the token list is borrowed, only
//! the depth is copied), so callers can attempt a speculative match and keep
//! the snapshot only when it succeeds.

use vstd::prelude::*;

verus! {

/// A cursor over a fixed token list. `depth` counts the tokens consumed so
/// far and never exceeds the token count.
#[derive(Clone, Copy)]
pub struct Segments<'a> {
    tokens: &'a Vec<String>,
    depth: usize,
}

impl<'a> Segments<'a> {
    /// The token list as a sequence of character sequences.
    pub closed spec fn toks(self) -> Seq<Seq<char>> {
        self.tokens.deep_view()
    }

    /// The number of tokens consumed so far.
    pub closed spec fn spec_depth(self) -> int {
        self.depth as int
    }

    pub open spec fn wf(self) -> bool {
        0 <= self.spec_depth() <= self.toks().len()
    }

    /// A fresh cursor at depth zero.
    pub fn new(tokens: &'a Vec<String>) -> (r: Segments<'a>)
        ensures
            r.toks() == tokens.deep_view(),
            r.spec_depth() == 0,
            r.wf(),
    {
        assert(tokens.deep_view().len() == tokens@.len());
        Segments { tokens, depth: 0 }
    }

    /// The number of tokens consumed so far.
    pub fn depth(&self) -> (r: usize)
        ensures
            r as int == self.spec_depth(),
    {
        self.depth
    }

    /// True when every token has been consumed.
    pub fn finished(&self) -> (r: bool)
        requires
            self.wf(),
        ensures
            r == (self.spec_depth() == self.toks().len()),
    {
        assert(self.toks().len() == self.tokens@.len());
        self.depth == self.tokens.len()
    }

    /// Consumes and returns the next token, or returns `None` at the end of
    /// the input without moving.
    pub fn next(&mut self) -> (r: Option<&'a String>)
        requires
            old(self).wf(),
        ensures
            final(self).toks() == old(self).toks(),
            final(self).wf(),
            old(self).spec_depth() < old(self).toks().len() ==> {
                &&& final(self).spec_depth() == old(self).spec_depth() + 1
                &&& r matches Some(t) && t@ == old(self).toks()[old(self).spec_depth()]
            },
            old(self).spec_depth() == old(self).toks().len() ==> {
                &&& final(self).spec_depth() == old(self).spec_depth()
                &&& r is None
            },
    {
        assert(self.toks().len() == self.tokens@.len());
        if self.depth < self.tokens.len() {
            let t = &self.tokens[self.depth];
            self.depth = self.depth + 1;
            assert(t@ == old(self).toks()[old(self).spec_depth()]);
            Some(t)
        } else {
            None
        }
    }
}

} // verus!
