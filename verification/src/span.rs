//! Byte ranges of the source text.

use vstd::prelude::*;
use vstd::slice::slice_subrange;

verus! {

/// A half-open range `start..end` of byte offsets into the source text.
///
/// The syntax tree never copies text: every piece of text in it is a span,
/// and [`Span::slice`] resolves it against the source.
#[derive(Clone, Copy, Debug, PartialEq, Eq, Structural)]
pub struct Span {
    pub start: usize,
    pub end: usize,
}

/// The span from `a` to `b`.
pub open spec fn span(a: int, b: int) -> Span {
    Span { start: a as usize, end: b as usize }
}

impl Span {
    /// The span lies inside a text of `len` bytes.
    pub open spec fn within(self, len: nat) -> bool {
        self.start <= self.end <= len
    }

    /// The bytes of `s` that the span covers.
    pub open spec fn text(self, s: Seq<u8>) -> Seq<u8> {
        s.subrange(self.start as int, self.end as int)
    }

    /// The span from `start` to `end`.
    pub fn new(start: usize, end: usize) -> (r: Span)
        ensures
            r == (Span { start, end }),
            r == span(start as int, end as int),
    {
        Span { start, end }
    }

    /// Number of bytes covered; zero for a span that runs backwards.
    pub fn len(&self) -> (n: usize)
        ensures
            n == (if self.start <= self.end { self.end - self.start } else { 0 }),
    {
        if self.start <= self.end {
            self.end - self.start
        } else {
            0
        }
    }

    /// Whether the span covers no byte.
    pub fn is_empty(&self) -> (b: bool)
        ensures
            b == (self.end <= self.start),
    {
        self.end <= self.start
    }

    /// The covered bytes of `source`, borrowed from it.
    pub fn slice<'a>(&self, source: &'a [u8]) -> (r: &'a [u8])
        requires
            self.within(source@.len()),
        ensures
            r@ == self.text(source@),
    {
        slice_subrange(source, self.start, self.end)
    }
}

} // verus!
