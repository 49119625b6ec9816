//! Source span model: immutable (file id, byte range) pairs attached to every
//! token and tree node.

use vstd::prelude::*;

verus! {

/// An alternative to `std::ops::Range` over byte offsets that can be cheaply
/// copied and compared.
#[derive(Debug, Clone, Copy, PartialEq, Eq, Structural)]
pub struct CheapRange {
    pub start: usize,
    pub end: usize,
}

impl CheapRange {
    pub fn new(start: usize, end: usize) -> (r: Self)
        ensures
            r.start == start,
            r.end == end,
    {
        CheapRange { start, end }
    }

    pub fn start(&self) -> (r: usize)
        ensures
            r == self.start,
    {
        self.start
    }

    pub fn end(&self) -> (r: usize)
        ensures
            r == self.end,
    {
        self.end
    }
}

/// A unique identifier for a source file.
#[derive(Debug, Clone, Copy, PartialEq, Eq, Structural)]
pub struct SourceId(pub u32);

impl SourceId {
    pub fn new(value: u32) -> (r: Self)
        ensures
            r == (SourceId(value)),
    {
        SourceId(value)
    }

    pub fn value(&self) -> (r: u32)
        ensures
            r == self.0,
    {
        self.0
    }
}

/// Associates a range of source text with the source file that it came from.
#[derive(Debug, Clone, Copy, PartialEq, Eq, Structural)]
pub struct SourceSpan {
    pub src: SourceId,
    pub range: CheapRange,
}

impl SourceSpan {
    pub fn new(src: SourceId, range: CheapRange) -> (r: Self)
        ensures
            r == (SourceSpan { src, range }),
    {
        SourceSpan { src, range }
    }

    pub fn src(&self) -> (r: SourceId)
        ensures
            r == self.src,
    {
        self.src
    }

    pub fn range(&self) -> (r: CheapRange)
        ensures
            r == self.range,
    {
        self.range
    }

    pub fn start(&self) -> (r: usize)
        ensures
            r == self.range.start,
    {
        self.range.start()
    }

    pub fn end(&self) -> (r: usize)
        ensures
            r == self.range.end,
    {
        self.range.end()
    }

    /// Copies this span but replaces the end offset with the specified value.
    pub fn copy_from_ending_at(&self, end: usize) -> (r: Self)
        ensures
            r.src == self.src,
            r.range.start == self.range.start,
            r.range.end == end,
    {
        SourceSpan { src: self.src, range: CheapRange::new(self.range.start(), end) }
    }

    /// Copies this span but replaces the start offset with the specified value.
    pub fn copy_from_starting_at(&self, start: usize) -> (r: Self)
        ensures
            r.src == self.src,
            r.range.start == start,
            r.range.end == self.range.end,
    {
        SourceSpan { src: self.src, range: CheapRange::new(start, self.range.end()) }
    }

    /// The span running from the start of `start` to the end of `end`, tagged
    /// with the source of `start`.
    pub fn from_start_end(start: Self, end: Self) -> (r: Self)
        ensures
            r.src == start.src,
            r.range.start == start.range.start,
            r.range.end == end.range.end,
    {
        SourceSpan {
            src: start.src,
            range: CheapRange::new(start.range.start(), end.range.end()),
        }
    }
}

} // verus!
