//! Byte ranges into the source text of a program.

use vstd::prelude::*;

verus! {

/// A half-open byte range `start..end` of the source text. A span is only
/// ever reported; no rule of the language reads one.
#[derive(Clone, Copy, Debug, PartialEq, Eq, Structural)]
pub struct Span {
    pub start: u32,
    pub end: u32,
}

impl Span {
    /// The span from `start` up to `end`.
    pub fn new(start: u32, end: u32) -> (span: Span)
        ensures
            span.start == start,
            span.end == end,
    {
        Span { start, end }
    }

    /// The first byte of the range.
    pub fn start(&self) -> (start: u32)
        ensures
            start == self.start,
    {
        self.start
    }

    /// The byte behind the last one of the range.
    pub fn end(&self) -> (end: u32)
        ensures
            end == self.end,
    {
        self.end
    }
}

} // verus!
