//! Half-open intervals over source positions, used to tag tokens and errors.
use vstd::prelude::*;
use vstd::string::StrSliceExecFns;

verus! {

/// An interval over source positions. `start` and `end` are character
/// indices into the scanned text; every token and every lexer error carries
/// one. [`Span::contains`] treats both ends as inclusive, while
/// [`Span::src_text`] treats `end` as exclusive.
#[derive(Debug, Clone, Copy, PartialEq, Eq, Structural)]
pub struct Span {
    pub start: usize,
    pub end: usize,
}

impl Span {
    pub fn new(start: usize, end: usize) -> (result: Span)
        ensures
            result.start == start,
            result.end == end,
    {
        Span { start, end }
    }

    /// Whether `idx` falls inside the span, both endpoints included.
    pub fn contains(&self, idx: usize) -> (result: bool)
        ensures
            result == (self.start <= idx && idx <= self.end),
    {
        idx >= self.start && idx <= self.end
    }

    /// The smallest span covering both `self` and `other`.
    pub fn merge(&self, other: &Span) -> (result: Span)
        ensures
            result.start == if self.start <= other.start {
                self.start
            } else {
                other.start
            },
            result.end == if self.end >= other.end {
                self.end
            } else {
                other.end
            },
    {
        let start: usize = if self.start <= other.start {
            self.start
        } else {
            other.start
        };
        let end: usize = if self.end >= other.end {
            self.end
        } else {
            other.end
        };
        Span { start, end }
    }

    /// The substring of `src` covered by the span, `end` exclusive.
    /// Positions are character indices, so the result is exact for any
    /// source text, not only for ASCII.
    pub fn src_text<'a>(&self, src: &'a str) -> (result: &'a str)
        requires
            self.start <= self.end,
            self.end <= src@.len(),
        ensures
            result@ == src@.subrange(self.start as int, self.end as int),
    {
        src.substring_char(self.start, self.end)
    }
}

impl Default for Span {
    fn default() -> (result: Span)
        ensures
            result.start == 0,
            result.end == 0,
    {
        Span { start: 0, end: 0 }
    }
}

/// Shorthand constructor for a [`Span`].
pub fn span(start: usize, end: usize) -> (result: Span)
    ensures
        result.start == start,
        result.end == end,
{
    Span { start, end }
}

} // verus!
