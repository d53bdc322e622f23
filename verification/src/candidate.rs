//! Spans and completion candidates.

use vstd::prelude::*;

verus! {

/// A half-open byte range `[start, end)` of a text.
#[derive(Clone, Copy, Debug, PartialEq, Eq, Structural)]
pub struct Span {
    pub start: usize,
    pub end: usize,
}

impl Span {
    /// The range is not reversed.
    pub open spec fn wf(self) -> bool {
        self.start <= self.end
    }

    /// The range lies at or after `offset`, so that it can be counted from there.
    pub open spec fn starts_from(self, offset: usize) -> bool {
        offset <= self.start && self.start <= self.end
    }

    /// The same range counted from `offset`.
    pub open spec fn spec_relative_to(self, offset: usize) -> Span {
        Span { start: (self.start - offset) as usize, end: (self.end - offset) as usize }
    }

    pub fn new(start: usize, end: usize) -> (s: Span)
        ensures
            s == (Span { start, end }),
    {
        Span { start, end }
    }

    /// The same range counted from `offset`, for a range that lies at or after it.
    pub fn relative_to(self, offset: usize) -> (s: Span)
        requires
            self.starts_from(offset),
        ensures
            s == self.spec_relative_to(offset),
            s.wf(),
            s.end - s.start == self.end - self.start,
    {
        Span { start: self.start - offset, end: self.end - offset }
    }

    /// Whether `pos` lies in the range or at one of its two ends.
    pub fn touches(self, pos: usize) -> (r: bool)
        ensures
            r == (self.start <= pos && pos <= self.end),
    {
        self.start <= pos && pos <= self.end
    }
}

/// A candidate as contracts see it: the span it replaces and the characters
/// of its replacement text.
pub open spec fn shown_one(c: (Span, String)) -> (Span, Seq<char>) {
    (c.0, c.1@)
}

/// A list of candidates as contracts see it.
pub open spec fn shown(v: Seq<(Span, String)>) -> Seq<(Span, Seq<char>)> {
    v.map_values(|c: (Span, String)| shown_one(c))
}

/// Adding one candidate to a list adds its view to the list's view.
pub proof fn lemma_shown_push(v: Seq<(Span, String)>, c: (Span, String))
    ensures
        shown(v.push(c)) == shown(v).push(shown_one(c)),
{
    assert(shown(v.push(c)) =~= shown(v).push(shown_one(c)));
}

} // verus!
