use vstd::prelude::*;

verus! {

/// A half-open byte range `[start, end)` of a source file.
#[derive(Clone, Copy, Debug, PartialEq, Eq, Structural)]
pub struct Span {
    pub start: usize,
    pub end: usize,
}

impl Span {
    pub open spec fn wf(self) -> bool {
        self.start <= self.end
    }

    /// The two ranges share at least one byte.
    pub open spec fn spec_overlaps(self, other: Span) -> bool {
        self.start < other.end && other.start < self.end
    }

    /// `other` lies within `self`.
    pub open spec fn spec_encloses(self, other: Span) -> bool {
        self.start <= other.start && other.end <= self.end
    }

    pub fn new(start: usize, end: usize) -> (r: Span)
        requires
            start <= end,
        ensures
            r.start == start,
            r.end == end,
            r.wf(),
    {
        Span { start, end }
    }

    pub fn overlaps(&self, other: &Span) -> (r: bool)
        ensures
            r == self.spec_overlaps(*other),
    {
        self.start < other.end && other.start < self.end
    }

    pub fn encloses(&self, other: &Span) -> (r: bool)
        ensures
            r == self.spec_encloses(*other),
    {
        self.start <= other.start && other.end <= self.end
    }
}

} // verus!
