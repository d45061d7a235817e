use vstd::prelude::*;

verus! {

/// A half-open range `[from, to)` of byte offsets into the source text.
#[derive(Debug, Clone, Copy, PartialEq, Eq, Structural)]
pub struct Span {
    pub from: usize,
    pub to: usize,
}

impl Span {
    /// A span is well formed when it does not end before it starts.
    pub open spec fn wf(self) -> bool {
        self.from <= self.to
    }

    /// `inner` lies wholly inside `self`.
    pub open spec fn contains(self, inner: Span) -> bool {
        self.from <= inner.from && inner.to <= self.to
    }

    pub fn new(from: usize, to: usize) -> (span: Span)
        ensures
            span.from == from,
            span.to == to,
    {
        Span { from, to }
    }

    /// The same span with its start moved to `from`.
    pub fn start(self, from: usize) -> (span: Span)
        ensures
            span.from == from,
            span.to == self.to,
    {
        Span { from, to: self.to }
    }

    /// The same span with its end moved to `to`, which may not lie before the start.
    pub fn end(self, to: usize) -> (span: Span)
        requires
            self.from <= to,
        ensures
            span.from == self.from,
            span.to == to,
            span.wf(),
    {
        Span { from: self.from, to }
    }
}

impl Default for Span {
    fn default() -> (span: Span)
        ensures
            span.from == 0,
            span.to == 0,
    {
        Span { from: 0, to: 0 }
    }
}

/// What has a place in the source text.
pub trait Spanned {
    /// The span that the value covers.
    spec fn spanned(&self) -> Span;

    /// The span that the value covers.
    fn span(&self) -> (span: Span)
        ensures
            span == self.spanned(),
    ;
}

} // verus!
