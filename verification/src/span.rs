//! Regions of source text.
use vstd::prelude::*;

verus! {

/// A region of source text: the positions of its first byte and the byte
/// after its last, and the expansion context that it belongs to.
#[derive(Clone, Copy, Debug, PartialEq, Eq, Hash, Structural)]
pub struct Span {
    pub lo: u32,
    pub hi: u32,
    pub ctxt: u32,
}

/// The span of a node that stands for no source text.
pub open spec fn dummy_span() -> Span {
    Span { lo: 0, hi: 0, ctxt: 0 }
}

/// The span from the lower to the higher of two positions.
pub open spec fn span_between(a: u32, b: u32, ctxt: u32) -> Span {
    if a <= b {
        Span { lo: a, hi: b, ctxt }
    } else {
        Span { lo: b, hi: a, ctxt }
    }
}

impl Span {
    /// The span of a node that stands for no source text.
    pub fn dummy() -> (span: Span)
        ensures
            span == dummy_span(),
    {
        Span { lo: 0, hi: 0, ctxt: 0 }
    }

    /// The span between two positions, whichever of them is the lower.
    pub fn new(a: u32, b: u32, ctxt: u32) -> (span: Span)
        ensures
            span == span_between(a, b, ctxt),
    {
        if a <= b {
            Span { lo: a, hi: b, ctxt }
        } else {
            Span { lo: b, hi: a, ctxt }
        }
    }

    /// The position of the first byte.
    pub fn lo(&self) -> (lo: u32)
        ensures
            lo == self.lo,
    {
        self.lo
    }

    /// The position after the last byte.
    pub fn hi(&self) -> (hi: u32)
        ensures
            hi == self.hi,
    {
        self.hi
    }

    /// The expansion context.
    pub fn ctxt(&self) -> (ctxt: u32)
        ensures
            ctxt == self.ctxt,
    {
        self.ctxt
    }

    /// This span with the position `lo` in place of its first.
    pub fn with_lo(&self, lo: u32) -> (span: Span)
        ensures
            span == span_between(lo, self.hi, self.ctxt),
    {
        Span::new(lo, self.hi, self.ctxt)
    }
}

/// A value with the span of the source text that it was read from.
#[derive(Debug, PartialEq, Eq)]
pub struct Spanned<T> {
    pub node: T,
    pub span: Span,
}

/// An attribute, of which only the place in the source matters here.
#[derive(Clone, Copy, Debug, PartialEq, Eq, Hash, Structural)]
pub struct Attribute {
    pub span: Span,
}

} // verus!
