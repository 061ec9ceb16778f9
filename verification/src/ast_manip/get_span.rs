//! `GetSpan` trait for obtaining the `Span` of a generic AST node.
use crate::items::Item;
use crate::span::{Attribute, Span, Spanned};
use vstd::prelude::*;

verus! {

/// Trait for obtaining the `Span` of a generic AST node.
pub trait GetSpan {
    /// The span of the node.
    spec fn span_of(&self) -> Span;

    fn get_span(&self) -> (span: Span)
        ensures
            span == self.span_of(),
    ;
}

impl<T> GetSpan for Spanned<T> {
    open spec fn span_of(&self) -> Span {
        self.span
    }

    fn get_span(&self) -> (span: Span) {
        self.span
    }
}

impl<'a, T: GetSpan> GetSpan for &'a T {
    open spec fn span_of(&self) -> Span {
        (**self).span_of()
    }

    fn get_span(&self) -> (span: Span) {
        (**self).get_span()
    }
}

impl<T: GetSpan> GetSpan for Box<T> {
    open spec fn span_of(&self) -> Span {
        (**self).span_of()
    }

    fn get_span(&self) -> (span: Span) {
        (**self).get_span()
    }
}

impl GetSpan for Item {
    open spec fn span_of(&self) -> Span {
        self.span
    }

    fn get_span(&self) -> (span: Span) {
        self.span
    }
}

impl GetSpan for Attribute {
    open spec fn span_of(&self) -> Span {
        self.span
    }

    fn get_span(&self) -> (span: Span) {
        self.span
    }
}

} // verus!
