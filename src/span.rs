use vstd::prelude::*;

verus! {

/// A half-open range `[start, end)` of byte offsets into a source text.
#[derive(Debug, Clone, Copy, PartialEq, Eq, Structural)]
pub struct Span {
    pub start: usize,
    /// Exclusive: in `foo bar` the span of `foo` is `{ start: 0, end: 3 }`.
    pub end: usize,
}

/// Anything that covers a range of the source text.
pub trait HasSpan {
    spec fn spec_span(&self) -> Span;

    fn span(&self) -> (r: &Span)
        ensures
            *r == self.spec_span(),
    ;

    fn start(&self) -> (r: usize)
        ensures
            r == self.spec_span().start,
    {
        self.span().start
    }

    fn end(&self) -> (r: usize)
        ensures
            r == self.spec_span().end,
    {
        self.span().end
    }
}

impl Span {
    /// The span from the start of `start` to the end of `end`. The caller is
    /// responsible for `start` not coming after `end` in the text.
    pub fn between(start: &impl HasSpan, end: &impl HasSpan) -> (r: Span)
        ensures
            r == (Span { start: start.spec_span().start, end: end.spec_span().end }),
    {
        Span { start: start.span().start, end: end.span().end }
    }
}

impl HasSpan for Span {
    open spec fn spec_span(&self) -> Span {
        *self
    }

    fn span(&self) -> (r: &Span) {
        self
    }
}

/// The bookkeeping that every syntax tree node carries.
#[derive(Debug, Clone, Copy, PartialEq, Eq, Structural)]
pub struct Meta {
    pub span: Span,
}

/// A node that carries a `Meta`; its span is the one in the `Meta`.
pub trait HasMeta {
    spec fn spec_meta(&self) -> Meta;

    fn meta(&self) -> (r: &Meta)
        ensures
            *r == self.spec_meta(),
    ;
}

} // verus!
