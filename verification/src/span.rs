use vstd::prelude::*;

verus! {

/// A range of byte offsets into the parsed source text.
#[derive(Clone, Copy, Debug, PartialEq, Eq, Structural)]
pub struct Span {
    pub start: usize,
    pub end: usize,
}

impl Span {
    /// The span ranging from 0 to 0.
    pub fn null() -> (res: Span)
        ensures
            res == (Span { start: 0, end: 0 }),
    {
        Span { start: 0, end: 0 }
    }

    pub fn from_range(start: usize, end: usize) -> (res: Span)
        ensures
            res == (Span { start, end }),
    {
        Span { start, end }
    }

    pub fn start(&self) -> (res: usize)
        ensures
            res == self.start,
    {
        self.start
    }

    pub fn end(&self) -> (res: usize)
        ensures
            res == self.end,
    {
        self.end
    }

    /// Number of bytes covered by the span.
    pub fn len(&self) -> (res: usize)
        requires
            self.start <= self.end,
        ensures
            res == self.end - self.start,
    {
        self.end - self.start
    }
}

/// A value together with the span it was read from.
#[derive(Debug, Clone, Copy, PartialEq, Eq)]
pub struct Spanned<T> {
    pub span: Span,
    pub inner: T,
}

impl<T: View> View for Spanned<T> {
    type V = Spanned<T::V>;

    open spec fn view(&self) -> Spanned<T::V> {
        Spanned { span: self.span, inner: self.inner@ }
    }
}

impl<T> Spanned<T> {
    pub fn new(inner: T, span: Span) -> (res: Self)
        ensures
            res.inner == inner,
            res.span == span,
    {
        Spanned { span, inner }
    }

    /// Wraps `inner` with a span ranging from 0 to 0.
    pub fn null_span(inner: T) -> (res: Self)
        ensures
            res.inner == inner,
            res.span == (Span { start: 0, end: 0 }),
    {
        Spanned { span: Span { start: 0, end: 0 }, inner }
    }
}

} // verus!
