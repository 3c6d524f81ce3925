use vstd::prelude::*;

verus! {

/// A region of source text. The front end records the exact excerpt, so a
/// span both locates a diagnostic and names the symbol it covers (a custom
/// type's span is the type's name).
#[derive(Debug)]
pub struct Span {
    /// The source text the span covers
    pub text: String,
}

impl Clone for Span {
    fn clone(&self) -> (res: Span)
        ensures
            res == *self,
    {
        Span { text: self.text.clone() }
    }
}

impl View for Span {
    type V = Seq<char>;

    open spec fn view(&self) -> Seq<char> {
        self.text@
    }
}

impl Span {
    /// Make a span over the given source excerpt
    pub fn new(text: &str) -> (s: Span)
        ensures
            s@ == text@,
    {
        Span { text: text.to_owned() }
    }

    /// Two spans are the same when they cover the same text
    pub fn same(&self, other: &Span) -> (r: bool)
        ensures
            r == (self@ == other@),
    {
        self.text == other.text
    }
}

/// A value together with the span it came from
#[derive(Debug)]
pub struct Spanned<T> {
    /// The value itself
    pub inner: T,
    /// Where in the source the value was written
    pub span: Span,
}

impl<T> Spanned<T> {
    /// Attach a span to a value
    pub fn new(inner: T, span: Span) -> (s: Spanned<T>)
        ensures
            s.inner == inner,
            s.span == span,
    {
        Spanned { inner, span }
    }
}

} // verus!
