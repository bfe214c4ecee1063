//! Source locations: byte spans, source identifiers, and code areas that the
//! error model attaches to every diagnostic label.

use vstd::prelude::*;

verus! {

/// A half-open byte range `[start, end)` into a source file's text.
#[derive(Debug, Clone, Copy, PartialEq, Eq, Structural)]
pub struct CodeSpan {
    pub start: usize,
    pub end: usize,
}

impl CodeSpan {
    /// The smallest span that starts where `self` starts and ends where
    /// `other` ends.
    pub fn extend(&self, other: CodeSpan) -> (r: CodeSpan)
        ensures
            r.start == self.start,
            r.end == other.end,
    {
        CodeSpan { start: self.start, end: other.end }
    }

    /// The span used for values and errors that no user-written text produced.
    pub fn internal() -> (r: CodeSpan)
        ensures
            r.start == 0,
            r.end == 0,
    {
        CodeSpan { start: 0, end: 0 }
    }

    /// A placeholder span for positions that are never rendered.
    pub fn invalid() -> (r: CodeSpan)
        ensures
            r.start == 0,
            r.end == 1,
    {
        CodeSpan { start: 0, end: 1 }
    }
}

/// Identifies one compiled source unit. The core never reads source text
/// itself; the path is kept verbatim for diagnostics.
#[derive(Debug, Clone, PartialEq, Eq, Hash)]
pub enum SpwnSource {
    File(String),
}

impl SpwnSource {
    /// The area covering `span` inside this source.
    pub fn area(&self, span: CodeSpan) -> (r: CodeArea)
        ensures
            r.src == *self,
            r.span == span,
    {
        CodeArea { src: self.dup(), span }
    }

    /// A copy of this source identifier.
    pub fn dup(&self) -> (r: SpwnSource)
        ensures
            r == *self,
    {
        match self {
            SpwnSource::File(p) => SpwnSource::File(p.clone()),
        }
    }

    /// The user-facing name of the source.
    pub fn name(&self) -> (r: String)
        ensures
            *self matches SpwnSource::File(p) && r@ == p@,
    {
        match self {
            SpwnSource::File(p) => p.clone(),
        }
    }

    /// The source's name wrapped in a terminal hyperlink escape sequence.
    pub fn hyperlink(&self) -> (r: String)
    {
        let n = self.name();
        crate::sources::hyperlink(n.as_str(), Some(self.name().as_str()))
    }
}

/// Wraps `text` in an OSC 8 terminal hyperlink pointing at `url`. With no
/// `text`, the url itself is the link text.
pub fn hyperlink(url: &str, text: Option<&str>) -> (r: String)
    ensures
        r@ == "\u{1b}]8;;"@ + url@ + "\u{1b}\\"@ + (match text {
            Some(t) => t@,
            None => url@,
        }) + "\u{1b}]8;;\u{1b}\\"@,
{
    let mut s = String::new();
    s.append("\u{1b}]8;;");
    s.append(url);
    s.append("\u{1b}\\");
    match text {
        Some(t) => s.append(t),
        None => s.append(url),
    }
    s.append("\u{1b}]8;;\u{1b}\\");
    s
}

/// A contiguous region of one source: what every diagnostic label points at.
#[derive(Debug, Clone, PartialEq, Eq)]
pub struct CodeArea {
    pub src: SpwnSource,
    pub span: CodeSpan,
}

impl CodeArea {
    /// The name of the source this area lies in.
    pub fn name(&self) -> (r: String)
        ensures
            self.src matches SpwnSource::File(p) && r@ == p@,
    {
        self.src.name()
    }

    /// The source name together with the byte range, ready for a renderer.
    pub fn label(&self) -> (r: (String, CodeSpan))
        ensures
            self.src matches SpwnSource::File(p) && r.0@ == p@,
            r.1 == self.span,
    {
        (self.name(), self.span)
    }

    /// A copy of this area.
    pub fn dup(&self) -> (r: CodeArea)
        ensures
            r == *self,
    {
        CodeArea { src: self.src.dup(), span: self.span }
    }

    /// The area attached to values the machine itself produces.
    pub fn internal() -> (r: CodeArea)
        ensures
            r.src matches SpwnSource::File(p) && p@ == "<internal>"@,
            r.span == (CodeSpan { start: 0, end: 0 }),
    {
        CodeArea {
            src: SpwnSource::File("<internal>".to_owned()),
            span: CodeSpan::internal(),
        }
    }
}

/// Any value paired with the span it came from.
#[derive(Debug, Clone, PartialEq, Eq)]
pub struct Spanned<T> {
    pub value: T,
    pub span: CodeSpan,
}

impl<T> Spanned<T> {
    /// Takes the pair apart.
    pub fn split(self) -> (r: (T, CodeSpan))
        ensures
            r.0 == self.value,
            r.1 == self.span,
    {
        (self.value, self.span)
    }

    /// The same value under a span extended to the end of `other`.
    pub fn extended(self, other: CodeSpan) -> (r: Spanned<T>)
        ensures
            r.value == self.value,
            r.span.start == self.span.start,
            r.span.end == other.end,
    {
        let span = self.span.extend(other);
        Spanned { value: self.value, span }
    }

    /// Maps the value, keeping the span.
    pub fn apply_fn<U, F: FnOnce(T) -> U>(self, f: F) -> (r: Spanned<U>)
        requires
            call_requires(f, (self.value,)),
        ensures
            call_ensures(f, (self.value,), r.value),
            r.span == self.span,
    {
        let span = self.span;
        f(self.value).spanned(span)
    }
}

/// Attaches a span to any value.
pub trait Spannable: Sized {
    /// `self` paired with `span`.
    fn spanned(self, span: CodeSpan) -> (r: Spanned<Self>)
        ensures
            r.value == self,
            r.span == span,
    ;
}

impl<T> Spannable for T {
    fn spanned(self, span: CodeSpan) -> (r: Spanned<T>)
    {
        Spanned { value: self, span }
    }
}

} // verus!
