//! Source locations and spans, and the containment test between them.

use vstd::prelude::*;

verus! {

/// A position in a source file; both numbers count from 1.
#[derive(Clone, Copy, Debug, PartialEq, Eq, Structural)]
pub struct Location {
    pub line: u64,
    pub column: u64,
}

/// An inclusive range of source positions.
#[derive(Clone, Copy, Debug, PartialEq, Eq, Structural)]
pub struct Span {
    pub start: Location,
    pub end: Location,
}

/// A span inside a named file.
#[derive(Debug)]
pub struct FileSpan {
    pub file: String,
    pub span: Span,
}

/// `a` comes no later than `b`, ordering by line and then by column.
pub open spec fn not_after(a: Location, b: Location) -> bool {
    a.line < b.line || (a.line == b.line && a.column <= b.column)
}

/// `loc` lies inside `span`, both ends included.
pub open spec fn within(loc: Location, span: Span) -> bool {
    not_after(span.start, loc) && not_after(loc, span.end)
}

/// A span whose start does not come after its end.
pub open spec fn well_formed(span: Span) -> bool {
    not_after(span.start, span.end)
}

/// Two file spans name the same file and the same range.
pub open spec fn same_file_span(a: FileSpan, b: FileSpan) -> bool {
    a.file@ == b.file@ && a.span == b.span
}

impl Location {
    /// Whether this location lies inside `span`, both ends included.
    pub fn is_within(&self, span: &Span) -> (r: bool)
        ensures
            r == within(*self, *span),
    {
        let after_start = span.start.line < self.line || (span.start.line == self.line
            && span.start.column <= self.column);
        let before_end = self.line < span.end.line || (self.line == span.end.line && self.column
            <= span.end.column);
        after_start && before_end
    }
}

impl FileSpan {
    /// A copy of this span.
    pub fn duplicate(&self) -> (r: FileSpan)
        ensures
            r == *self,
    {
        FileSpan { file: self.file.clone(), span: self.span }
    }

    /// Whether both spans name the same file and the same range.
    pub fn same_as(&self, other: &FileSpan) -> (r: bool)
        ensures
            r == same_file_span(*self, *other),
    {
        self.file == other.file && self.span == other.span
    }
}

/// Containment is inclusive at both ends of a well-formed span, and a location strictly before
/// its start or strictly after its end is outside it.
pub proof fn lemma_within_bounds(loc: Location, span: Span)
    requires
        well_formed(span),
    ensures
        within(span.start, span),
        within(span.end, span),
        !not_after(span.start, loc) ==> !within(loc, span),
        !not_after(loc, span.end) ==> !within(loc, span),
{
}

} // verus!
