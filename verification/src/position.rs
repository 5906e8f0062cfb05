//! Source locations: a `Position` (line and column) and a `Span` (the range
//! between two positions), used to tag diagnostics.

use vstd::prelude::*;

verus! {

/// A location in the source text. Both fields are 1-based: line 1, column 1
/// is the first character.
#[derive(Clone, Copy, PartialEq, Eq, PartialOrd, Ord, Structural, Debug)]
pub struct Position {
    pub line: u32,
    pub column: u32,
}

/// Line-major total order on positions.
pub open spec fn pos_le(a: Position, b: Position) -> bool {
    a.line < b.line || (a.line == b.line && a.column <= b.column)
}

/// The smaller of two positions in the line-major order.
pub open spec fn pos_min(a: Position, b: Position) -> Position {
    if pos_le(a, b) {
        a
    } else {
        b
    }
}

/// The larger of two positions in the line-major order.
pub open spec fn pos_max(a: Position, b: Position) -> Position {
    if pos_le(a, b) {
        b
    } else {
        a
    }
}

impl Position {
    pub fn new(line: u32, column: u32) -> (r: Position)
        ensures
            r.line == line,
            r.column == column,
    {
        Position { line, column }
    }

    /// The span from this position up to `to`, which must not lie before it.
    pub fn span_to(self, to: Position) -> (r: Span)
        requires
            pos_le(self, to),
        ensures
            r.start == self,
            r.end == to,
    {
        Span::new(self, to)
    }

    /// Shift the column forward by `amount`; the line is unchanged.
    pub fn forward(self, amount: u32) -> (r: Position)
        requires
            self.column + amount <= u32::MAX,
        ensures
            r.line == self.line,
            r.column == self.column + amount,
    {
        Position { line: self.line, column: self.column + amount }
    }

    /// Shift the column back by `amount`; the line is unchanged. Moving back
    /// past column zero is a caller error, ruled out by the precondition,
    /// never clamped.
    pub fn backward(self, amount: u32) -> (r: Position)
        requires
            amount <= self.column,
        ensures
            r.line == self.line,
            r.column == self.column - amount,
    {
        Position { line: self.line, column: self.column - amount }
    }

    /// Whether this position lies at or before `other`, line-major.
    fn le(&self, other: &Position) -> (r: bool)
        ensures
            r == pos_le(*self, *other),
    {
        self.line < other.line || (self.line == other.line && self.column <= other.column)
    }
}

/// A contiguous source range between two positions.
#[derive(Clone, Copy, PartialEq, Eq, Structural, Debug)]
pub struct Span {
    pub start: Position,
    pub end: Position,
}

/// A span is well formed when its start does not lie after its end.
pub open spec fn span_wf(s: Span) -> bool {
    pos_le(s.start, s.end)
}

/// Whether `s` covers the position `p`.
pub open spec fn covers(s: Span, p: Position) -> bool {
    pos_le(s.start, p) && pos_le(p, s.end)
}

/// The smallest span covering both inputs: component-wise minimum of the
/// starts and maximum of the ends.
pub open spec fn spec_merge(a: Span, b: Span) -> Span {
    Span { start: pos_min(a.start, b.start), end: pos_max(a.end, b.end) }
}

impl Span {
    /// A span from `start` to `end`; a start after the end is a caller
    /// error, ruled out by the precondition.
    pub fn new(start: Position, end: Position) -> (r: Span)
        requires
            pos_le(start, end),
        ensures
            r.start == start,
            r.end == end,
    {
        Span { start, end }
    }

    /// The smallest span covering both `self` and `other`.
    pub fn merge(self, other: Span) -> (r: Span)
        requires
            span_wf(self),
            span_wf(other),
        ensures
            r == spec_merge(self, other),
            span_wf(r),
    {
        let start = if self.start.le(&other.start) {
            self.start
        } else {
            other.start
        };
        let end = if self.end.le(&other.end) {
            other.end
        } else {
            self.end
        };
        Span::new(start, end)
    }
}

/// The merged span covers every position that either input covers.
pub proof fn lemma_merge_covers(a: Span, b: Span, p: Position)
    ensures
        covers(a, p) || covers(b, p) ==> covers(spec_merge(a, b), p),
{
}

/// Merging is commutative: both orders give the same start/end pair.
pub proof fn lemma_merge_commutative(a: Span, b: Span)
    ensures
        spec_merge(a, b) == spec_merge(b, a),
{
}

/// Merging is associative: grouping does not change the start/end pair.
pub proof fn lemma_merge_associative(a: Span, b: Span, c: Span)
    ensures
        spec_merge(spec_merge(a, b), c) == spec_merge(a, spec_merge(b, c)),
{
}

} // verus!
