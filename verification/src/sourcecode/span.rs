use vstd::prelude::*;
use crate::general::SemiGroup;
use crate::sourcecode::Position;

verus! {

/// A range of source text from `start` up to `end`.
#[derive(Debug, PartialEq, Eq, Clone, Copy, Structural)]
pub struct Span {
    pub start: Position,
    pub end: Position,
}

impl Span {
    /// The span on one line that starts at column `start_pos` and covers
    /// `length` columns.
    pub open spec fn on_line(line: usize, start_pos: usize, length: usize) -> Span {
        Span {
            start: Position { line, pos: start_pos },
            end: Position { line, pos: (start_pos + length) as usize },
        }
    }

    /// The smallest span that contains both `self` and `other`.
    pub open spec fn merge(self, other: Span) -> Span {
        Span { start: self.start.earliest(other.start), end: self.end.latest(other.end) }
    }

    /// Tells whether `inner` lies within `self`.
    pub open spec fn contains(self, inner: Span) -> bool {
        self.start.precedes(inner.start) && inner.end.precedes(self.end)
    }

    /// The part of the span on the given line, which has `length` columns:
    /// the first column and the number of columns. There is none on a line
    /// before the span starts or after it ends.
    pub open spec fn part_on_line(self, line: usize, length: usize) -> Option<(usize, usize)> {
        if line < self.start.line || line > self.end.line {
            None
        } else {
            let from = if line == self.start.line && self.start.pos < length {
                self.start.pos
            } else if line == self.start.line {
                length
            } else {
                0
            };
            let to = if line == self.end.line && self.end.pos < length {
                self.end.pos
            } else {
                length
            };
            if from <= to {
                Some((from, (to - from) as usize))
            } else {
                Some((from, 0))
            }
        }
    }

    /// The columns that the span covers on the given line, which has
    /// `length` columns: the first column and the number of columns.
    pub fn on_line_of_length(&self, line: usize, length: usize) -> (r: Option<(usize, usize)>)
        ensures
            r == self.part_on_line(line, length),
    {
        if line < self.start.line || line > self.end.line {
            return None;
        }
        let from = if line == self.start.line && self.start.pos < length {
            self.start.pos
        } else if line == self.start.line {
            length
        } else {
            0
        };
        let to = if line == self.end.line && self.end.pos < length {
            self.end.pos
        } else {
            length
        };
        if from <= to {
            Some((from, to - from))
        } else {
            Some((from, 0))
        }
    }

    /// The span on one line that starts at column `start_pos` and covers
    /// `length` columns.
    pub fn new(line: usize, start_pos: usize, length: usize) -> (r: Span)
        requires
            start_pos + length <= usize::MAX,
        ensures
            r == Span::on_line(line, start_pos, length),
    {
        let start = Position { line, pos: start_pos };
        let end = Position { line, pos: start_pos + length };
        Span { start, end }
    }
}

impl SemiGroup for Span {
    open spec fn combine(&self, another: &Span) -> Span {
        self.merge(*another)
    }

    proof fn lemma_combine_associative(a: &Span, b: &Span, c: &Span) {
    }

    fn plus(&self, another: &Span) -> (r: Span) {
        Span { start: self.start.first_of(&another.start), end: self.end.last_of(&another.end) }
    }
}

/// Merging a span with itself gives the span back.
pub proof fn lemma_merge_idempotent(a: Span)
    ensures
        a.merge(a) == a,
{
}

/// The merge of two spans does not depend on the order of the arguments.
pub proof fn lemma_merge_commutative(a: Span, b: Span)
    ensures
        a.merge(b) == b.merge(a),
{
}

/// The merge of two spans starts at the earlier of the two starts and ends at
/// the later of the two ends, so it contains both spans.
pub proof fn lemma_merge_is_bounding(a: Span, b: Span)
    ensures
        a.merge(b).start == a.start.earliest(b.start),
        a.merge(b).end == a.end.latest(b.end),
        a.start.precedes(a.end) ==> a.merge(b).contains(a),
        b.start.precedes(b.end) ==> a.merge(b).contains(b),
{
}

/// A value together with the span of source text it came from.
pub struct Code<T> {
    pub value: T,
    pub span: Span,
}

impl<T: View> View for Code<T> {
    type V = Code<T::V>;

    open spec fn view(&self) -> Code<T::V> {
        Code { value: self.value@, span: self.span }
    }
}

impl<T> Code<T> {
    /// Applies `func` to the value and keeps the span.
    pub fn map<S, F>(&self, func: F) -> (r: Code<S>) where F: Fn(&T) -> S
        requires
            call_requires(func, (&self.value,)),
        ensures
            call_ensures(func, (&self.value,), r.value),
            r.span == self.span,
    {
        Code { value: func(&self.value), span: self.span }
    }

    /// Replaces the value by `content` and keeps the span.
    pub fn map_const<S>(&self, content: S) -> (r: Code<S>)
        ensures
            r == (Code { value: content, span: self.span }),
    {
        Code { value: content, span: self.span }
    }
}

} // verus!
