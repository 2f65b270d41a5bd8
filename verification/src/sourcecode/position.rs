use vstd::prelude::*;

verus! {

/// A place in the source text: a zero-based line and a zero-based column.
///
/// Positions are ordered by line first and by column second.
#[derive(Debug, PartialEq, Eq, Clone, Copy, PartialOrd, Ord, Hash, Structural)]
pub struct Position {
    pub line: usize,
    pub pos: usize,
}

impl Position {
    /// The order on positions: line first, then column.
    pub open spec fn precedes(self, other: Position) -> bool {
        self.line < other.line || (self.line == other.line && self.pos <= other.pos)
    }

    /// The earlier of two positions.
    pub open spec fn earliest(self, other: Position) -> Position {
        if self.precedes(other) {
            self
        } else {
            other
        }
    }

    /// The later of two positions.
    pub open spec fn latest(self, other: Position) -> Position {
        if self.precedes(other) {
            other
        } else {
            self
        }
    }

    /// Tells whether `self` comes before `other` or is equal to it.
    pub fn is_before_or_at(&self, other: &Position) -> (r: bool)
        ensures
            r == self.precedes(*other),
    {
        self.line < other.line || (self.line == other.line && self.pos <= other.pos)
    }

    /// Returns the earlier of two positions.
    pub fn first_of(&self, other: &Position) -> (r: Position)
        ensures
            r == self.earliest(*other),
    {
        if self.is_before_or_at(other) {
            *self
        } else {
            *other
        }
    }

    /// Returns the later of two positions.
    pub fn last_of(&self, other: &Position) -> (r: Position)
        ensures
            r == self.latest(*other),
    {
        if self.is_before_or_at(other) {
            *other
        } else {
            *self
        }
    }
}

/// The order on positions is total: any two positions compare one way or the
/// other, and two that compare both ways are the same position.
pub proof fn lemma_position_order_total(a: Position, b: Position)
    ensures
        a.precedes(b) || b.precedes(a),
        a.precedes(b) && b.precedes(a) ==> a == b,
{
}

/// The order on positions is transitive.
pub proof fn lemma_position_order_transitive(a: Position, b: Position, c: Position)
    requires
        a.precedes(b),
        b.precedes(c),
    ensures
        a.precedes(c),
{
}

} // verus!
