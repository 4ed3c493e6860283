//! Positions in a source text, counted in rows and columns.

use vstd::prelude::*;

verus! {

/// A position in a source text: `row` counts from 1, `col` is the number of
/// characters read on the current row.
#[derive(Copy, Clone, Debug, PartialEq, Eq, Structural)]
pub struct Location {
    pub row: usize,
    pub col: usize,
}

/// The (row, column) pair reached after reading `s` from the start of a text.
pub open spec fn position_after(s: Seq<char>) -> (int, int)
    decreases s.len(),
{
    if s.len() == 0 {
        (1, 0)
    } else {
        let p = position_after(s.drop_last());
        if s.last() == '\n' {
            (p.0 + 1, 0)
        } else {
            (p.0, p.1 + 1)
        }
    }
}

/// Rows and columns never outgrow the text read.
pub proof fn lemma_position_bounded(s: Seq<char>)
    ensures
        1 <= position_after(s).0 <= s.len() + 1,
        0 <= position_after(s).1 <= s.len(),
    decreases s.len(),
{
    if s.len() > 0 {
        lemma_position_bounded(s.drop_last());
    }
}

impl Location {
    pub open spec fn pos(self) -> (int, int) {
        (self.row as int, self.col as int)
    }

    /// The location at the start of a text.
    pub fn start() -> (r: Location)
        ensures
            r.pos() == position_after(Seq::empty()),
    {
        Location { row: 1, col: 0 }
    }

    /// Moves to the start of the next row.
    pub fn newline(&mut self)
        requires
            old(self).row < usize::MAX,
        ensures
            final(self).row == old(self).row + 1,
            final(self).col == 0,
    {
        self.row = self.row + 1;
        self.col = 0;
    }

    /// Moves one column to the right.
    pub fn next(&mut self)
        requires
            old(self).col < usize::MAX,
        ensures
            final(self).row == old(self).row,
            final(self).col == old(self).col + 1,
    {
        self.col = self.col + 1;
    }

    /// Copies another location into this one.
    pub fn set(&mut self, other: &Location)
        ensures
            *final(self) == *other,
    {
        self.row = other.row;
        self.col = other.col;
    }
}

} // verus!
