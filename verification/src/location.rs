//! Source positions: an opaque cursor with line and column state.

use vstd::prelude::*;

verus! {

/// Where a cursor lands after rewinding by `size` columns.
pub open spec fn spec_into_past(loc: Location, size: nat) -> Location {
    Location {
        line: loc.line,
        col: if loc.col >= size {
            (loc.col - size) as usize
        } else {
            0
        },
    }
}

/// A position in the source text, tagged onto every token and diagnostic.
#[derive(Clone, Copy, PartialEq, Eq, Structural, Debug)]
pub struct Location {
    pub line: usize,
    pub col: usize,
}

impl Location {
    /// Builds a cursor standing at the given line and column.
    pub fn new(line: usize, col: usize) -> (r: Self)
        ensures
            r.line == line,
            r.col == col,
    {
        Location { line, col }
    }

    /// Steps the cursor one column forward; the column sticks at the
    /// machine maximum instead of wrapping.
    pub fn incr_col(&mut self)
        ensures
            final(self).line == old(self).line,
            final(self).col == if old(self).col < usize::MAX {
                old(self).col + 1
            } else {
                old(self).col as int
            },
    {
        if self.col < usize::MAX {
            self.col = self.col + 1;
        }
    }

    /// Rewinds the cursor by `size` columns, stopping at column zero.
    pub fn into_past(self, size: usize) -> (r: Self)
        ensures
            r == spec_into_past(self, size as nat),
    {
        Location {
            line: self.line,
            col: if self.col >= size {
                self.col - size
            } else {
                0
            },
        }
    }
}

} // verus!
