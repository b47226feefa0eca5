//! Source positions, as zero-based row and column numbers.

use vstd::prelude::*;

verus! {

/// A position in the source text: `row` counts line breaks before the
/// position, `column` counts characters since the last line break.
#[derive(Debug, Clone, Copy, PartialEq, Eq, Structural)]
pub struct Location {
    pub row: usize,
    pub column: usize,
}

impl Location {
    pub fn new(row: usize, column: usize) -> (r: Location)
        ensures
            r.row == row,
            r.column == column,
    {
        Location { row, column }
    }
}

} // verus!
