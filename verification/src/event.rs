//! Physical key coordinates and the logical key events the debouncer emits.

use vstd::prelude::*;

verus! {

use crate::{NUM_COLS, NUM_KEYS, NUM_ROWS};

/// A physical key position: row and column of the switch matrix.
#[derive(Clone, Copy, Debug, PartialEq, Eq, Structural)]
pub struct KeyCoord {
    pub row: usize,
    pub col: usize,
}

impl KeyCoord {
    /// The coordinate lies on the matrix.
    pub open spec fn wf(self) -> bool {
        self.row < NUM_ROWS && self.col < NUM_COLS
    }
}

/// The flat cell index of a coordinate, row-major.
pub open spec fn index_of_coord(c: KeyCoord) -> int {
    c.row * NUM_COLS + c.col
}

/// The coordinate of a flat cell index, row-major.
pub open spec fn coord_of_index(i: int) -> KeyCoord {
    KeyCoord { row: (i / (NUM_COLS as int)) as usize, col: (i % (NUM_COLS as int)) as usize }
}

/// A stable transition of one cell, confirmed by the debouncer.
#[derive(Clone, Copy, Debug, PartialEq, Eq, Structural)]
pub enum KeyEventKind {
    Press,
    Release,
}

/// A logical key event: which cell changed, and in which direction.
#[derive(Clone, Copy, Debug, PartialEq, Eq, Structural)]
pub struct KeyEvent {
    pub coord: KeyCoord,
    pub kind: KeyEventKind,
}

impl KeyEvent {
    /// The event's coordinate lies on the matrix.
    pub open spec fn wf(self) -> bool {
        self.coord.wf()
    }
}

/// A coordinate built from a flat index lies on the matrix, and the two
/// translations invert each other on the matrix.
pub proof fn lemma_coord_index_bijection(i: int)
    requires
        0 <= i < NUM_KEYS,
    ensures
        coord_of_index(i).wf(),
        index_of_coord(coord_of_index(i)) == i,
{
}

} // verus!
