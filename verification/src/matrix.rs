//! A snapshot of the raw electrical state of the key matrix: one boolean per
//! cell, `true` meaning the contact is closed. Produced fresh on every scan.

use vstd::prelude::*;

verus! {

use crate::event::KeyCoord;
use crate::{NUM_COLS, NUM_KEYS, NUM_ROWS};

/// Raw open/closed state of every cell of one scan, row-major.
pub struct MatrixSnapshot {
    cells: Vec<bool>,
}

impl View for MatrixSnapshot {
    type V = Seq<bool>;

    closed spec fn view(&self) -> Seq<bool> {
        self.cells@
    }
}

impl MatrixSnapshot {
    /// One boolean per matrix cell.
    pub open spec fn wf(&self) -> bool {
        self@.len() == NUM_KEYS
    }

    /// A snapshot with every contact open.
    pub fn new() -> (r: MatrixSnapshot)
        ensures
            r.wf(),
            forall|i: int| 0 <= i < NUM_KEYS ==> r@[i] == false,
    {
        let mut cells: Vec<bool> = Vec::new();
        let mut i: usize = 0;
        while i < NUM_KEYS
            invariant
                i <= NUM_KEYS,
                cells@.len() == i,
                forall|j: int| 0 <= j < i ==> cells@[j] == false,
            decreases NUM_KEYS - i,
        {
            cells.push(false);
            i = i + 1;
        }
        MatrixSnapshot { cells }
    }

    /// The raw state of the cell at `coord`.
    pub fn get(&self, coord: KeyCoord) -> (r: bool)
        requires
            self.wf(),
            coord.wf(),
        ensures
            r == self@[coord.row * NUM_COLS + coord.col],
    {
        self.cells[coord.row * NUM_COLS + coord.col]
    }

    /// The raw state of the cell with flat row-major index `i`.
    pub fn get_at(&self, i: usize) -> (r: bool)
        requires
            self.wf(),
            i < NUM_KEYS,
        ensures
            r == self@[i as int],
    {
        self.cells[i]
    }

    /// Overwrites the raw state of the cell at `coord`.
    pub fn set(&mut self, coord: KeyCoord, closed: bool)
        requires
            old(self).wf(),
            coord.wf(),
        ensures
            final(self).wf(),
            final(self)@ == old(self)@.update(coord.row * NUM_COLS + coord.col, closed),
    {
        self.cells.set(coord.row * NUM_COLS + coord.col, closed);
    }
}

} // verus!
