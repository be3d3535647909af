//! The host-side numeric container consumed by the matrix operation.
//!
//! The dispatch layer reads exactly four facts from it: the row and column
//! counts, the flat element sequence, squareness, and the byte size of its
//! contents.

use vstd::prelude::*;

verus! {

/// A two-dimensional container of 32-bit words, row-major.
pub struct Matrix {
    pub rows: usize,
    pub cols: usize,
    pub entries: Vec<u32>,
}

impl Matrix {
    /// The flat element sequence fills the stated shape exactly.
    pub open spec fn wf(self) -> bool {
        self.entries@.len() == self.rows * self.cols
    }

    /// Builds a matrix of the given shape from its row-major elements.
    pub fn new(rows: usize, cols: usize, entries: Vec<u32>) -> (m: Matrix)
        requires
            entries@.len() == rows * cols,
        ensures
            m.wf(),
            m.rows == rows,
            m.cols == cols,
            m.entries@ == entries@,
    {
        Matrix { rows, cols, entries }
    }

    /// Whether the matrix has as many rows as columns.
    pub fn is_square(&self) -> (r: bool)
        ensures
            r == (self.rows == self.cols),
    {
        self.rows == self.cols
    }

    /// The byte size of the contents: four bytes per element.
    pub fn sizeof_entries(&self) -> (r: usize)
        requires
            4 * self.entries@.len() <= usize::MAX,
        ensures
            r == 4 * self.entries@.len(),
    {
        4 * self.entries.len()
    }
}

} // verus!
