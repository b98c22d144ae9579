//! The display buffer: a fixed-size grid of display symbols, one `char` per
//! `(column, row)` cell, stored column-major in a flat vector.
//!
//! The buffer is rebuilt blank before each tick's draw step; components then
//! paint themselves into it through the [`Drawable`] capability.

use vstd::prelude::*;

verus! {

/// Flat, column-major index of cell `(x, y)` in a grid with `num_rows` rows.
pub open spec fn frame_index(x: int, y: int, num_rows: int) -> int {
    x * num_rows + y
}

/// A blank cells sequence for a grid of the given dimensions.
pub open spec fn blank_cells(num_cols: int, num_rows: int) -> Seq<char> {
    Seq::new((num_cols * num_rows) as nat, |i: int| ' ')
}

pub proof fn lemma_frame_index_bound(x: int, y: int, num_cols: int, num_rows: int)
    requires
        0 <= x < num_cols,
        0 <= y < num_rows,
    ensures
        0 <= frame_index(x, y, num_rows) < num_cols * num_rows,
{
    assert(0 <= x * num_rows + y < num_cols * num_rows) by (nonlinear_arith)
        requires
            0 <= x < num_cols,
            0 <= y < num_rows,
    ;
}

/// A fixed-size two-dimensional display buffer.
pub struct Frame {
    pub num_cols: usize,
    pub num_rows: usize,
    /// Cell symbols, column-major: cell `(x, y)` sits at `x * num_rows + y`.
    pub cells: Vec<char>,
}

impl Frame {
    pub open spec fn wf(self) -> bool {
        self.cells@.len() == self.num_cols * self.num_rows
    }

    /// The symbol currently in cell `(x, y)`.
    pub open spec fn at(self, x: int, y: int) -> char {
        self.cells@[frame_index(x, y, self.num_rows as int)]
    }

    /// Read the symbol in cell `(x, y)`.
    pub fn get(&self, x: usize, y: usize) -> (symbol: char)
        requires
            self.wf(),
            x < self.num_cols,
            y < self.num_rows,
        ensures
            symbol == self.at(x as int, y as int),
    {
        proof {
            lemma_frame_index_bound(
                x as int,
                y as int,
                self.num_cols as int,
                self.num_rows as int,
            );
        }
        // The vector's length, an in-range usize, bounds the cell index.
        let _n = self.cells.len();
        let i: usize = x * self.num_rows + y;
        self.cells[i]
    }

    /// Paint cell `(x, y)` with `symbol`, leaving every other cell as it was.
    pub fn set(&mut self, x: usize, y: usize, symbol: char)
        requires
            old(self).wf(),
            x < old(self).num_cols,
            y < old(self).num_rows,
        ensures
            final(self).wf(),
            final(self).num_cols == old(self).num_cols,
            final(self).num_rows == old(self).num_rows,
            final(self).cells@ == old(self).cells@.update(
                frame_index(x as int, y as int, old(self).num_rows as int),
                symbol,
            ),
    {
        proof {
            lemma_frame_index_bound(
                x as int,
                y as int,
                self.num_cols as int,
                self.num_rows as int,
            );
        }
        // The vector's length, an in-range usize, bounds the cell index.
        let _n = self.cells.len();
        let i: usize = x * self.num_rows + y;
        self.cells.set(i, symbol);
    }

    /// Reset every cell to the blank symbol, keeping the dimensions.
    pub fn clear(&mut self)
        requires
            old(self).wf(),
        ensures
            final(self).wf(),
            final(self).num_cols == old(self).num_cols,
            final(self).num_rows == old(self).num_rows,
            final(self).cells@ == blank_cells(
                old(self).num_cols as int,
                old(self).num_rows as int,
            ),
    {
        let n = self.cells.len();
        let mut i: usize = 0;
        while i < n
            invariant
                self.cells@.len() == n,
                self.num_cols == old(self).num_cols,
                self.num_rows == old(self).num_rows,
                n == old(self).num_cols * old(self).num_rows,
                i <= n,
                forall|j: int| 0 <= j < i ==> self.cells@[j] == ' ',
                forall|j: int| i <= j < n ==> self.cells@[j] == old(self).cells@[j],
            decreases n - i,
        {
            self.cells.set(i, ' ');
            i = i + 1;
        }
        proof {
            assert(self.cells@ =~= blank_cells(
                old(self).num_cols as int,
                old(self).num_rows as int,
            ));
        }
    }
}

/// Build a blank frame of the given dimensions.
pub fn new_frame(num_cols: usize, num_rows: usize) -> (frame: Frame)
    requires
        num_cols * num_rows <= usize::MAX,
    ensures
        frame.wf(),
        frame.num_cols == num_cols,
        frame.num_rows == num_rows,
        frame.cells@ == blank_cells(num_cols as int, num_rows as int),
{
    let total: usize = num_cols * num_rows;
    let mut cells: Vec<char> = Vec::new();
    let mut i: usize = 0;
    while i < total
        invariant
            i <= total,
            cells@.len() == i,
            forall|j: int| 0 <= j < i ==> cells@[j] == ' ',
        decreases total - i,
    {
        cells.push(' ');
        i = i + 1;
    }
    let frame = Frame { num_cols, num_rows, cells };
    proof {
        assert(frame.cells@ =~= blank_cells(num_cols as int, num_rows as int));
    }
    frame
}

/// The capability of painting oneself into the display buffer.
///
/// `fits` says when a component may draw into a grid of the given
/// dimensions; `drawn` says, cell for cell, what the buffer holds once the
/// component has painted itself over `cells`.
pub trait Drawable {
    spec fn fits(&self, num_cols: int, num_rows: int) -> bool;

    spec fn drawn(&self, cells: Seq<char>, num_rows: int) -> Seq<char>;

    fn draw(&self, frame: &mut Frame)
        requires
            old(frame).wf(),
            self.fits(old(frame).num_cols as int, old(frame).num_rows as int),
        ensures
            final(frame).wf(),
            final(frame).num_cols == old(frame).num_cols,
            final(frame).num_rows == old(frame).num_rows,
            final(frame).cells@ == self.drawn(old(frame).cells@, old(frame).num_rows as int),
    ;
}

} // verus!
