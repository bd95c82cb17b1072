//! Rectangular grids of styled cells.

use vstd::prelude::*;

use crate::style::Cell;

verus! {

/// The all-blank grid of the given dimensions.
pub open spec fn empty_grid(w: int, h: int) -> Seq<Seq<Cell>> {
    Seq::new(h as nat, |y: int| Seq::new(w as nat, |x: int| Cell::empty_spec()))
}

/// A rectangular grid of cells, addressed by `(x, y)` with the origin in the
/// top-left corner.  Every row has exactly `width` cells and there are
/// exactly `height` rows.
pub struct FrameBuffer {
    width: u16,
    height: u16,
    rows: Vec<Vec<Cell>>,
}

impl FrameBuffer {
    /// The grid of cells, row by row.
    pub closed spec fn grid(self) -> Seq<Seq<Cell>> {
        self.rows@.map_values(|r: Vec<Cell>| r@)
    }

    /// The buffer's width in cells.
    pub closed spec fn spec_width(self) -> u16 {
        self.width
    }

    /// The buffer's height in cells.
    pub closed spec fn spec_height(self) -> u16 {
        self.height
    }

    /// Well-formedness: the row count matches `height` and every row holds
    /// exactly `width` cells.
    pub open spec fn wf(self) -> bool {
        &&& self.grid().len() == self.spec_height()
        &&& forall|y: int|
            0 <= y < self.grid().len() ==> (#[trigger] self.grid()[y]).len() == self.spec_width()
    }

    /// Creates a buffer of `w` by `h` blank cells.
    pub fn new(w: u16, h: u16) -> (buf: FrameBuffer)
        ensures
            buf.wf(),
            buf.spec_width() == w,
            buf.spec_height() == h,
            buf.grid() =~~= empty_grid(w as int, h as int),
    {
        let mut rows: Vec<Vec<Cell>> = Vec::new();
        let mut y: u16 = 0;
        while y < h
            invariant
                y <= h,
                rows@.len() == y,
                forall|j: int|
                    0 <= j < y ==> (#[trigger] rows@[j])@ =~= Seq::new(
                        w as nat,
                        |x: int| Cell::empty_spec(),
                    ),
            decreases h - y,
        {
            let mut row: Vec<Cell> = Vec::new();
            let mut x: u16 = 0;
            while x < w
                invariant
                    x <= w,
                    row@.len() == x,
                    forall|i: int| 0 <= i < x ==> row@[i] == Cell::empty_spec(),
                decreases w - x,
            {
                row.push(Cell::empty());
                x = x + 1;
            }
            rows.push(row);
            y = y + 1;
        }
        FrameBuffer { width: w, height: h, rows }
    }

    /// Reads the cell at `(x, y)`.
    pub fn get(&self, x: u16, y: u16) -> (c: Cell)
        requires
            self.wf(),
            x < self.spec_width(),
            y < self.spec_height(),
        ensures
            c == self.grid()[y as int][x as int],
    {
        self.rows[y as usize][x as usize]
    }

    /// Writes the cell at `(x, y)`.
    pub fn set(&mut self, x: u16, y: u16, c: Cell)
        requires
            old(self).wf(),
            x < old(self).spec_width(),
            y < old(self).spec_height(),
        ensures
            final(self).wf(),
            final(self).spec_width() == old(self).spec_width(),
            final(self).spec_height() == old(self).spec_height(),
            final(self).grid() =~~= old(self).grid().update(
                y as int,
                old(self).grid()[y as int].update(x as int, c),
            ),
    {
        proof {
            assert(old(self).grid()[y as int] == old(self).rows@[y as int]@);
        }
        let row = &mut self.rows[y as usize];
        row.set(x as usize, c);
        proof {
            assert forall|j: int| 0 <= j < self.grid().len() implies #[trigger] self.grid()[j]
                == old(self).grid().update(
                y as int,
                old(self).grid()[y as int].update(x as int, c),
            )[j] by {
                assert(self.grid()[j] == self.rows@[j]@);
                assert(old(self).grid()[j] == old(self).rows@[j]@);
            }
        }
    }

    /// Overwrites this buffer with the contents of `src`; the two buffers
    /// must have the same dimensions.
    pub fn copy_from(&mut self, src: &FrameBuffer)
        requires
            old(self).wf(),
            src.wf(),
            old(self).spec_width() == src.spec_width(),
            old(self).spec_height() == src.spec_height(),
        ensures
            final(self).wf(),
            final(self).spec_width() == old(self).spec_width(),
            final(self).spec_height() == old(self).spec_height(),
            final(self).grid() =~~= src.grid(),
    {
        let mut y: usize = 0;
        while y < self.rows.len()
            invariant
                self.wf(),
                src.wf(),
                self.spec_width() == src.spec_width(),
                self.spec_height() == src.spec_height(),
                y <= self.grid().len(),
                forall|j: int| 0 <= j < y ==> #[trigger] self.grid()[j] =~= src.grid()[j],
            decreases self.rows@.len() - y,
        {
            proof {
                assert(src.grid()[y as int] == src.rows@[y as int]@);
                assert(self.grid()[y as int] == self.rows@[y as int]@);
            }
            let mut row: Vec<Cell> = Vec::new();
            let mut x: usize = 0;
            let src_row: &Vec<Cell> = &src.rows[y];
            while x < src_row.len()
                invariant
                    x <= src_row@.len(),
                    row@ =~= src_row@.take(x as int),
                decreases src_row@.len() - x,
            {
                row.push(src_row[x]);
                x = x + 1;
            }
            assert(row@ =~= src_row@);
            let ghost pre = self.grid();
            self.rows.set(y, row);
            proof {
                assert forall|j: int| 0 <= j < self.grid().len() implies #[trigger] self.grid()[j]
                    == pre.update(y as int, src.grid()[y as int])[j] by {
                    assert(self.grid()[j] == self.rows@[j]@);
                }
            }
            y = y + 1;
        }
    }

    /// Executable width accessor.
    pub fn width(&self) -> (w: u16)
        ensures
            w == self.spec_width(),
    {
        self.width
    }

    /// Executable height accessor.
    pub fn height(&self) -> (h: u16)
        ensures
            h == self.spec_height(),
    {
        self.height
    }
}

} // verus!
