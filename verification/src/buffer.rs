//! The cell-buffer sink: a rectangular grid of styled glyph cells that
//! backends write into, modeling the host display's buffer.

use vstd::prelude::*;
use crate::geometry::{Rect, Rgb8};

verus! {

/// One cell of the text grid: the UTF-8 bytes of its symbol (empty for a
/// blank cell) and optional foreground/background colors.
#[derive(Clone, Debug, PartialEq, Eq)]
pub struct Cell {
    pub sym: Vec<u8>,
    pub fg: Option<Rgb8>,
    pub bg: Option<Rgb8>,
}

impl Cell {
    /// A blank cell: no symbol, no colors.
    pub open spec fn is_blank(self) -> bool {
        &&& self.sym@.len() == 0
        &&& self.fg is None
        &&& self.bg is None
    }

    /// Make a blank cell.
    pub fn blank() -> (c: Cell)
        ensures
            c.is_blank(),
    {
        Cell { sym: Vec::new(), fg: None, bg: None }
    }
}

/// A rectangular grid of cells, row-major within `area`.
#[derive(Debug)]
pub struct CellBuffer {
    pub area: Rect,
    pub cells: Vec<Cell>,
}

impl CellBuffer {
    /// Well-formed: one cell per position of `area`, and every position of
    /// `area` is addressable with 16-bit coordinates.
    pub open spec fn wf(self) -> bool {
        &&& self.cells@.len() == self.area.width * self.area.height
        &&& self.area.x + self.area.width <= 0x10000
        &&& self.area.y + self.area.height <= 0x10000
    }

    /// Index of the absolute grid position (cx, cy) within `cells`.
    pub open spec fn spec_index_of(self, cx: int, cy: int) -> int {
        (cy - self.area.y) * self.area.width + (cx - self.area.x)
    }

    /// The cell at absolute grid position (cx, cy).
    pub open spec fn cell_at(self, cx: int, cy: int) -> Cell {
        self.cells@[self.spec_index_of(cx, cy)]
    }

    /// Distinct positions inside `area` live at distinct indices, and every
    /// such index is in range.
    pub proof fn lemma_index_of(self, cx: int, cy: int)
        requires
            self.area.contains(cx, cy),
        ensures
            0 <= self.spec_index_of(cx, cy) < self.area.width * self.area.height,
            forall|ax: int, ay: int|
                self.area.contains(ax, ay) && !(ax == cx && ay == cy)
                    ==> self.spec_index_of(ax, ay) != self.spec_index_of(cx, cy),
    {
        let w = self.area.width as int;
        let h = self.area.height as int;
        let x0 = self.area.x as int;
        let y0 = self.area.y as int;
        assert(0 <= (cy - y0) * w + (cx - x0) < w * h) by (nonlinear_arith)
            requires x0 <= cx < x0 + w && y0 <= cy < y0 + h;
        assert forall|ax: int, ay: int|
            self.area.contains(ax, ay) && !(ax == cx && ay == cy)
                implies self.spec_index_of(ax, ay) != self.spec_index_of(cx, cy) by {
            assert((ay - y0) * w + (ax - x0) != (cy - y0) * w + (cx - x0)) by (nonlinear_arith)
                requires
                    x0 <= ax < x0 + w && y0 <= ay
                    && x0 <= cx < x0 + w && y0 <= cy
                    && !(ax == cx && ay == cy);
        }
    }

    /// An all-blank buffer covering `area`.
    pub fn empty(area: Rect) -> (b: CellBuffer)
        requires
            area.x + area.width <= 0x10000,
            area.y + area.height <= 0x10000,
        ensures
            b.wf(),
            b.area == area,
            forall|cx: int, cy: int|
                area.contains(cx, cy) ==> b.cell_at(cx, cy).is_blank(),
    {
        proof {
            assert(area.width as int * area.height as int <= 0xffff * 0xffff)
                by (nonlinear_arith)
                requires area.width <= 0xffff && area.height <= 0xffff;
        }
        let n: usize = area.width as usize * area.height as usize;
        let mut cells: Vec<Cell> = Vec::new();
        let mut i: usize = 0;
        while i < n
            invariant
                n == area.width * area.height,
                i <= n,
                cells@.len() == i,
                forall|j: int| 0 <= j < i ==> (#[trigger] cells@[j]).is_blank(),
            decreases n - i,
        {
            cells.push(Cell::blank());
            i = i + 1;
        }
        let b = CellBuffer { area, cells };
        proof {
            assert forall|cx: int, cy: int|
                area.contains(cx, cy) implies b.cell_at(cx, cy).is_blank() by {
                b.lemma_index_of(cx, cy);
            }
        }
        b
    }

    /// Write the cell at absolute position (cx, cy); the rest of the buffer
    /// keeps its contents.
    pub fn put(&mut self, cx: u16, cy: u16, cell: Cell)
        requires
            old(self).wf(),
            old(self).area.contains(cx as int, cy as int),
        ensures
            final(self).wf(),
            final(self).area == old(self).area,
            final(self).cell_at(cx as int, cy as int) == cell,
            forall|ax: int, ay: int|
                old(self).area.contains(ax, ay) && !(ax == cx && ay == cy)
                    ==> final(self).cell_at(ax, ay) == old(self).cell_at(ax, ay),
    {
        let n: usize = self.cells.len();
        proof {
            old(self).lemma_index_of(cx as int, cy as int);
        }
        let i: usize = (cy as usize - self.area.y as usize) * self.area.width as usize
            + (cx as usize - self.area.x as usize);
        self.cells[i] = cell;
        proof {
            assert forall|ax: int, ay: int|
                old(self).area.contains(ax, ay) && !(ax == cx && ay == cy)
                    implies self.cell_at(ax, ay) == old(self).cell_at(ax, ay) by {
                old(self).lemma_index_of(ax, ay);
            }
        }
    }

    /// Read the cell at absolute position (cx, cy).
    pub fn get(&self, cx: u16, cy: u16) -> (c: &Cell)
        requires
            self.wf(),
            self.area.contains(cx as int, cy as int),
        ensures
            *c == self.cell_at(cx as int, cy as int),
    {
        let n: usize = self.cells.len();
        proof {
            self.lemma_index_of(cx as int, cy as int);
        }
        let i: usize = (cy as usize - self.area.y as usize) * self.area.width as usize
            + (cx as usize - self.area.x as usize);
        &self.cells[i]
    }
}

} // verus!
