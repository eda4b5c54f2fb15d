//! The monochrome bitmap display: a fixed 64 x 32 grid of single-bit cells
//! stored one cell per byte, cleared by the clear-screen instruction and
//! mutated by the XOR sprite blit. Coordinates wrap at both edges. A
//! collision is a cell flipping from set to unset under the blit.

use vstd::prelude::*;

verus! {

/// Width of the display grid in cells.
pub const DISPLAY_WIDTH: usize = 64;

/// Height of the display grid in cells.
pub const DISPLAY_HEIGHT: usize = 32;

/// Total number of cells in the display grid.
pub const DISPLAY_CELLS: usize = 2048;

/// Position of cell `(x, y)` in the row-major buffer.
pub open spec fn spec_cell_index(x: int, y: int) -> int {
    y * 64 + x
}

/// Bit `k` (0 = most significant) of a sprite row byte, as a cell value.
pub open spec fn sprite_bit(bits: u8, k: int) -> u8 {
    (bits >> ((7 - k) as u8)) & 1
}

/// How far cell column `col` lies to the right of column `x % 64`,
/// wrapping around the right edge.
pub open spec fn col_offset(col: int, x: int) -> int {
    (col + 64 - x % 64) % 64
}

/// The value of cell `idx` after one sprite row `bits` is blitted at
/// `(x, y)`: cells of row `y % 32` within eight wrapped columns of
/// `x % 64` are XORed with the matching sprite bit; all others keep
/// their value.
pub open spec fn blit_cell(buf: Seq<u8>, bits: u8, x: int, y: int, idx: int) -> u8 {
    if idx / 64 == y % 32 && col_offset(idx % 64, x) < 8 {
        buf[idx] ^ sprite_bit(bits, col_offset(idx % 64, x))
    } else {
        buf[idx]
    }
}

/// The whole buffer after one sprite row is blitted at `(x, y)`.
pub open spec fn blit_row(buf: Seq<u8>, bits: u8, x: int, y: int) -> Seq<u8> {
    Seq::new(buf.len(), |idx: int| blit_cell(buf, bits, x, y, idx))
}

/// Cell `idx` collides under the blit: it is set and the sprite bit
/// landing on it is set, so the XOR erases it.
pub open spec fn row_hit(buf: Seq<u8>, bits: u8, x: int, y: int, idx: int) -> bool {
    &&& idx / 64 == y % 32
    &&& col_offset(idx % 64, x) < 8
    &&& buf[idx] == 1
    &&& sprite_bit(bits, col_offset(idx % 64, x)) == 1
}

/// Whether blitting one sprite row at `(x, y)` erases any set cell.
pub open spec fn blit_row_collides(buf: Seq<u8>, bits: u8, x: int, y: int) -> bool {
    exists|idx: int| 0 <= idx < buf.len() && row_hit(buf, bits, x, y, idx)
}

/// The buffer and accumulated collision flag after blitting the sprite
/// rows `rows` starting at `(x, y)`, row `j` landing on display row
/// `y + j`. The collision results of the rows are ORed together.
pub open spec fn draw_rows(buf: Seq<u8>, rows: Seq<u8>, x: int, y: int) -> (Seq<u8>, bool)
    decreases rows.len(),
{
    if rows.len() <= 0 {
        (buf, false)
    } else {
        let prev = draw_rows(buf, rows.drop_last(), x, y);
        let j = rows.len() - 1;
        (
            blit_row(prev.0, rows.last(), x, y + j),
            prev.1 || blit_row_collides(prev.0, rows.last(), x, y + j),
        )
    }
}

/// A sprite bit is a cell value: 0 or 1.
pub proof fn lemma_sprite_bit_is_cell(bits: u8, s: u8)
    by (bit_vector)
    ensures
        (bits >> s) & 1 < 2,
{
}

/// XOR of two cell values is a cell value, and XORing the same bit twice
/// restores the cell.
pub proof fn lemma_xor_cell(a: u8, b: u8)
    by (bit_vector)
    ensures
        a < 2 && b < 2 ==> (a ^ b) < 2,
        (a ^ b) ^ b == a,
{
}

/// The display grid. Its view is the row-major sequence of cell values.
pub struct Display {
    buffer: Vec<u8>,
}

impl View for Display {
    type V = Seq<u8>;

    closed spec fn view(&self) -> Seq<u8> {
        self.buffer@
    }
}

impl Display {
    /// The buffer holds one byte per cell and every cell is 0 or 1.
    pub open spec fn wf(&self) -> bool {
        &&& self@.len() == DISPLAY_CELLS
        &&& forall|i: int| 0 <= i < DISPLAY_CELLS ==> self@[i] < 2
    }

    /// A fresh display, every cell unset.
    pub fn new() -> (r: Display)
        ensures
            r.wf(),
            forall|i: int| 0 <= i < DISPLAY_CELLS ==> r@[i] == 0u8,
    {
        let mut buffer: Vec<u8> = Vec::new();
        let mut k: usize = 0;
        while k < DISPLAY_CELLS
            invariant
                k <= DISPLAY_CELLS,
                buffer@.len() == k,
                forall|i: int| 0 <= i < k ==> buffer@[i] == 0u8,
            decreases DISPLAY_CELLS - k,
        {
            buffer.push(0u8);
            k = k + 1;
        }
        Display { buffer }
    }

    /// Resets every cell to unset.
    pub fn clear(&mut self)
        requires
            old(self).wf(),
        ensures
            final(self).wf(),
            final(self)@.len() == DISPLAY_CELLS,
            forall|i: int| 0 <= i < DISPLAY_CELLS ==> final(self)@[i] == 0u8,
    {
        let mut k: usize = 0;
        while k < DISPLAY_CELLS
            invariant
                k <= DISPLAY_CELLS,
                self.buffer@.len() == DISPLAY_CELLS,
                forall|i: int| 0 <= i < k ==> self.buffer@[i] == 0u8,
                forall|i: int| k <= i < DISPLAY_CELLS ==> self.buffer@[i] < 2,
            decreases DISPLAY_CELLS - k,
        {
            self.buffer.set(k, 0u8);
            k = k + 1;
        }
    }

    /// The grid, read-only, for the host renderer.
    pub fn get_buffer(&self) -> (r: &Vec<u8>)
        ensures
            r@ == self@,
    {
        &self.buffer
    }

    /// Position of cell `(x, y)` in the buffer returned by `get_buffer`.
    pub fn get_index_from_coords(x: usize, y: usize) -> (r: usize)
        requires
            x < DISPLAY_WIDTH,
            y < DISPLAY_HEIGHT,
        ensures
            r == spec_cell_index(x as int, y as int),
            r < DISPLAY_CELLS,
    {
        y * DISPLAY_WIDTH + x
    }

    /// Blits one sprite row byte at `(x, y)` by XOR, wrapping at both
    /// edges, and reports whether any set cell was erased.
    pub fn draw_byte(&mut self, bits: u8, x: usize, y: usize) -> (collided: bool)
        requires
            old(self).wf(),
        ensures
            final(self).wf(),
            final(self)@ == blit_row(old(self)@, bits, x as int, y as int),
            collided == blit_row_collides(old(self)@, bits, x as int, y as int),
    {
        let ghost buf0 = self@;
        let xm: usize = x % 64;
        let ym: usize = y % 32;
        let mut collided: bool = false;
        let mut idx: usize = 0;
        while idx < DISPLAY_CELLS
            invariant
                old(self).wf(),
                idx <= DISPLAY_CELLS,
                buf0 == old(self)@,
                self.buffer@.len() == DISPLAY_CELLS,
                forall|i: int| 0 <= i < DISPLAY_CELLS ==> self.buffer@[i] < 2,
                xm == (x as int) % 64,
                ym == (y as int) % 32,
                forall|i: int| 0 <= i < idx ==> self.buffer@[i] == blit_cell(
                    buf0,
                    bits,
                    x as int,
                    y as int,
                    i,
                ),
                forall|i: int| idx <= i < DISPLAY_CELLS ==> self.buffer@[i] == buf0[i],
                collided == exists|i: int|
                    0 <= i < idx && row_hit(buf0, bits, x as int, y as int, i),
            decreases DISPLAY_CELLS - idx,
        {
            let row: usize = idx / 64;
            let col: usize = idx % 64;
            let off: usize = (col + 64 - xm) % 64;
            if row == ym && off < 8 {
                let bit: u8 = (bits >> ((7 - off) as u8)) & 1;
                proof {
                    assert(off == col_offset(idx as int % 64, x as int));
                    assert(bit == sprite_bit(bits, off as int));
                }
                let oldpx: u8 = self.buffer[idx];
                let newpx: u8 = oldpx ^ bit;
                proof {
                    lemma_sprite_bit_is_cell(bits, (7 - off) as u8);
                    lemma_xor_cell(oldpx, bit);
                }
                self.buffer.set(idx, newpx);
                if oldpx == 1 && bit == 1 {
                    collided = true;
                    proof {
                        assert(row_hit(buf0, bits, x as int, y as int, idx as int));
                    }
                }
            }
            idx = idx + 1;
        }
        proof {
            assert(final(self)@ =~= blit_row(buf0, bits, x as int, y as int));
        }
        collided
    }
}

} // verus!
