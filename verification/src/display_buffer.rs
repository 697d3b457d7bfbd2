//! The monochrome pixel grid, with clear and XOR-draw primitives.

use vstd::prelude::*;

verus! {

/// Width of the pixel grid.
pub const DISPLAY_WIDTH: usize = 64;

/// Height of the pixel grid.
pub const DISPLAY_HEIGHT: usize = 32;

/// The grid is stored flat, column by column: cell (x, y) lives at
/// `x * DISPLAY_HEIGHT + y`.
pub open spec fn cell_index(x: int, y: int) -> int {
    x * (DISPLAY_HEIGHT as int) + y
}

/// The all-false grid.
pub open spec fn blank_grid() -> Seq<bool> {
    Seq::new((DISPLAY_WIDTH * DISPLAY_HEIGHT) as nat, |c: int| false)
}

/// What `clear` leaves behind, whatever the grid held before.
pub open spec fn spec_clear(grid: Seq<bool>) -> Seq<bool> {
    blank_grid()
}

/// Law: `clear` is idempotent — clearing an already cleared grid yields
/// exactly the grid one clear yields.
pub proof fn lemma_clear_idempotent(grid: Seq<bool>)
    ensures
        spec_clear(spec_clear(grid)) == spec_clear(grid),
{
}

pub struct DisplayBuffer {
    /// The cells, stored flat as `cell_index` lays them out.
    pub cells: Vec<bool>,
    /// Integer zoom factor a renderer may apply; not used by the core.
    pub scale: u32,
}

impl View for DisplayBuffer {
    type V = Seq<bool>;

    closed spec fn view(&self) -> Seq<bool> {
        self.cells@
    }
}

impl DisplayBuffer {
    pub open spec fn wf(&self) -> bool {
        self@.len() == DISPLAY_WIDTH * DISPLAY_HEIGHT
    }

    /// A blank grid.
    pub fn new(scale: u32) -> (r: DisplayBuffer)
        ensures
            r.wf(),
            r@ == blank_grid(),
            r.scale == scale,
    {
        let mut cells: Vec<bool> = Vec::new();
        while cells.len() < DISPLAY_WIDTH * DISPLAY_HEIGHT
            invariant
                cells@ == Seq::new(cells@.len(), |c: int| false),
                cells@.len() <= DISPLAY_WIDTH * DISPLAY_HEIGHT,
            decreases DISPLAY_WIDTH * DISPLAY_HEIGHT - cells@.len(),
        {
            cells.push(false);
            proof {
                assert(cells@ =~= Seq::new(cells@.len(), |c: int| false));
            }
        }
        DisplayBuffer { cells, scale }
    }

    /// Sets every cell to false.
    pub fn clear(&mut self)
        requires
            old(self).wf(),
        ensures
            final(self).wf(),
            final(self)@ == spec_clear(old(self)@),
            final(self).scale == old(self).scale,
    {
        let mut k: usize = 0;
        while k < DISPLAY_WIDTH * DISPLAY_HEIGHT
            invariant
                self@.len() == DISPLAY_WIDTH * DISPLAY_HEIGHT,
                0 <= k <= DISPLAY_WIDTH * DISPLAY_HEIGHT,
                forall|c: int| 0 <= c < k ==> self@[c] == false,
                self.scale == old(self).scale,
            decreases DISPLAY_WIDTH * DISPLAY_HEIGHT - k,
        {
            self.cells[k] = false;
            k = k + 1;
        }
        proof {
            assert(self@ =~= blank_grid());
        }
    }

    /// Reads the cell at (x, y).
    pub fn get(&self, x: usize, y: usize) -> (r: bool)
        requires
            self.wf(),
            x < DISPLAY_WIDTH,
            y < DISPLAY_HEIGHT,
        ensures
            r == self@[cell_index(x as int, y as int)],
    {
        self.cells[x * DISPLAY_HEIGHT + y]
    }

    /// XORs `bit` into the cell at (x, y) and reports a collision: true
    /// exactly when a set sprite bit lands on an already set cell.
    pub fn xor_pixel(&mut self, x: usize, y: usize, bit: bool) -> (collided: bool)
        requires
            old(self).wf(),
            x < DISPLAY_WIDTH,
            y < DISPLAY_HEIGHT,
        ensures
            final(self).wf(),
            final(self)@ == old(self)@.update(
                cell_index(x as int, y as int),
                old(self)@[cell_index(x as int, y as int)] != bit,
            ),
            collided == (bit && old(self)@[cell_index(x as int, y as int)]),
            final(self).scale == old(self).scale,
    {
        let idx = x * DISPLAY_HEIGHT + y;
        let cell = self.cells[idx];
        self.cells[idx] = cell ^ bit;
        bit && cell
    }
}

} // verus!
