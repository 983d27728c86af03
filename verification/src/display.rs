//! The monochrome pixel grid.

use vstd::prelude::*;

verus! {

/// Number of pixel columns.
pub const FBWIDTH: usize = 64;

/// Number of pixel rows.
pub const FBHEIGHT: usize = 32;

/// A grid in which every pixel is off.
pub open spec fn blank_grid() -> Seq<Seq<bool>> {
    Seq::new(FBHEIGHT as nat, |y: int| Seq::new(FBWIDTH as nat, |x: int| false))
}

/// A grid has one row per display line and one entry per column in each row.
pub open spec fn grid_wf(g: Seq<Seq<bool>>) -> bool {
    &&& g.len() == FBHEIGHT
    &&& forall|y: int| 0 <= y < FBHEIGHT ==> (#[trigger] g[y]).len() == FBWIDTH
}

/// The display: 64x32 pixels, stored row by row.
pub struct Framebuffer {
    memory: [bool; 2048],
}

impl View for Framebuffer {
    type V = Seq<Seq<bool>>;

    closed spec fn view(&self) -> Seq<Seq<bool>> {
        Seq::new(
            FBHEIGHT as nat,
            |y: int| Seq::new(FBWIDTH as nat, |x: int| self.memory@[y * FBWIDTH + x]),
        )
    }
}

impl Framebuffer {
    /// A display with every pixel off.
    pub fn new() -> (fb: Self)
        ensures
            fb@ == blank_grid(),
    {
        let fb = Framebuffer { memory: [false; 2048] };
        assert(fb@ =~~= blank_grid());
        fb
    }

    /// Every display has `FBHEIGHT` rows of `FBWIDTH` pixels.
    pub proof fn lemma_dimensions(&self)
        ensures
            grid_wf(self@),
    {
    }

    /// Turns every pixel off.
    pub fn clear(&mut self)
        ensures
            final(self)@ == blank_grid(),
            forall|x: int, y: int|
                0 <= x < FBWIDTH && 0 <= y < FBHEIGHT ==> !(#[trigger] final(self)@[y][x]),
    {
        self.memory = [false; 2048];
        assert(self@ =~~= blank_grid());
    }

    /// The state of the pixel in column `x` of row `y`.
    pub fn get_xy(&self, x: usize, y: usize) -> (lit: bool)
        requires
            x < FBWIDTH,
            y < FBHEIGHT,
        ensures
            lit == self@[y as int][x as int],
    {
        self.memory[y * FBWIDTH + x]
    }

    /// Composites `value` onto the pixel in column `x` of row `y` by
    /// exclusive-or: a lit `value` toggles the pixel, an unlit one leaves it.
    pub fn xy(&mut self, x: usize, y: usize, value: bool)
        requires
            x < FBWIDTH,
            y < FBHEIGHT,
        ensures
            final(self)@ == old(self)@.update(
                y as int,
                old(self)@[y as int].update(x as int, old(self)@[y as int][x as int] ^ value),
            ),
    {
        let i: usize = y * FBWIDTH + x;
        self.memory[i] = self.memory[i] ^ value;
        assert(final(self)@ =~~= old(self)@.update(
                y as int,
                old(self)@[y as int].update(x as int, old(self)@[y as int][x as int] ^ value),
            ));
    }
}

impl Framebuffer {
    /// The whole grid, top row first, each row from left to right. Reading
    /// consumes nothing: two calls on an unchanged display give equal grids.
    pub fn dump(&self) -> (rows: Vec<Vec<bool>>)
        ensures
            rows.deep_view() == self@,
    {
        let mut rows: Vec<Vec<bool>> = Vec::new();
        let mut y: usize = 0;
        while y < FBHEIGHT
            invariant
                y <= FBHEIGHT,
                rows.len() == y,
                forall|j: int| 0 <= j < y ==> (#[trigger] rows[j])@ == self@[j],
            decreases FBHEIGHT - y,
        {
            let mut row: Vec<bool> = Vec::new();
            let mut x: usize = 0;
            while x < FBWIDTH
                invariant
                    y < FBHEIGHT,
                    x <= FBWIDTH,
                    row.len() == x,
                    forall|i: int| 0 <= i < x ==> #[trigger] row[i] == self@[y as int][i],
                decreases FBWIDTH - x,
            {
                row.push(self.get_xy(x, y));
                x += 1;
            }
            assert(row@ =~= self@[y as int]);
            rows.push(row);
            y += 1;
        }
        assert(rows.deep_view() =~~= self@);
        rows
    }
}

} // verus!
