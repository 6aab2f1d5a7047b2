use vstd::prelude::*;

verus! {

/// Number of pixel columns.
pub const WIDTH: u8 = 64;

/// Number of pixel rows.
pub const HEIGHT: u8 = 32;

/// Number of pixels.
pub const PIXELS: usize = 2048;

/// Place of the pixel in column `x`, row `y` in the row-major grid.
/// Coordinates wrap round: column 64 is column 0, and row 32 is row 0.
pub open spec fn cell(x: int, y: int) -> int {
    (y % 32) * 64 + x % 64
}

/// The grid with every pixel off.
pub open spec fn blank() -> Seq<bool> {
    Seq::new(PIXELS as nat, |k: int| false)
}

/// A monochrome grid of 64 by 32 pixels.
#[derive(Debug, Clone)]
pub struct Framebuffer {
    data: [bool; 2048],
}

impl View for Framebuffer {
    type V = Seq<bool>;

    /// The pixels row by row; `true` is a lit pixel.
    closed spec fn view(&self) -> Seq<bool> {
        self.data@
    }
}

impl Framebuffer {
    /// The view always holds exactly 2048 pixels.
    pub proof fn lemma_len(&self)
        ensures
            self@.len() == PIXELS,
    {
    }

    /// A grid with every pixel off.
    pub fn new() -> (r: Framebuffer)
        ensures
            r@ == blank(),
    {
        Framebuffer { data: [false; 2048] }
    }

    /// Turns every pixel off, whatever the grid held.
    pub fn clear(&mut self)
        ensures
            final(self)@ == blank(),
            forall|x: int, y: int| !final(self)@[#[trigger] cell(x, y)],
    {
        self.data = [false; 2048];
        assert forall|x: int, y: int| !self@[#[trigger] cell(x, y)] by {
            assert(0 <= cell(x, y) < PIXELS);
        }
    }

    /// Combines `value` into the pixel at (`x`, `y`) by exclusive or, and
    /// says whether that turned a lit pixel off.
    pub fn write(&mut self, x: u8, y: u8, value: bool) -> (collision: bool)
        ensures
            final(self)@ == old(self)@.update(
                cell(x as int, y as int),
                old(self)@[cell(x as int, y as int)] != value,
            ),
            collision == (old(self)@[cell(x as int, y as int)] && value),
    {
        let index = (y % HEIGHT) as usize * 64 + (x % WIDTH) as usize;
        let lit = self.data[index];
        self.data[index] = lit != value;
        lit && value
    }

    /// The pixel at (`x`, `y`).
    pub fn read(&self, x: u8, y: u8) -> (lit: bool)
        ensures
            lit == self@[cell(x as int, y as int)],
    {
        let index = (y % HEIGHT) as usize * 64 + (x % WIDTH) as usize;
        self.data[index]
    }
}

} // verus!
