use vstd::prelude::*;

verus! {

/// Width of the pixel grid in columns.
pub const SCREEN_WIDTH: usize = 64;

/// Height of the pixel grid in rows.
pub const SCREEN_HEIGHT: usize = 32;

/// Total number of pixels, row-major.
pub const SCREEN_PIXELS: usize = SCREEN_WIDTH * SCREEN_HEIGHT;

/// Row-major index of the pixel at column `x`, row `y`.
pub open spec fn pixel_index(x: int, y: int) -> int {
    y * 64 + x
}

/// Bit `i` of a sprite row byte, most-significant bit first: bit 0 is the
/// leftmost drawn pixel.
pub open spec fn sprite_bit(line: u8, i: int) -> bool {
    (line >> ((7 - i) as u8)) & 1 == 1
}

/// The grid after one sprite row byte has been written at column `x`, row
/// `y`: up to eight pixels of row `y` are overwritten with the byte's bits,
/// columns past the right edge are not drawn, and every other pixel keeps its
/// value.
pub open spec fn spec_row_write(grid: Seq<bool>, x: int, y: int, line: u8) -> Seq<bool> {
    Seq::new(
        grid.len(),
        |k: int|
            if k / 64 == y && x <= k % 64 < x + 8 {
                sprite_bit(line, k % 64 - x)
            } else {
                grid[k]
            },
    )
}

/// Whether writing the sprite row would change the value of any pixel it
/// touches.
pub open spec fn spec_row_changed(grid: Seq<bool>, x: int, y: int, line: u8) -> bool {
    exists|c: int|
        x <= c < x + 8 && c < 64 && 0 <= pixel_index(c, y) < grid.len() && grid[pixel_index(c, y)]
            != sprite_bit(line, c - x)
}

/// A sprite row write is an overwrite, not a toggle: writing the same byte at
/// the same position a second time leaves the grid as it is and reports no
/// change.
pub proof fn lemma_row_write_idempotent(grid: Seq<bool>, x: int, y: int, line: u8)
    requires
        grid.len() == SCREEN_PIXELS,
        0 <= x,
        0 <= y < SCREEN_HEIGHT,
    ensures
        spec_row_write(spec_row_write(grid, x, y, line), x, y, line) == spec_row_write(
            grid,
            x,
            y,
            line,
        ),
        !spec_row_changed(spec_row_write(grid, x, y, line), x, y, line),
{
    let once = spec_row_write(grid, x, y, line);
    assert forall|c: int|
        x <= c < x + 8 && c < 64 && 0 <= pixel_index(c, y) < once.len() implies once[pixel_index(
        c,
        y,
    )] == sprite_bit(line, c - x) by {
        assert(pixel_index(c, y) / 64 == y && pixel_index(c, y) % 64 == c);
    }
    assert(spec_row_write(once, x, y, line) =~= once);
}

/// The 64x32 monochrome pixel grid, mutable only through the compositing row
/// write and the clear operation.
pub struct Screen {
    pixels: Vec<bool>,
}

impl View for Screen {
    type V = Seq<bool>;

    closed spec fn view(&self) -> Seq<bool> {
        self.pixels@
    }
}

impl Screen {
    /// The grid always holds exactly one value per pixel.
    pub open spec fn wf(&self) -> bool {
        self@.len() == SCREEN_PIXELS
    }

    /// A fresh grid with every pixel off.
    pub fn new() -> (s: Screen)
        ensures
            s.wf(),
            forall|k: int| 0 <= k < SCREEN_PIXELS ==> !s@[k],
    {
        Screen { pixels: crate::memory::filled_vec(false, SCREEN_PIXELS) }
    }

    /// Turn every pixel off.
    pub fn clear(&mut self)
        requires
            old(self).wf(),
        ensures
            final(self).wf(),
            forall|k: int| 0 <= k < SCREEN_PIXELS ==> !final(self)@[k],
    {
        let mut i: usize = 0;
        while i < SCREEN_PIXELS
            invariant
                self@.len() == SCREEN_PIXELS,
                i <= SCREEN_PIXELS,
                forall|k: int| 0 <= k < i ==> !self@[k],
            decreases SCREEN_PIXELS - i,
        {
            self.pixels[i] = false;
            i = i + 1;
        }
    }

    /// Read one pixel.
    pub fn get_pixel(&self, x: usize, y: usize) -> (b: bool)
        requires
            self.wf(),
            x < SCREEN_WIDTH,
            y < SCREEN_HEIGHT,
        ensures
            b == self@[pixel_index(x as int, y as int)],
    {
        self.pixels[y * SCREEN_WIDTH + x]
    }

    /// Overwrite one pixel and report whether its value changed.
    pub fn set_pixel(&mut self, x: usize, y: usize, state: bool) -> (changed: bool)
        requires
            old(self).wf(),
            x < SCREEN_WIDTH,
            y < SCREEN_HEIGHT,
        ensures
            final(self).wf(),
            final(self)@ == old(self)@.update(pixel_index(x as int, y as int), state),
            changed == (state != old(self)@[pixel_index(x as int, y as int)]),
    {
        let index = y * SCREEN_WIDTH + x;
        let prev = self.pixels[index];
        self.pixels[index] = state;
        state != prev
    }

    /// Write one sprite row byte at column `x`, row `y`, most-significant bit
    /// leftmost, overwriting the pixels it covers; columns beyond the right
    /// edge are not drawn. Reports whether any covered pixel changed value.
    pub fn draw_sprite_line(&mut self, x: u8, y: u8, line: u8) -> (changed: bool)
        requires
            old(self).wf(),
            y < SCREEN_HEIGHT,
        ensures
            final(self).wf(),
            final(self)@ == spec_row_write(old(self)@, x as int, y as int, line),
            changed == spec_row_changed(old(self)@, x as int, y as int, line),
    {
        let ghost g0 = self@;
        let x_usize = x as usize;
        let y_usize = y as usize;
        if x_usize >= SCREEN_WIDTH {
            proof {
                assert(self@ =~= spec_row_write(g0, x as int, y as int, line));
            }
            return false;
        }
        let count = if x_usize + 8 <= SCREEN_WIDTH {
            8
        } else {
            SCREEN_WIDTH - x_usize
        };
        let mut any_changes = false;
        let mut i: usize = 0;
        while i < count
            invariant
                self@.len() == SCREEN_PIXELS,
                g0.len() == SCREEN_PIXELS,
                x_usize == x as int,
                y_usize == y as int,
                y < SCREEN_HEIGHT,
                x_usize < SCREEN_WIDTH,
                i <= count,
                count == if x_usize + 8 <= SCREEN_WIDTH {
                    8int
                } else {
                    SCREEN_WIDTH - x_usize
                },
                forall|k: int|
                    0 <= k < SCREEN_PIXELS ==> self@[k] == (if k / 64 == y as int && x as int <= k
                        % 64 < x as int + i {
                        sprite_bit(line, k % 64 - x as int)
                    } else {
                        g0[k]
                    }),
                any_changes == exists|c: int|
                    x as int <= c < x as int + i && c < 64 && g0[pixel_index(c, y as int)]
                        != sprite_bit(line, c - x as int),
            decreases count - i,
        {
            let shift: u8 = (7 - i) as u8;
            let state = (line >> shift) & 1 == 1;
            proof {
                assert(state == sprite_bit(line, i as int));
                assert(pixel_index((x_usize + i) as int, y as int) / 64 == y as int
                    && pixel_index((x_usize + i) as int, y as int) % 64 == x as int + i);
            }
            let row_changed = self.set_pixel(x_usize + i, y_usize, state);
            any_changes = any_changes || row_changed;
            i = i + 1;
        }
        proof {
            assert(self@ =~= spec_row_write(g0, x as int, y as int, line));
            assert(any_changes == spec_row_changed(g0, x as int, y as int, line));
        }
        any_changes
    }
}

} // verus!
