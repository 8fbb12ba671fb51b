//! The monochrome framebuffer: a fixed 64x32 grid of boolean pixels, stored
//! row-major, with a clear operation and the sprite-blit that the `Draw`
//! instruction uses.
//!
//! A sprite is a sequence of bytes, one byte per row, the most significant
//! bit leftmost. Blitting XORs the sprite into the grid: a sprite bit over a
//! lit pixel turns it off (a collision), over a dark pixel turns it on. Rows
//! and columns that would fall outside the grid are dropped, not wrapped.

use vstd::prelude::*;
use vstd::pervasive::VecAdditionalExecFns;

verus! {

/// Pixel columns per row.
pub const SCREEN_WIDTH: usize = 64;

/// Pixel rows.
pub const SCREEN_HEIGHT: usize = 32;

/// The all-dark pixel grid.
pub open spec fn blank_screen() -> Seq<bool> {
    Seq::new(2048, |i: int| false)
}

/// Bit `col` of a sprite row, counted from the most significant bit:
/// column 0 is bit 7.
pub open spec fn sprite_row_bit(row: u8, col: int) -> bool {
    (row >> ((7 - col) as u8)) & 1 == 1
}

/// Whether the sprite placed at `(sx, sy)` with `h` rows covers the pixel
/// at `(x, y)`: inside the 8-column, `h`-row box and on the grid. Pixels
/// past the right or bottom edge are clipped away, never wrapped around.
pub open spec fn draw_covers(sx: int, sy: int, h: int, x: int, y: int) -> bool {
    &&& sx <= x < sx + 8
    &&& x < 64
    &&& sy <= y < sy + h
    &&& y < 32
}

/// The sprite bit that lands on flat pixel index `i` when the sprite is
/// placed at `(sx, sy)`. Meaningful only where the sprite covers `i`.
pub open spec fn sprite_bit_at(sprite: Seq<u8>, sx: int, sy: int, i: int) -> bool {
    sprite_row_bit(sprite[i / 64 - sy], i % 64 - sx)
}

/// The grid after XOR-merging `sprite` at `(sx, sy)`: covered pixels flip
/// where the sprite bit is set, all other pixels keep their value.
pub open spec fn screen_after_draw(s: Seq<bool>, sprite: Seq<u8>, sx: int, sy: int) -> Seq<bool> {
    Seq::new(
        s.len(),
        |i: int|
            if draw_covers(sx, sy, sprite.len() as int, i % 64, i / 64) {
                s[i] != sprite_bit_at(sprite, sx, sy, i)
            } else {
                s[i]
            },
    )
}

/// A collision at pixel `i`: the sprite covers it with a set bit while the
/// pixel is already lit, so the merge turns it off.
pub open spec fn collision_at(s: Seq<bool>, sprite: Seq<u8>, sx: int, sy: int, i: int) -> bool {
    &&& 0 <= i < s.len()
    &&& draw_covers(sx, sy, sprite.len() as int, i % 64, i / 64)
    &&& s[i]
    &&& sprite_bit_at(sprite, sx, sy, i)
}

/// Whether blitting `sprite` at `(sx, sy)` turns any lit pixel off.
pub open spec fn draw_collides(s: Seq<bool>, sprite: Seq<u8>, sx: int, sy: int) -> bool {
    exists|i: int| #[trigger] collision_at(s, sprite, sx, sy, i)
}

/// Blitting the same sprite twice at the same spot restores the grid: the
/// XOR merge is its own inverse, so the second blit turns exactly the pixels
/// it lit back off and relights the ones it turned off.
pub proof fn lemma_draw_twice_restores(s: Seq<bool>, sprite: Seq<u8>, sx: int, sy: int)
    ensures
        screen_after_draw(screen_after_draw(s, sprite, sx, sy), sprite, sx, sy) == s,
{
    assert(screen_after_draw(screen_after_draw(s, sprite, sx, sy), sprite, sx, sy) =~= s);
}

/// Clipping, not wraparound: a blit leaves every pixel outside the sprite's
/// box untouched — nothing to the left of the start column, above the start
/// row, or past an edge the sprite ran off.
pub proof fn lemma_draw_clips(s: Seq<bool>, sprite: Seq<u8>, sx: int, sy: int, i: int)
    requires
        0 <= i < s.len(),
        !draw_covers(sx, sy, sprite.len() as int, i % 64, i / 64),
    ensures
        screen_after_draw(s, sprite, sx, sy)[i] == s[i],
{
}

/// The fixed 64x32 monochrome pixel grid.
pub struct Screen {
    /// Row-major pixel state, row 0 at the top; `true` is lit.
    pub pixels: Vec<bool>,
}

impl View for Screen {
    type V = Seq<bool>;

    open spec fn view(&self) -> Seq<bool> {
        self.pixels@
    }
}

impl Screen {
    /// The grid holds exactly its 64x32 pixels.
    pub open spec fn wf(&self) -> bool {
        self.pixels@.len() == 2048
    }

    /// A fresh grid with every pixel dark.
    pub fn new() -> (s: Screen)
        ensures
            s.wf(),
            s@ == blank_screen(),
    {
        let mut pixels: Vec<bool> = Vec::new();
        while pixels.len() < 2048
            invariant
                pixels@.len() <= 2048,
                forall|k: int| 0 <= k < pixels@.len() ==> !pixels@[k],
            decreases 2048 - pixels@.len(),
        {
            pixels.push(false);
        }
        proof {
            assert(pixels@ =~= blank_screen());
        }
        Screen { pixels }
    }

    /// Read the pixel at column `x`, row `y`.
    pub fn pixel(&self, x: usize, y: usize) -> (b: bool)
        requires
            self.wf(),
            x < 64,
            y < 32,
        ensures
            b == self@[y as int * 64 + x as int],
    {
        self.pixels[y * 64 + x]
    }

    /// Reset every pixel to dark.
    pub fn clear(&mut self)
        requires
            old(self).wf(),
        ensures
            final(self).wf(),
            final(self)@ == blank_screen(),
    {
        let mut i: usize = 0;
        while i < 2048
            invariant
                self.pixels@.len() == 2048,
                i <= 2048,
                forall|k: int| 0 <= k < i ==> !self.pixels@[k],
            decreases 2048 - i,
        {
            self.pixels.set(i, false);
            i = i + 1;
        }
        proof {
            assert(self.pixels@ =~= blank_screen());
        }
    }

    /// XOR-merge `sprite` into the grid at `(sx, sy)`, clipping at the right
    /// and bottom edges, and report whether any lit pixel was turned off.
    pub fn blit(&mut self, sprite: &Vec<u8>, sx: usize, sy: usize) -> (collision: bool)
        requires
            old(self).wf(),
            sx < 64,
            sy < 32,
        ensures
            final(self).wf(),
            final(self)@ == screen_after_draw(old(self)@, sprite@, sx as int, sy as int),
            collision == draw_collides(old(self)@, sprite@, sx as int, sy as int),
    {
        let ghost s0 = self.pixels@;
        let h = sprite.len();
        let mut collision = false;
        let mut i: usize = 0;
        while i < 2048
            invariant
                self.pixels@.len() == 2048,
                s0.len() == 2048,
                i <= 2048,
                sx < 64,
                sy < 32,
                h == sprite@.len(),
                forall|k: int|
                    0 <= k < i ==> self.pixels@[k] == screen_after_draw(s0, sprite@, sx as int, sy as int)[k],
                forall|k: int| i <= k < 2048 ==> self.pixels@[k] == s0[k],
                collision == exists|k: int|
                    0 <= k < i && #[trigger] collision_at(s0, sprite@, sx as int, sy as int, k),
            decreases 2048 - i,
        {
            let x = i % 64;
            let y = i / 64;
            if sx <= x && x < sx + 8 && sy <= y && y - sy < h {
                let row: u8 = sprite[y - sy];
                let sh: u8 = (7 - (x - sx)) as u8;
                let bit = ((row >> sh) & 1) == 1;
                let cur = self.pixels[i];
                proof {
                    assert(draw_covers(sx as int, sy as int, h as int, i as int % 64, i as int / 64));
                    assert(bit == sprite_bit_at(sprite@, sx as int, sy as int, i as int));
                }
                if bit {
                    if cur {
                        collision = true;
                        proof {
                            assert(collision_at(s0, sprite@, sx as int, sy as int, i as int));
                        }
                    }
                    self.pixels.set(i, !cur);
                }
            }
            i = i + 1;
        }
        proof {
            assert(self.pixels@ =~= screen_after_draw(s0, sprite@, sx as int, sy as int));
            assert(collision == draw_collides(s0, sprite@, sx as int, sy as int)) by {
                if collision {
                } else {
                    assert forall|k: int| !collision_at(s0, sprite@, sx as int, sy as int, k) by {
                        if 0 <= k < 2048 {
                            assert(!(0 <= k < 2048 && collision_at(s0, sprite@, sx as int, sy as int, k)));
                        }
                    }
                }
            }
        }
        collision
    }
}

} // verus!
