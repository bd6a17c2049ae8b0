//! The 64x32 monochrome screen of the virtual machine.
//!
//! ```text
//! O-----------------> X
//! |(0,0)      (63,0)|
//! |                 |
//! |(0,31)    (63,31)|
//! v-----------------.
//! Y
//! ```
use vstd::prelude::*;

verus! {

/// The display width, in pixels.
pub const DISPLAY_WIDTH: usize = 64;

/// The display height, in pixels.
pub const DISPLAY_HEIGHT: usize = 32;

/// The pixel grid, as rows of pixel values (`1` white, `0` black).
pub open spec fn grid_of(gfx: [[u8; DISPLAY_WIDTH]; DISPLAY_HEIGHT]) -> Seq<Seq<u8>> {
    Seq::new(DISPLAY_HEIGHT as nat, |r: int| gfx@[r]@)
}

/// Whether bit `i` of a sprite row, counted from the most significant one,
/// is set.
pub open spec fn sprite_bit(byte: u8, i: int) -> bool {
    byte & (0x80u8 >> (i as u8)) != 0
}

/// Whether a sprite row drawn from column `x` covers column `c` with a set
/// bit (columns wrap around the screen).
pub open spec fn col_hit(x: int, byte: u8, c: int) -> bool {
    let i = (c - x) % (DISPLAY_WIDTH as int);
    i < 8 && sprite_bit(byte, i)
}

/// The screen row that row `j` of a sprite drawn from row `y` lands on.
pub open spec fn sprite_row(y: int, j: int) -> int {
    (y + j) % (DISPLAY_HEIGHT as int)
}

/// A pixel value after it has been toggled.
pub open spec fn toggle(v: u8) -> u8 {
    v ^ 1u8
}

/// The grid after the sprite row `byte` is XORed at column `x` of row `r`.
pub open spec fn xor_row(g: Seq<Seq<u8>>, x: int, r: int, byte: u8) -> Seq<Seq<u8>> {
    g.update(
        r,
        Seq::new(g[r].len(), |c: int| if col_hit(x, byte, c) { toggle(g[r][c]) } else { g[r][c] }),
    )
}

/// Whether XORing the sprite row `byte` at column `x` of row `r` turns a
/// set pixel off.
pub open spec fn row_collides(g: Seq<Seq<u8>>, x: int, r: int, byte: u8) -> bool {
    exists|c: int| 0 <= c < DISPLAY_WIDTH && col_hit(x, byte, c) && #[trigger] g[r][c] == 1
}

/// The grid after the sprite rows are XORed one after the other at
/// `(x, y)`, `(x, y + 1)`, ..., rows wrapping around the screen.
pub open spec fn draw_spec(g: Seq<Seq<u8>>, x: int, y: int, sprite: Seq<u8>) -> Seq<Seq<u8>>
    decreases sprite.len(),
{
    if sprite.len() == 0 {
        g
    } else {
        let j = sprite.len() - 1;
        xor_row(
            draw_spec(g, x, y, sprite.drop_last()),
            x,
            sprite_row(y, j),
            sprite[j],
        )
    }
}

/// Whether drawing the sprite at `(x, y)` turns any set pixel off.
pub open spec fn collides_spec(g: Seq<Seq<u8>>, x: int, y: int, sprite: Seq<u8>) -> bool
    decreases sprite.len(),
{
    if sprite.len() == 0 {
        false
    } else {
        let j = sprite.len() - 1;
        collides_spec(g, x, y, sprite.drop_last()) || row_collides(
            draw_spec(g, x, y, sprite.drop_last()),
            x,
            sprite_row(y, j),
            sprite[j],
        )
    }
}

/// The graphics component of the virtual machine.
#[derive(Clone, Copy)]
pub struct Display {
    /// The screen; `gfx[y][x]` is the pixel of column `x` in row `y`.
    pub gfx: [[u8; DISPLAY_WIDTH]; DISPLAY_HEIGHT],
    /// Whether the screen changed since it was last rendered; the renderer
    /// clears it.
    pub dirty: bool,
}

impl Display {
    /// The pixel grid.
    pub open spec fn grid(&self) -> Seq<Seq<u8>> {
        grid_of(self.gfx)
    }

    /// A black screen, marked dirty.
    pub fn new() -> (r: Display)
        ensures
            r.grid() == Seq::new(DISPLAY_HEIGHT as nat, |y: int| Seq::new(DISPLAY_WIDTH as nat, |x: int| 0u8)),
            r.dirty,
    {
        let r = Display { gfx: [[0u8; DISPLAY_WIDTH]; DISPLAY_HEIGHT], dirty: true };
        assert(r.grid() =~~= Seq::new(DISPLAY_HEIGHT as nat, |y: int| Seq::new(DISPLAY_WIDTH as nat, |x: int| 0u8)));
        r
    }

    /// Clear the screen (all pixels black) and mark it dirty.
    pub fn clear(&mut self)
        ensures
            final(self).grid() == Seq::new(DISPLAY_HEIGHT as nat, |y: int| Seq::new(DISPLAY_WIDTH as nat, |x: int| 0u8)),
            final(self).dirty,
    {
        self.gfx = [[0u8; DISPLAY_WIDTH]; DISPLAY_HEIGHT];
        self.dirty = true;
        assert(self.grid() =~~= Seq::new(DISPLAY_HEIGHT as nat, |y: int| Seq::new(DISPLAY_WIDTH as nat, |x: int| 0u8)));
    }

    /// Draw the sprite `sprite` (one byte per row, most significant bit
    /// leftmost) with its top left corner at `(xpos, ypos)`, toggling the
    /// pixels under its set bits; coordinates wrap around the screen.
    /// Return whether a set pixel was turned off (a collision). The screen is
    /// marked dirty in every case.
    pub fn draw(&mut self, xpos: usize, ypos: usize, sprite: &[u8]) -> (collision: bool)
        ensures
            final(self).grid() == draw_spec(old(self).grid(), xpos as int, ypos as int, sprite@),
            collision == collides_spec(old(self).grid(), xpos as int, ypos as int, sprite@),
            final(self).dirty,
    {
        let ghost g0 = self.grid();
        let mut collision = false;
        let h = sprite.len();
        let y0 = ypos % DISPLAY_HEIGHT;
        let mut j: usize = 0;
        while j < h
            invariant
                j <= h,
                h == sprite@.len(),
                y0 == ypos % DISPLAY_HEIGHT,
                g0 == old(self).grid(),
                self.grid() == draw_spec(g0, xpos as int, ypos as int, sprite@.take(j as int)),
                collision == collides_spec(g0, xpos as int, ypos as int, sprite@.take(j as int)),
            decreases h - j,
        {
            let y = (y0 + j % DISPLAY_HEIGHT) % DISPLAY_HEIGHT;
            proof {
                lemma_row_wrap(ypos as int, j as int);
                assert(sprite@.take(j + 1).drop_last() =~= sprite@.take(j as int));
            }
            if self.draw_row(xpos, y, sprite[j]) {
                collision = true;
            }
            j = j + 1;
        }
        assert(sprite@.take(h as int) =~= sprite@);
        self.dirty = true;
        collision
    }

    /// XOR one sprite row at column `xpos` of row `y`; return whether a set
    /// pixel was turned off.
    fn draw_row(&mut self, xpos: usize, y: usize, byte: u8) -> (hit: bool)
        requires
            y < DISPLAY_HEIGHT,
        ensures
            final(self).grid() == xor_row(old(self).grid(), xpos as int, y as int, byte),
            hit == row_collides(old(self).grid(), xpos as int, y as int, byte),
            final(self).dirty == old(self).dirty,
    {
        let ghost g0 = self.grid();
        let ghost x = xpos as int;
        let x0 = xpos % DISPLAY_WIDTH;
        let mut hit = false;
        let mut i: usize = 0;
        while i < 8
            invariant
                i <= 8,
                y < DISPLAY_HEIGHT,
                x == xpos as int,
                x0 == xpos % DISPLAY_WIDTH,
                g0 == old(self).grid(),
                self.dirty == old(self).dirty,
                forall|r: int| 0 <= r < DISPLAY_HEIGHT && r != y ==> self.gfx@[r] == old(self).gfx@[r],
                forall|c: int|
                    0 <= c < DISPLAY_WIDTH ==> #[trigger] self.gfx@[y as int]@[c] == (if (c - x) % 64 < i
                        && sprite_bit(byte, (c - x) % 64) {
                        toggle(g0[y as int][c])
                    } else {
                        g0[y as int][c]
                    }),
                hit == exists|c: int|
                    0 <= c < DISPLAY_WIDTH && (c - x) % 64 < i && sprite_bit(byte, (c - x) % 64)
                        && #[trigger] g0[y as int][c] == 1,
            decreases 8 - i,
        {
            let cx = (x0 + i) % DISPLAY_WIDTH;
            proof {
                lemma_column_offset(x, i as int);
            }
            if byte & (0x80u8 >> (i as u8)) != 0 {
                if self.gfx[y][cx] == 1 {
                    hit = true;
                }
                self.gfx[y][cx] = self.gfx[y][cx] ^ 1;
            }
            i = i + 1;
        }
        assert(self.grid() =~~= xor_row(g0, x, y as int, byte));
        hit
    }
}

/// Row `j` of a sprite drawn from row `y` lands on row `y + j`, modulo the
/// height.
proof fn lemma_row_wrap(y: int, j: int)
    requires
        0 <= j,
    ensures
        (y % 32 + j % 32) % 32 == (y + j) % 32,
{
}

/// The column that the `i`-th bit of a sprite row drawn from `x` lands on
/// is `i` places right of `x`, modulo the width.
proof fn lemma_column_offset(x: int, i: int)
    requires
        0 <= i < DISPLAY_WIDTH,
    ensures
        ((x % 64 + i) % 64 - x) % 64 == i,
{
}

} // verus!

verus! {

/// Toggling a pixel twice gives it back.
proof fn lemma_toggle_twice(v: u8)
    ensures
        toggle(toggle(v)) == v,
        toggle(1u8) == 0u8,
{
    assert((v ^ 1u8) ^ 1u8 == v) by (bit_vector);
    assert(1u8 ^ 1u8 == 0u8) by (bit_vector);
}

/// XORing the same sprite row twice at the same place gives the grid back.
proof fn lemma_xor_row_twice(g: Seq<Seq<u8>>, x: int, r: int, b: u8)
    requires
        0 <= r < g.len(),
    ensures
        xor_row(xor_row(g, x, r, b), x, r, b) == g,
{
    assert forall|c: int| 0 <= c < g[r].len() implies toggle(toggle(g[r][c])) == g[r][c] by {
        lemma_toggle_twice(g[r][c]);
    }
    assert(xor_row(xor_row(g, x, r, b), x, r, b) =~~= g);
}

/// Two sprite rows may be XORed in either order.
proof fn lemma_xor_rows_commute(g: Seq<Seq<u8>>, x: int, r1: int, b1: u8, r2: int, b2: u8)
    requires
        0 <= r1 < g.len(),
        0 <= r2 < g.len(),
    ensures
        xor_row(xor_row(g, x, r1, b1), x, r2, b2) == xor_row(xor_row(g, x, r2, b2), x, r1, b1),
{
    assert(xor_row(xor_row(g, x, r1, b1), x, r2, b2) =~~= xor_row(xor_row(g, x, r2, b2), x, r1, b1));
}

/// Drawing keeps the number of rows.
proof fn lemma_draw_len(g: Seq<Seq<u8>>, x: int, y: int, s: Seq<u8>)
    requires
        g.len() == DISPLAY_HEIGHT,
    ensures
        draw_spec(g, x, y, s).len() == g.len(),
    decreases s.len(),
{
    if s.len() > 0 {
        lemma_draw_len(g, x, y, s.drop_last());
    }
}

/// A sprite row XORed before a drawing may as well be XORed after it.
proof fn lemma_draw_after_xor_row(g: Seq<Seq<u8>>, x: int, y: int, s: Seq<u8>, r: int, b: u8)
    requires
        g.len() == DISPLAY_HEIGHT,
        0 <= r < DISPLAY_HEIGHT,
    ensures
        draw_spec(xor_row(g, x, r, b), x, y, s) == xor_row(draw_spec(g, x, y, s), x, r, b),
    decreases s.len(),
{
    if s.len() > 0 {
        let s1 = s.drop_last();
        let j = s.len() - 1;
        let rj = sprite_row(y, j);
        lemma_draw_after_xor_row(g, x, y, s1, r, b);
        lemma_draw_len(g, x, y, s1);
        lemma_xor_rows_commute(draw_spec(g, x, y, s1), x, r, b, rj, s[j]);
    }
}

/// Drawing the same sprite twice at the same place gives back the screen
/// as it was before the first drawing.
pub proof fn lemma_draw_twice_restores(g: Seq<Seq<u8>>, x: int, y: int, sprite: Seq<u8>)
    requires
        g.len() == DISPLAY_HEIGHT,
    ensures
        draw_spec(draw_spec(g, x, y, sprite), x, y, sprite) == g,
    decreases sprite.len(),
{
    if sprite.len() > 0 {
        let s1 = sprite.drop_last();
        let j = sprite.len() - 1;
        let rj = sprite_row(y, j);
        let d1 = draw_spec(g, x, y, s1);
        lemma_draw_len(g, x, y, s1);
        lemma_draw_len(d1, x, y, s1);
        lemma_draw_after_xor_row(draw_spec(g, x, y, sprite), x, y, s1, rj, sprite[j]);
        lemma_draw_len(g, x, y, sprite);
        lemma_draw_after_xor_row(d1, x, y, s1, rj, sprite[j]);
        lemma_xor_row_twice(draw_spec(d1, x, y, s1), x, rj, sprite[j]);
        lemma_draw_twice_restores(g, x, y, s1);
    }
}

/// Every row keeps its width through a drawing.
proof fn lemma_draw_row_lens(g: Seq<Seq<u8>>, x: int, y: int, s: Seq<u8>)
    requires
        g.len() == DISPLAY_HEIGHT,
        forall|r: int| 0 <= r < DISPLAY_HEIGHT ==> #[trigger] g[r].len() == DISPLAY_WIDTH,
    ensures
        forall|r: int|
            0 <= r < DISPLAY_HEIGHT ==> #[trigger] draw_spec(g, x, y, s)[r].len() == DISPLAY_WIDTH,
    decreases s.len(),
{
    if s.len() > 0 {
        lemma_draw_row_lens(g, x, y, s.drop_last());
        lemma_draw_len(g, x, y, s.drop_last());
    }
}

/// A row that no sprite row lands on is left as it was.
proof fn lemma_draw_row_untouched(g: Seq<Seq<u8>>, x: int, y: int, s: Seq<u8>, r: int)
    requires
        g.len() == DISPLAY_HEIGHT,
        0 <= r < DISPLAY_HEIGHT,
        forall|j: int| 0 <= j < s.len() ==> #[trigger] sprite_row(y, j) != r,
    ensures
        draw_spec(g, x, y, s)[r] == g[r],
    decreases s.len(),
{
    if s.len() > 0 {
        lemma_draw_row_untouched(g, x, y, s.drop_last(), r);
        lemma_draw_len(g, x, y, s.drop_last());
        let j = s.len() - 1;
        assert(sprite_row(y, j) != r);
    }
}

/// For a sprite of at most one screen height, drawing reports a collision
/// exactly when some pixel that was set before the drawing is cleared by it.
pub proof fn lemma_collision_iff_pixel_cleared(g: Seq<Seq<u8>>, x: int, y: int, sprite: Seq<u8>)
    requires
        g.len() == DISPLAY_HEIGHT,
        forall|r: int| 0 <= r < DISPLAY_HEIGHT ==> #[trigger] g[r].len() == DISPLAY_WIDTH,
        sprite.len() <= DISPLAY_HEIGHT,
    ensures
        collides_spec(g, x, y, sprite) == exists|r: int, c: int|
            0 <= r < DISPLAY_HEIGHT && 0 <= c < DISPLAY_WIDTH && g[r][c] == 1
                && #[trigger] draw_spec(g, x, y, sprite)[r][c] == 0,
    decreases sprite.len(),
{
    if sprite.len() > 0 {
        let s1 = sprite.drop_last();
        let j = sprite.len() - 1;
        let rl = sprite_row(y, j);
        let b = sprite[j];
        let d1 = draw_spec(g, x, y, s1);
        let d = draw_spec(g, x, y, sprite);
        lemma_collision_iff_pixel_cleared(g, x, y, s1);
        lemma_draw_len(g, x, y, s1);
        lemma_draw_row_lens(g, x, y, s1);
        assert forall|k: int| 0 <= k < s1.len() implies #[trigger] sprite_row(y, k) != rl by {
        }
        lemma_draw_row_untouched(g, x, y, s1, rl);
        lemma_toggle_twice(0u8);
        assert(d == xor_row(d1, x, rl, b));
        let cleared = exists|r: int, c: int|
            0 <= r < DISPLAY_HEIGHT && 0 <= c < DISPLAY_WIDTH && g[r][c] == 1 && #[trigger] d[r][c] == 0;
        if collides_spec(g, x, y, s1) {
            let (r, c) = choose|r: int, c: int|
                0 <= r < DISPLAY_HEIGHT && 0 <= c < DISPLAY_WIDTH && g[r][c] == 1 && #[trigger] d1[r][c] == 0;
            assert(r != rl);
            assert(d[r][c] == 0);
        } else if row_collides(d1, x, rl, b) {
            let c = choose|c: int| 0 <= c < DISPLAY_WIDTH && col_hit(x, b, c) && #[trigger] d1[rl][c] == 1;
            assert(d[rl][c] == toggle(1u8));
            assert(d[rl][c] == 0);
        }
        if cleared {
            let (r, c) = choose|r: int, c: int|
                0 <= r < DISPLAY_HEIGHT && 0 <= c < DISPLAY_WIDTH && g[r][c] == 1 && #[trigger] d[r][c] == 0;
            if r == rl {
                if !col_hit(x, b, c) {
                    assert(d[r][c] == d1[r][c]);
                }
                assert(row_collides(d1, x, rl, b));
            } else {
                assert(d1[r][c] == 0);
            }
        }
    }
}

} // verus!
