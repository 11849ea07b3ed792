//! The 64x32 framebuffer and the XOR sprite-drawing algorithm.

use vstd::prelude::*;

use vstd::arithmetic::div_mod::lemma_fundamental_div_mod;
use vstd::arithmetic::div_mod::lemma_fundamental_div_mod_converse;
use vstd::arithmetic::div_mod::lemma_mod_equivalence;
use vstd::arithmetic::div_mod::lemma_small_mod;

use crate::sprite::Sprite;

verus! {

/// Horizontal pixel count of the logical grid.
pub const GRID_WIDTH: usize = 64;

/// Vertical pixel count of the logical grid.
pub const GRID_HEIGHT: usize = 32;

/// Total pixel count of the logical grid.
pub const GRID_SIZE: usize = 2048;

/// The flat index of pixel column `px`, row `py` in the row-major grid.
pub open spec fn pixel_index(px: int, py: int) -> int {
    py * 64 + px
}

/// The single-bit mask that selects sprite column `col`, the most
/// significant bit being the leftmost pixel.
pub open spec fn col_mask(col: int) -> u8 {
    if col == 0 {
        0x80
    } else if col == 1 {
        0x40
    } else if col == 2 {
        0x20
    } else if col == 3 {
        0x10
    } else if col == 4 {
        0x08
    } else if col == 5 {
        0x04
    } else if col == 6 {
        0x02
    } else {
        0x01
    }
}

/// Whether the sprite pixel at `row`, `col` is set.
pub open spec fn sprite_bit(sprite: Seq<u8>, row: int, col: int) -> bool {
    sprite[row] & col_mask(col) != 0
}

/// Whether sprite position `(row, col)` comes strictly before the position
/// `(rows, cols)` in drawing order (row-major).
pub open spec fn pair_before(row: int, col: int, rows: int, cols: int) -> bool {
    row < rows || (row == rows && col < cols)
}

/// Whether some set sprite bit drawn before position `(rows, cols)` lands on
/// grid pixel `(px, py)`, with both coordinates wrapping around the grid.
pub open spec fn hit_by_upto(
    sprite: Seq<u8>,
    x: u8,
    y: u8,
    px: int,
    py: int,
    rows: int,
    cols: int,
) -> bool {
    exists|row: int, col: int|
        #[trigger] sprite_bit(sprite, row, col) && 0 <= row < sprite.len() && 0 <= col < 8
            && pair_before(row, col, rows, cols) && px == (x + col) % 64 && py == (y + row) % 32
}

/// Whether some set bit of the whole sprite lands on grid pixel `(px, py)`.
pub open spec fn hit_by(sprite: Seq<u8>, x: u8, y: u8, px: int, py: int) -> bool {
    hit_by_upto(sprite, x, y, px, py, sprite.len() as int, 0)
}

/// Whether some set sprite bit before position `(rows, cols)` lands on a
/// pixel of `grid` that is already on.
pub open spec fn collision_upto(
    grid: Seq<bool>,
    sprite: Seq<u8>,
    x: u8,
    y: u8,
    rows: int,
    cols: int,
) -> bool {
    exists|row: int, col: int|
        #[trigger] sprite_bit(sprite, row, col) && 0 <= row < sprite.len() && 0 <= col < 8
            && pair_before(row, col, rows, cols)
            && grid[pixel_index((x + col) % 64, (y + row) % 32)]
}

/// Whether drawing the sprite onto `grid` turns some pixel off again: the
/// collision condition reported in the flags register.
pub open spec fn draw_collision(grid: Seq<bool>, sprite: Seq<u8>, x: u8, y: u8) -> bool {
    collision_upto(grid, sprite, x, y, sprite.len() as int, 0)
}

/// Whether the sprite has a set bit before position `(rows, cols)`.
pub open spec fn some_bit_upto(sprite: Seq<u8>, rows: int, cols: int) -> bool {
    exists|row: int, col: int|
        #[trigger] sprite_bit(sprite, row, col) && 0 <= row < sprite.len() && 0 <= col < 8
            && pair_before(row, col, rows, cols)
}

/// Whether the sprite has any set bit at all; only such a sprite changes
/// the grid when drawn.
pub open spec fn sprite_has_set_bit(sprite: Seq<u8>) -> bool {
    some_bit_upto(sprite, sprite.len() as int, 0)
}

/// The grid after XOR-compositing the sprite at `(x, y)`: exactly the hit
/// pixels flip, every other pixel keeps its state.
pub open spec fn draw_grid(grid: Seq<bool>, sprite: Seq<u8>, x: u8, y: u8) -> Seq<bool> {
    Seq::new(2048, |idx: int| grid[idx] != hit_by(sprite, x, y, idx % 64, idx / 64))
}

/// Whether some pixel among the first `n` of the grid is on.
pub open spec fn some_on_upto(grid: Seq<bool>, n: int) -> bool {
    exists|j: int| 0 <= j < n && #[trigger] grid[j]
}

/// Whether some pixel of the grid is on.
pub open spec fn some_pixel_on(grid: Seq<bool>) -> bool {
    some_on_upto(grid, grid.len() as int)
}

/// The logical pixel grid, plus the dirty flag that records whether any
/// pixel changed since the last presentation to the renderer.
pub struct Display {
    content: Vec<bool>,
    modified: bool,
}

impl Display {
    /// The grid the display holds, row-major, index `py * 64 + px`.
    pub closed spec fn grid(&self) -> Seq<bool> {
        self.content@
    }

    /// Whether a pixel changed since the last presentation.
    pub closed spec fn dirty(&self) -> bool {
        self.modified
    }

    /// The grid always spans exactly 64 x 32 pixels.
    pub open spec fn wf(&self) -> bool {
        self.grid().len() == GRID_SIZE
    }

    /// A blank display: every pixel off, nothing to present.
    pub fn new() -> (d: Display)
        ensures
            d.wf(),
            d.grid() == Seq::new(GRID_SIZE as nat, |i: int| false),
            !d.dirty(),
    {
        let d = Display { content: vec![false; GRID_SIZE], modified: false };
        proof {
            assert(d.grid() =~= Seq::new(GRID_SIZE as nat, |i: int| false));
        }
        d
    }

    /// The pixel at column `x`, row `y`, or `None` outside the grid.
    pub fn pixel(&self, x: u8, y: u8) -> (r: Option<bool>)
        requires
            self.wf(),
        ensures
            x < 64 && y < 32 ==> r == Some(self.grid()[pixel_index(x as int, y as int)]),
            !(x < 64 && y < 32) ==> r is None,
    {
        if x < 64 && y < 32 {
            let idx: usize = (y as usize) * 64 + (x as usize);
            Some(self.content[idx])
        } else {
            None
        }
    }

    /// Presents the grid to the renderer if it changed since the last
    /// presentation. The caller forwards the pixels only when `presented`
    /// is true; the dirty flag is cleared either way.
    pub fn update(&mut self) -> (presented: bool)
        requires
            old(self).wf(),
        ensures
            final(self).wf(),
            final(self).grid() == old(self).grid(),
            !final(self).dirty(),
            presented == old(self).dirty(),
    {
        let presented = self.modified;
        self.modified = false;
        presented
    }

    /// Turns every pixel off. The display becomes dirty exactly when some
    /// pixel was on, since only then did anything change.
    pub fn clear(&mut self)
        requires
            old(self).wf(),
        ensures
            final(self).wf(),
            final(self).grid() == Seq::new(GRID_SIZE as nat, |i: int| false),
            final(self).dirty() == (old(self).dirty() || some_pixel_on(old(self).grid())),
    {
        let ghost old_grid = self.grid();
        let mut any_on = false;
        let mut i: usize = 0;
        while i < GRID_SIZE
            invariant
                self.wf(),
                i <= GRID_SIZE,
                self.dirty() == old(self).dirty(),
                forall|j: int| 0 <= j < i ==> !self.grid()[j],
                forall|j: int| i <= j < GRID_SIZE ==> self.grid()[j] == old_grid[j],
                any_on == some_on_upto(old_grid, i as int),
                old_grid.len() == GRID_SIZE,
            decreases GRID_SIZE - i,
        {
            let was_on = self.content[i];
            if was_on {
                any_on = true;
            }
            proof {
                if was_on {
                    assert(old_grid[i as int]);
                    assert(some_on_upto(old_grid, i + 1));
                } else if any_on {
                    let j = choose|j: int| 0 <= j < i && #[trigger] old_grid[j];
                    assert(0 <= j < i + 1 && old_grid[j]);
                    assert(some_on_upto(old_grid, i + 1));
                } else {
                    assert(!some_on_upto(old_grid, i + 1)) by {
                        if some_on_upto(old_grid, i + 1) {
                            let j = choose|j: int| 0 <= j < i + 1 && #[trigger] old_grid[j];
                            if 0 <= j < i {
                                assert(some_on_upto(old_grid, i as int));
                            }
                        }
                    }
                }
            }
            self.content[i] = false;
            i = i + 1;
        }
        self.modified = self.modified || any_on;
        proof {
            assert(self.grid() =~= Seq::new(GRID_SIZE as nat, |i: int| false));
        }
    }

    /// XOR-composites the sprite at column `x`, row `y`, both coordinates
    /// wrapping around the grid edges. Returns `1` when some set sprite bit
    /// landed on a pixel that was already on (that pixel turns off), else
    /// `0`; the caller writes that into the flags register. Off sprite bits
    /// never change a pixel, and the display becomes dirty exactly when the
    /// sprite has a set bit.
    pub fn draw(&mut self, sprite: &Sprite, x: u8, y: u8) -> (collision: u8)
        requires
            old(self).wf(),
            sprite.wf(),
            sprite@.len() <= 15,
        ensures
            final(self).wf(),
            final(self).grid() == draw_grid(old(self).grid(), sprite@, x, y),
            collision == (if draw_collision(old(self).grid(), sprite@, x, y) {
                1u8
            } else {
                0u8
            }),
            final(self).dirty() == (old(self).dirty() || sprite_has_set_bit(sprite@)),
    {
        let ghost g0 = self.grid();
        let ghost s = sprite@;
        let mut collision: u8 = 0;
        let n = sprite.length();
        let mut row: usize = 0;
        while row < n
            invariant
                self.wf(),
                sprite.wf(),
                s == sprite@,
                s.len() <= 15,
                n == s.len(),
                row <= n,
                g0.len() == GRID_SIZE,
                self.dirty() == (old(self).dirty() || some_bit_upto(s, row as int, 0)),
                collision == 0 || collision == 1,
                (collision == 1) == collision_upto(g0, s, x, y, row as int, 0),
                forall|px: int, py: int|
                    0 <= px < 64 && 0 <= py < 32 ==> self.grid()[#[trigger] pixel_index(px, py)]
                        == (g0[pixel_index(px, py)] != hit_by_upto(s, x, y, px, py, row as int, 0)),
            decreases n - row,
        {
            let byte = match sprite.get(row) {
                Ok(b) => b,
                Err(_) => 0,
            };
            let mut col: usize = 0;
            while col < 8
                invariant
                    self.wf(),
                    s.len() <= 15,
                    row < s.len(),
                    byte == s[row as int],
                    col <= 8,
                    g0.len() == GRID_SIZE,
                    self.dirty() == (old(self).dirty() || some_bit_upto(s, row as int, col as int)),
                    collision == 0 || collision == 1,
                    (collision == 1) == collision_upto(g0, s, x, y, row as int, col as int),
                    forall|px: int, py: int|
                        0 <= px < 64 && 0 <= py < 32 ==> self.grid()[#[trigger] pixel_index(px, py)]
                            == (g0[pixel_index(px, py)] != hit_by_upto(
                            s,
                            x,
                            y,
                            px,
                            py,
                            row as int,
                            col as int,
                        )),
                decreases 8 - col,
            {
                proof {
                    lemma_hit_extend(s, x, y, row as int, col as int);
                    lemma_collision_extend(g0, s, x, y, row as int, col as int);
                    lemma_some_bit_extend(s, row as int, col as int);
                }
                let mask = mask_for(col);
                if byte & mask != 0 {
                    proof {
                        assert(sprite_bit(s, row as int, col as int));
                    }
                    let tx: usize = (x as usize + col) % 64;
                    let ty: usize = (y as usize + row) % 32;
                    let idx: usize = ty * 64 + tx;
                    proof {
                        lemma_pixel_index(tx as int, ty as int);
                        lemma_no_earlier_hit(s, x, y, row as int, col as int);
                        assert(self.grid()[idx as int] == g0[idx as int]);
                    }
                    let ghost mid = self.grid();
                    let was_on = self.content[idx];
                    if was_on {
                        self.content[idx] = false;
                        collision = 1;
                    } else {
                        self.content[idx] = true;
                    }
                    self.modified = true;
                    proof {
                        assert(self.grid() == mid.update(idx as int, !was_on));
                        assert forall|px: int, py: int| 0 <= px < 64 && 0 <= py < 32 implies self.grid()[#[trigger] pixel_index(
                            px,
                            py,
                        )] == (g0[pixel_index(px, py)] != hit_by_upto(
                            s,
                            x,
                            y,
                            px,
                            py,
                            row as int,
                            col + 1,
                        )) by {
                            lemma_pixel_index(px, py);
                            if px == tx as int && py == ty as int {
                                assert(hit_by_upto(s, x, y, px, py, row as int, col + 1));
                            } else {
                                lemma_pixel_index_injective(px, py, tx as int, ty as int);
                                assert(self.grid()[pixel_index(px, py)] == mid[pixel_index(px, py)]);
                            }
                        }
                        if was_on {
                            assert(g0[pixel_index((x + col) % 64, (y + row) % 32)]);
                            assert(collision_upto(g0, s, x, y, row as int, col + 1));
                        } else {
                            assert(!g0[pixel_index((x + col) % 64, (y + row) % 32)]);
                        }
                        assert(some_bit_upto(s, row as int, col + 1));
                    }
                } else {
                    proof {
                        assert(!sprite_bit(s, row as int, col as int));
                    }
                }
                col = col + 1;
            }
            proof {
                lemma_row_rollover(g0, s, x, y, row as int);
                assert forall|px: int, py: int| 0 <= px < 64 && 0 <= py < 32 implies self.grid()[#[trigger] pixel_index(
                    px,
                    py,
                )] == (g0[pixel_index(px, py)] != hit_by_upto(s, x, y, px, py, row + 1, 0)) by {
                    assert(self.grid()[pixel_index(px, py)] == (g0[pixel_index(px, py)]
                        != hit_by_upto(s, x, y, px, py, row as int, 8)));
                }
            }
            row = row + 1;
        }
        proof {
            assert(self.grid() =~= draw_grid(g0, s, x, y)) by {
                assert forall|idx: int| 0 <= idx < 2048 implies self.grid()[idx] == draw_grid(
                    g0,
                    s,
                    x,
                    y,
                )[idx] by {
                    let px = idx % 64;
                    let py = idx / 64;
                    lemma_fundamental_div_mod(idx, 64);
                    assert(0 <= px < 64);
                    assert(0 <= py < 32);
                    assert(pixel_index(px, py) == idx);
                }
            }
        }
        collision
    }
}

/// The mask of sprite column `col`.
fn mask_for(col: usize) -> (m: u8)
    requires
        col < 8,
    ensures
        m == col_mask(col as int),
{
    if col == 0 {
        0x80
    } else if col == 1 {
        0x40
    } else if col == 2 {
        0x20
    } else if col == 3 {
        0x10
    } else if col == 4 {
        0x08
    } else if col == 5 {
        0x04
    } else if col == 6 {
        0x02
    } else {
        0x01
    }
}

/// Two integers within one period of `m` that agree modulo `m` are equal.
proof fn lemma_mod_inj(a: int, b: int, m: int)
    requires
        m > 0,
        0 <= b - a < m,
        a % m == b % m,
    ensures
        a == b,
{
    lemma_mod_equivalence(b, a, m);
    lemma_small_mod((b - a) as nat, m as nat);
}

/// Distinct sprite rows land on distinct grid rows: the sprite is at most
/// 15 rows tall, so row offsets never wrap onto each other.
proof fn lemma_row_unique(y: u8, r1: int, r2: int)
    requires
        0 <= r1 < 32,
        0 <= r2 < 32,
        (y + r1) % 32 == (y + r2) % 32,
    ensures
        r1 == r2,
{
    if r1 <= r2 {
        lemma_mod_inj(y + r1, y + r2, 32);
    } else {
        lemma_mod_inj(y + r2, y + r1, 32);
    }
}

/// Distinct sprite columns land on distinct grid columns.
proof fn lemma_col_unique(x: u8, c1: int, c2: int)
    requires
        0 <= c1 < 64,
        0 <= c2 < 64,
        (x + c1) % 64 == (x + c2) % 64,
    ensures
        c1 == c2,
{
    if c1 <= c2 {
        lemma_mod_inj(x + c1, x + c2, 64);
    } else {
        lemma_mod_inj(x + c2, x + c1, 64);
    }
}

/// The flat index of an in-range pixel is in range and recovers its
/// coordinates by division and remainder.
proof fn lemma_pixel_index(px: int, py: int)
    requires
        0 <= px < 64,
        0 <= py < 32,
    ensures
        0 <= pixel_index(px, py) < 2048,
        pixel_index(px, py) % 64 == px,
        pixel_index(px, py) / 64 == py,
{
    lemma_fundamental_div_mod_converse(py * 64 + px, 64, py, px);
}

/// Distinct in-range pixel coordinates have distinct flat indexes.
proof fn lemma_pixel_index_injective(px1: int, py1: int, px2: int, py2: int)
    requires
        0 <= px1 < 64,
        0 <= py1 < 32,
        0 <= px2 < 64,
        0 <= py2 < 32,
        !(px1 == px2 && py1 == py2),
    ensures
        pixel_index(px1, py1) != pixel_index(px2, py2),
{
    lemma_pixel_index(px1, py1);
    lemma_pixel_index(px2, py2);
}

/// Extending the drawing order by one position adds exactly the hits of
/// that position.
proof fn lemma_hit_extend(s: Seq<u8>, x: u8, y: u8, row: int, col: int)
    requires
        0 <= row < s.len(),
        0 <= col < 8,
    ensures
        forall|px: int, py: int|
            #![trigger hit_by_upto(s, x, y, px, py, row, col + 1)]
            hit_by_upto(s, x, y, px, py, row, col + 1) == (hit_by_upto(s, x, y, px, py, row, col)
                || (sprite_bit(s, row, col) && px == (x + col) % 64 && py == (y + row) % 32)),
{
    assert forall|px: int, py: int|
        hit_by_upto(s, x, y, px, py, row, col + 1) implies (hit_by_upto(s, x, y, px, py, row, col)
        || (sprite_bit(s, row, col) && px == (x + col) % 64 && py == (y + row) % 32)) by {
        let (r, c) = choose|r: int, c: int|
            #[trigger] sprite_bit(s, r, c) && 0 <= r < s.len() && 0 <= c < 8 && pair_before(
                r,
                c,
                row,
                col + 1,
            ) && px == (x + c) % 64 && py == (y + r) % 32;
        if !pair_before(r, c, row, col) {
            assert(r == row && c == col);
        }
    }
}

/// Extending the drawing order by one position adds exactly the collision
/// that position may contribute.
proof fn lemma_collision_extend(g: Seq<bool>, s: Seq<u8>, x: u8, y: u8, row: int, col: int)
    requires
        0 <= row < s.len(),
        0 <= col < 8,
    ensures
        collision_upto(g, s, x, y, row, col + 1) == (collision_upto(g, s, x, y, row, col)
            || (sprite_bit(s, row, col) && g[pixel_index((x + col) % 64, (y + row) % 32)])),
{
    if collision_upto(g, s, x, y, row, col + 1) {
        let (r, c) = choose|r: int, c: int|
            #[trigger] sprite_bit(s, r, c) && 0 <= r < s.len() && 0 <= c < 8 && pair_before(
                r,
                c,
                row,
                col + 1,
            ) && g[pixel_index((x + c) % 64, (y + r) % 32)];
        if !pair_before(r, c, row, col) {
            assert(r == row && c == col);
        } else {
            assert(collision_upto(g, s, x, y, row, col));
        }
    }
    if collision_upto(g, s, x, y, row, col) {
        let (r, c) = choose|r: int, c: int|
            #[trigger] sprite_bit(s, r, c) && 0 <= r < s.len() && 0 <= c < 8 && pair_before(
                r,
                c,
                row,
                col,
            ) && g[pixel_index((x + c) % 64, (y + r) % 32)];
        assert(pair_before(r, c, row, col + 1));
        assert(collision_upto(g, s, x, y, row, col + 1));
    }
    if sprite_bit(s, row, col) && g[pixel_index((x + col) % 64, (y + row) % 32)] {
        assert(pair_before(row, col, row, col + 1));
        assert(collision_upto(g, s, x, y, row, col + 1));
    }
}

/// Extending the drawing order by one position adds exactly that
/// position's bit.
proof fn lemma_some_bit_extend(s: Seq<u8>, row: int, col: int)
    requires
        0 <= row < s.len(),
        0 <= col < 8,
    ensures
        some_bit_upto(s, row, col + 1) == (some_bit_upto(s, row, col) || sprite_bit(s, row, col)),
{
    if some_bit_upto(s, row, col + 1) {
        let (r, c) = choose|r: int, c: int|
            #[trigger] sprite_bit(s, r, c) && 0 <= r < s.len() && 0 <= c < 8 && pair_before(
                r,
                c,
                row,
                col + 1,
            );
        if !pair_before(r, c, row, col) {
            assert(r == row && c == col);
        } else {
            assert(some_bit_upto(s, row, col));
        }
    }
    if some_bit_upto(s, row, col) {
        let (r, c) = choose|r: int, c: int|
            #[trigger] sprite_bit(s, r, c) && 0 <= r < s.len() && 0 <= c < 8 && pair_before(
                r,
                c,
                row,
                col,
            );
        assert(pair_before(r, c, row, col + 1));
        assert(some_bit_upto(s, row, col + 1));
    }
    if sprite_bit(s, row, col) {
        assert(pair_before(row, col, row, col + 1));
        assert(some_bit_upto(s, row, col + 1));
    }
}

/// No sprite bit drawn before position `(row, col)` lands on the pixel that
/// position targets: every earlier row lands on another grid row, and every
/// earlier column of the same row on another grid column.
proof fn lemma_no_earlier_hit(s: Seq<u8>, x: u8, y: u8, row: int, col: int)
    requires
        s.len() <= 32,
        0 <= row < s.len(),
        0 <= col < 8,
    ensures
        !hit_by_upto(s, x, y, (x + col) % 64, (y + row) % 32, row, col),
{
    if hit_by_upto(s, x, y, (x + col) % 64, (y + row) % 32, row, col) {
        let (r, c) = choose|r: int, c: int|
            #[trigger] sprite_bit(s, r, c) && 0 <= r < s.len() && 0 <= c < 8 && pair_before(
                r,
                c,
                row,
                col,
            ) && (x + col) % 64 == (x + c) % 64 && (y + row) % 32 == (y + r) % 32;
        lemma_row_unique(y, r, row);
        lemma_col_unique(x, c, col);
    }
}

/// Finishing a sprite row continues the drawing order at the start of the
/// next row.
proof fn lemma_row_rollover(g: Seq<bool>, s: Seq<u8>, x: u8, y: u8, row: int)
    requires
        0 <= row,
    ensures
        forall|px: int, py: int|
            #![trigger hit_by_upto(s, x, y, px, py, row + 1, 0)]
            hit_by_upto(s, x, y, px, py, row + 1, 0) == hit_by_upto(s, x, y, px, py, row, 8),
        collision_upto(g, s, x, y, row + 1, 0) == collision_upto(g, s, x, y, row, 8),
        some_bit_upto(s, row + 1, 0) == some_bit_upto(s, row, 8),
{
    assert forall|r: int, c: int| 0 <= c < 8 implies pair_before(r, c, row + 1, 0) == pair_before(
        r,
        c,
        row,
        8,
    ) by {}
    assert forall|px: int, py: int|
        hit_by_upto(s, x, y, px, py, row + 1, 0) == hit_by_upto(s, x, y, px, py, row, 8) by {
        if hit_by_upto(s, x, y, px, py, row + 1, 0) {
            let (r, c) = choose|r: int, c: int|
                #[trigger] sprite_bit(s, r, c) && 0 <= r < s.len() && 0 <= c < 8 && pair_before(
                    r,
                    c,
                    row + 1,
                    0,
                ) && px == (x + c) % 64 && py == (y + r) % 32;
            assert(pair_before(r, c, row, 8));
            assert(hit_by_upto(s, x, y, px, py, row, 8));
        }
        if hit_by_upto(s, x, y, px, py, row, 8) {
            let (r, c) = choose|r: int, c: int|
                #[trigger] sprite_bit(s, r, c) && 0 <= r < s.len() && 0 <= c < 8 && pair_before(
                    r,
                    c,
                    row,
                    8,
                ) && px == (x + c) % 64 && py == (y + r) % 32;
            assert(pair_before(r, c, row + 1, 0));
            assert(hit_by_upto(s, x, y, px, py, row + 1, 0));
        }
    }
    if collision_upto(g, s, x, y, row + 1, 0) {
        let (r, c) = choose|r: int, c: int|
            #[trigger] sprite_bit(s, r, c) && 0 <= r < s.len() && 0 <= c < 8 && pair_before(
                r,
                c,
                row + 1,
                0,
            ) && g[pixel_index((x + c) % 64, (y + r) % 32)];
        assert(pair_before(r, c, row, 8));
        assert(collision_upto(g, s, x, y, row, 8));
    }
    if collision_upto(g, s, x, y, row, 8) {
        let (r, c) = choose|r: int, c: int|
            #[trigger] sprite_bit(s, r, c) && 0 <= r < s.len() && 0 <= c < 8 && pair_before(
                r,
                c,
                row,
                8,
            ) && g[pixel_index((x + c) % 64, (y + r) % 32)];
        assert(pair_before(r, c, row + 1, 0));
        assert(collision_upto(g, s, x, y, row + 1, 0));
    }
    if some_bit_upto(s, row + 1, 0) {
        let (r, c) = choose|r: int, c: int|
            #[trigger] sprite_bit(s, r, c) && 0 <= r < s.len() && 0 <= c < 8 && pair_before(
                r,
                c,
                row + 1,
                0,
            );
        assert(pair_before(r, c, row, 8));
        assert(some_bit_upto(s, row, 8));
    }
    if some_bit_upto(s, row, 8) {
        let (r, c) = choose|r: int, c: int|
            #[trigger] sprite_bit(s, r, c) && 0 <= r < s.len() && 0 <= c < 8 && pair_before(
                r,
                c,
                row,
                8,
            );
        assert(pair_before(r, c, row + 1, 0));
        assert(some_bit_upto(s, row + 1, 0));
    }
}

/// Drawing a sprite with at least one set bit onto a blank grid reports no
/// collision; drawing the identical sprite at the identical coordinates a
/// second time reports a collision and restores every pixel, because each
/// hit pixel is XOR-flipped exactly twice.
pub proof fn lemma_draw_double_xor(grid: Seq<bool>, sprite: Seq<u8>, x: u8, y: u8)
    requires
        grid.len() == 2048,
        forall|i: int| 0 <= i < 2048 ==> !grid[i],
        sprite.len() <= 15,
        sprite_has_set_bit(sprite),
    ensures
        !draw_collision(grid, sprite, x, y),
        draw_collision(draw_grid(grid, sprite, x, y), sprite, x, y),
        draw_grid(draw_grid(grid, sprite, x, y), sprite, x, y) == grid,
{
    let g1 = draw_grid(grid, sprite, x, y);
    assert(!draw_collision(grid, sprite, x, y)) by {
        if draw_collision(grid, sprite, x, y) {
            let (r, c) = choose|r: int, c: int|
                #[trigger] sprite_bit(sprite, r, c) && 0 <= r < sprite.len() && 0 <= c < 8
                    && pair_before(r, c, sprite.len() as int, 0) && grid[pixel_index(
                    (x + c) % 64,
                    (y + r) % 32,
                )];
            lemma_pixel_index((x + c) % 64, (y + r) % 32);
        }
    }
    let (row, col) = choose|row: int, col: int|
        #[trigger] sprite_bit(sprite, row, col) && 0 <= row < sprite.len() && 0 <= col < 8
            && pair_before(row, col, sprite.len() as int, 0);
    let tx = (x + col) % 64;
    let ty = (y + row) % 32;
    lemma_pixel_index(tx, ty);
    assert(hit_by(sprite, x, y, tx, ty));
    assert(g1[pixel_index(tx, ty)]);
    assert(draw_collision(g1, sprite, x, y));
    assert(draw_grid(g1, sprite, x, y) =~= grid) by {
        assert forall|idx: int| 0 <= idx < 2048 implies draw_grid(g1, sprite, x, y)[idx]
            == grid[idx] by {
            assert(g1[idx] == (grid[idx] != hit_by(sprite, x, y, idx % 64, idx / 64)));
        }
    }
}

/// Where a set sprite bit lands: always at the wrapped coordinates, so a
/// column that would pass the right edge continues at column 0 and a row
/// that would pass the bottom edge continues at row 0, never clipped.
pub proof fn lemma_draw_wraparound(sprite: Seq<u8>, x: u8, y: u8, row: int, col: int)
    requires
        sprite.len() <= 15,
        0 <= row < sprite.len(),
        0 <= col < 8,
        sprite_bit(sprite, row, col),
        x < 64,
        y < 32,
    ensures
        hit_by(sprite, x, y, (x + col) % 64, (y + row) % 32),
        x + col >= 64 ==> (x + col) % 64 == x + col - 64,
        x + col < 64 ==> (x + col) % 64 == x + col,
        y + row >= 32 ==> (y + row) % 32 == y + row - 32,
        y + row < 32 ==> (y + row) % 32 == y + row,
{
    assert(pair_before(row, col, sprite.len() as int, 0));
    assert(hit_by(sprite, x, y, (x + col) % 64, (y + row) % 32));
    if x + col >= 64 {
        lemma_fundamental_div_mod_converse(x + col, 64, 1, x + col - 64);
    } else {
        lemma_small_mod((x + col) as nat, 64);
    }
    if y + row >= 32 {
        lemma_fundamental_div_mod_converse(y + row, 32, 1, y + row - 32);
    } else {
        lemma_small_mod((y + row) as nat, 32);
    }
}

} // verus!
