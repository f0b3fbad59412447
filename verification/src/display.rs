//! The 64x32 monochrome framebuffer and its sprite-blit algorithm.
//!
//! A sprite is a sequence of bytes, each one row of 8 horizontal
//! pixels.  Blitting XORs the sprite onto the grid at wrapped
//! coordinates; the collision result is true exactly when some pixel
//! goes from set to unset, that is, when a set grid pixel meets a set
//! sprite bit.

use vstd::prelude::*;

verus! {

/// Grid width in pixels; columns wrap modulo this.
pub const SCREEN_WIDTH: usize = 64;

/// Grid height in pixels; rows wrap modulo this.
pub const SCREEN_HEIGHT: usize = 32;

/// Pixels in the whole grid.
pub const SCREEN_CELLS: usize = 2048;

/// A well-formed grid has one boolean per pixel, row-major.
pub open spec fn grid_wf(g: Seq<bool>) -> bool {
    g.len() == SCREEN_CELLS
}

/// The pixel of row `r`, column `c`.
pub open spec fn pix(g: Seq<bool>, r: int, c: int) -> bool {
    g[r * 64 + c]
}

/// Bit `j` of a sprite byte, counted from the left (bit 0 is the
/// most-significant, leftmost pixel).
pub open spec fn sprite_bit(b: u8, j: int) -> bool {
    (b >> ((7 - j) as u8)) & 1 == 1
}

/// The grid row that sprite row `k` lands on, wrapping modulo 32.
pub open spec fn row_of(y: u8, k: int) -> int {
    (y + k) % 32
}

/// The grid column that sprite bit `j` lands on, wrapping modulo 64.
pub open spec fn col_of(x: u8, j: int) -> int {
    (x + j) % 64
}

/// Which sprite row covers grid row `r` (meaningful when < the sprite
/// length; rows are distinct while the sprite has at most 32 rows).
pub open spec fn row_dist(y: u8, r: int) -> int {
    let yy = (y as int) % 32;
    if r >= yy {
        r - yy
    } else {
        r + 32 - yy
    }
}

/// Which sprite bit covers grid column `c` (meaningful when < 8).
pub open spec fn col_dist(x: u8, c: int) -> int {
    let xx = (x as int) % 64;
    if c >= xx {
        c - xx
    } else {
        c + 64 - xx
    }
}

/// Whether the blit of a `len`-row sprite at (x, y) touches pixel (r, c).
pub open spec fn covered(x: u8, y: u8, len: int, r: int, c: int) -> bool {
    row_dist(y, r) < len && col_dist(x, c) < 8
}

/// One pixel of the grid after the first `t` sprite bits (in row-major
/// sprite order: bit j of row k is number 8k + j) have been XORed in.
pub open spec fn blit_cell(g: Seq<bool>, x: u8, y: u8, sp: Seq<u8>, r: int, c: int, t: int) -> bool {
    let k = row_dist(y, r);
    let j = col_dist(x, c);
    if k < sp.len() && j < 8 && k * 8 + j < t {
        g[r * 64 + c] != sprite_bit(sp[k], j)
    } else {
        g[r * 64 + c]
    }
}

/// The grid after the first `t` sprite bits have been XORed in.
pub open spec fn blit_upto(g: Seq<bool>, x: u8, y: u8, sp: Seq<u8>, t: int) -> Seq<bool> {
    Seq::new(SCREEN_CELLS as nat, |p: int| blit_cell(g, x, y, sp, p / 64, p % 64, t))
}

/// The grid after the whole sprite has been XORed in.
pub open spec fn sp_blit(g: Seq<bool>, x: u8, y: u8, sp: Seq<u8>) -> Seq<bool> {
    blit_upto(g, x, y, sp, 8 * sp.len() as int)
}

/// Whether one of the first `t` sprite bits (in row-major sprite
/// order: bit j of row k is number 8k + j) erases a set pixel.
pub open spec fn collision_upto(g: Seq<bool>, x: u8, y: u8, sp: Seq<u8>, t: int) -> bool {
    exists|k: int, j: int|
        0 <= k < sp.len() && 0 <= j < 8 && 8 * k + j < t && g[row_of(y, k) * 64 + col_of(x, j)]
            && #[trigger] sprite_bit(sp[k], j)
}

/// The defining collision rule: some set grid pixel meets a set sprite
/// bit, so the XOR turns it off.
pub open spec fn sp_collision(g: Seq<bool>, x: u8, y: u8, sp: Seq<u8>) -> bool {
    exists|k: int, j: int|
        0 <= k < sp.len() && 0 <= j < 8 && g[row_of(y, k) * 64 + col_of(x, j)]
            && #[trigger] sprite_bit(sp[k], j)
}

/// Wrapped rows and columns invert: sprite row `k` lands on a row whose
/// distance from y is again `k`, and only on that row.
proof fn lemma_wrap_inverse(x: u8, y: u8, k: int, j: int)
    requires
        0 <= k < 32,
        0 <= j < 8,
    ensures
        0 <= row_of(y, k) < 32,
        0 <= col_of(x, j) < 64,
        row_dist(y, row_of(y, k)) == k,
        col_dist(x, col_of(x, j)) == j,
        forall|r: int| 0 <= r < 32 && row_dist(y, r) == k ==> r == row_of(y, k),
        forall|c: int| 0 <= c < 64 && col_dist(x, c) == j ==> c == col_of(x, j),
{
}

/// The 64x32 single-bit display grid.
pub struct Display {
    mem: Vec<bool>,
}

impl View for Display {
    type V = Seq<bool>;

    closed spec fn view(&self) -> Seq<bool> {
        self.mem@
    }
}

impl Display {
    pub open spec fn wf(&self) -> bool {
        grid_wf(self@)
    }

    /// A blank grid: every pixel off.
    pub fn new() -> (d: Display)
        ensures
            d.wf(),
            d@ =~= Seq::new(SCREEN_CELLS as nat, |p: int| false),
    {
        let mut mem: Vec<bool> = Vec::new();
        while mem.len() < SCREEN_CELLS
            invariant
                mem@ =~= Seq::new(mem@.len(), |p: int| false),
                mem@.len() <= SCREEN_CELLS,
            decreases SCREEN_CELLS - mem@.len(),
        {
            mem.push(false);
        }
        Display { mem }
    }

    /// Read the pixel of row `r`, column `c`.
    pub fn pixel(&self, r: usize, c: usize) -> (b: bool)
        requires
            self.wf(),
            r < SCREEN_HEIGHT,
            c < SCREEN_WIDTH,
        ensures
            b == pix(self@, r as int, c as int),
    {
        self.mem[r * 64 + c]
    }

    /// Blit a sprite at (x, y): each sprite byte is one row of 8 pixels,
    /// XORed onto the grid at coordinates wrapping modulo 64 and 32
    /// independently per pixel.  Returns true exactly when some pixel
    /// went from set to unset.  A sprite has at most 32 rows, so no two
    /// rows land on the same grid row.
    pub fn draw_sprite(&mut self, x: u8, y: u8, sprite: &Vec<u8>) -> (collision: bool)
        requires
            old(self).wf(),
            sprite@.len() <= 32,
        ensures
            final(self).wf(),
            final(self)@ =~= sp_blit(old(self)@, x, y, sprite@),
            collision == sp_collision(old(self)@, x, y, sprite@),
    {
        let ghost g0 = self.mem@;
        let ghost sp = sprite@;
        let mut collision = false;
        let mut k: usize = 0;
        while k < sprite.len()
            invariant
                grid_wf(g0),
                sp == sprite@,
                sp.len() <= 32,
                k <= sp.len(),
                self.mem@.len() == SCREEN_CELLS,
                self.mem@ =~= blit_upto(g0, x, y, sp, 8 * k),
                collision == collision_upto(g0, x, y, sp, 8 * k),
            decreases sp.len() - k,
        {
            let byte = sprite[k];
            let mut j: usize = 0;
            while j < 8
                invariant
                    grid_wf(g0),
                    sp == sprite@,
                    sp.len() <= 32,
                    k < sp.len(),
                    j <= 8,
                    byte == sp[k as int],
                    self.mem@.len() == SCREEN_CELLS,
                    self.mem@ =~= blit_upto(g0, x, y, sp, 8 * k + j),
                    collision == collision_upto(g0, x, y, sp, 8 * k + j),
                decreases 8 - j,
            {
                let r = (y as usize + k) % 32;
                let c = (x as usize + j) % 64;
                let idx = r * 64 + c;
                let shift: u8 = (7 - j) as u8;
                let bit = (byte >> shift) & 1 == 1;
                let was = self.mem[idx];
                if was && bit {
                    collision = true;
                }
                self.mem[idx] = was != bit;
                proof {
                    lemma_blit_step(g0, x, y, sp, k as int, j as int);
                    assert(self.mem@ =~= blit_upto(g0, x, y, sp, 8 * k + j + 1));
                }
                j = j + 1;
            }
            k = k + 1;
        }
        proof {
            lemma_collision_forms(g0, x, y, sp);
        }
        collision
    }
}

/// XORing in one more sprite bit updates exactly one pixel, and extends
/// the collision account by exactly that pixel's erasure.
proof fn lemma_blit_step(g0: Seq<bool>, x: u8, y: u8, sp: Seq<u8>, k: int, j: int)
    requires
        grid_wf(g0),
        sp.len() <= 32,
        0 <= k < sp.len(),
        0 <= j < 8,
    ensures
        blit_upto(g0, x, y, sp, 8 * k + j + 1) =~= blit_upto(g0, x, y, sp, 8 * k + j).update(
            row_of(y, k) * 64 + col_of(x, j),
            g0[row_of(y, k) * 64 + col_of(x, j)] != sprite_bit(sp[k], j),
        ),
        collision_upto(g0, x, y, sp, 8 * k + j + 1) == (collision_upto(g0, x, y, sp, 8 * k + j) || (
        g0[row_of(y, k) * 64 + col_of(x, j)] && sprite_bit(sp[k], j))),
        blit_upto(g0, x, y, sp, 8 * k + j)[row_of(y, k) * 64 + col_of(x, j)] == g0[row_of(y, k) * 64
            + col_of(x, j)],
{
    let t = 8 * k + j;
    lemma_wrap_inverse(x, y, k, j);
    let r = row_of(y, k);
    let c = col_of(x, j);
    let p = r * 64 + c;
    assert(0 <= p < SCREEN_CELLS);
    assert(p / 64 == r && p % 64 == c);
    // The written pixel was still untouched: its own bit number is t.
    assert(blit_upto(g0, x, y, sp, t)[p] == g0[p]);
    // Every other pixel keeps its value: its bit number is not t.
    assert forall|qr: int, qc: int|
        0 <= qr < 32 && 0 <= qc < 64 && qr * 64 + qc != p implies #[trigger] blit_cell(
        g0,
        x,
        y,
        sp,
        qr,
        qc,
        t + 1,
    ) == blit_cell(g0, x, y, sp, qr, qc, t) by {
        if row_dist(y, qr) == k && col_dist(x, qc) == j {
            assert(qr == r && qc == c);
        }
    }
    // The collision account gains exactly the new bit.
    if collision_upto(g0, x, y, sp, t) {
        let (ka, ja) = choose|ka: int, ja: int|
            0 <= ka < sp.len() && 0 <= ja < 8 && 8 * ka + ja < t && g0[row_of(y, ka) * 64 + col_of(
                x,
                ja,
            )] && #[trigger] sprite_bit(sp[ka], ja);
        assert(8 * ka + ja < t + 1);
        assert(collision_upto(g0, x, y, sp, t + 1));
    }
    if g0[p] && sprite_bit(sp[k], j) {
        assert(8 * k + j < t + 1);
        assert(collision_upto(g0, x, y, sp, t + 1));
    }
    if collision_upto(g0, x, y, sp, t + 1) {
        let (ka, ja) = choose|ka: int, ja: int|
            0 <= ka < sp.len() && 0 <= ja < 8 && 8 * ka + ja < t + 1 && g0[row_of(y, ka) * 64
                + col_of(x, ja)] && #[trigger] sprite_bit(sp[ka], ja);
        if 8 * ka + ja < t {
            assert(collision_upto(g0, x, y, sp, t));
        } else {
            assert(8 * ka + ja == t);
            assert(ka == k && ja == j);
            assert(g0[p] && sprite_bit(sp[k], j));
        }
    }
}

/// The row-major bit numbering and the (row, bit) pairing describe the
/// same set of erasures.
proof fn lemma_collision_forms(g0: Seq<bool>, x: u8, y: u8, sp: Seq<u8>)
    requires
        grid_wf(g0),
        sp.len() <= 32,
    ensures
        collision_upto(g0, x, y, sp, 8 * sp.len() as int) == sp_collision(g0, x, y, sp),
{
    if collision_upto(g0, x, y, sp, 8 * sp.len() as int) {
        let (ka, ja) = choose|ka: int, ja: int|
            0 <= ka < sp.len() && 0 <= ja < 8 && 8 * ka + ja < 8 * sp.len() as int && g0[row_of(
                y,
                ka,
            ) * 64 + col_of(x, ja)] && #[trigger] sprite_bit(sp[ka], ja);
        assert(sp_collision(g0, x, y, sp));
    }
    if sp_collision(g0, x, y, sp) {
        let (ka, ja) = choose|ka: int, ja: int|
            0 <= ka < sp.len() && 0 <= ja < 8 && g0[row_of(y, ka) * 64 + col_of(x, ja)]
                && #[trigger] sprite_bit(sp[ka], ja);
        assert(8 * ka + ja < 8 * sp.len() as int);
        assert(collision_upto(g0, x, y, sp, 8 * sp.len() as int));
    }
}

/// How the finished blit reads, pixel by pixel: a covered pixel is the
/// XOR of its old value and its sprite bit; every other pixel keeps its
/// value.
pub proof fn lemma_blit_cells(g: Seq<bool>, x: u8, y: u8, sp: Seq<u8>)
    requires
        grid_wf(g),
        sp.len() <= 32,
    ensures
        forall|k: int, j: int|
            0 <= k < sp.len() && 0 <= j < 8 ==> pix(sp_blit(g, x, y, sp), row_of(y, k), col_of(x, j))
                == (pix(g, row_of(y, k), col_of(x, j)) != sprite_bit(sp[k], j)),
        forall|r: int, c: int|
            0 <= r < 32 && 0 <= c < 64 && !covered(x, y, sp.len() as int, r, c) ==> pix(
                sp_blit(g, x, y, sp),
                r,
                c,
            ) == pix(g, r, c),
{
    assert forall|k: int, j: int| 0 <= k < sp.len() && 0 <= j < 8 implies pix(
        sp_blit(g, x, y, sp),
        row_of(y, k),
        col_of(x, j),
    ) == (pix(g, row_of(y, k), col_of(x, j)) != sprite_bit(sp[k], j)) by {
        lemma_wrap_inverse(x, y, k, j);
        let r = row_of(y, k);
        let c = col_of(x, j);
        let p = r * 64 + c;
        assert(0 <= p < SCREEN_CELLS && p / 64 == r && p % 64 == c);
    }
    assert forall|r: int, c: int|
        0 <= r < 32 && 0 <= c < 64 && !covered(x, y, sp.len() as int, r, c) implies pix(
        sp_blit(g, x, y, sp),
        r,
        c,
    ) == pix(g, r, c) by {
        let p = r * 64 + c;
        assert(0 <= p < SCREEN_CELLS && p / 64 == r && p % 64 == c);
    }
}

} // verus!
