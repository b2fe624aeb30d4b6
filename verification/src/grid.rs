//! Geometry of the display blit: per-axis wraparound, the cell a sprite bit
//! lands on, and the draw transition.
//!
//! A sprite is up to fifteen rows of eight columns. Row overflow off the
//! bottom and column overflow off the right each wrap independently, modulo
//! the grid height and width; the wrap is never a linear modulo over the
//! flattened cell array.

use vstd::prelude::*;
use vstd::arithmetic::div_mod::{
    lemma_fundamental_div_mod_converse, lemma_mod_bound, lemma_mod_multiples_vanish,
    lemma_small_mod,
};
use crate::model::{op_n, op_x, op_y, CpuView, MEM_SIZE, SCREEN_CELLS, SCREEN_H, SCREEN_W};

verus! {

/// The wrapped column a sprite draws its first column into.
pub open spec fn draw_x0(s: CpuView, w: u16) -> int {
    (s.v[op_x(w) as int] as int) % (SCREEN_W as int)
}

/// The wrapped row a sprite draws its first row into.
pub open spec fn draw_y0(s: CpuView, w: u16) -> int {
    (s.v[op_y(w) as int] as int) % (SCREEN_H as int)
}

/// The flat index of the cell that sprite position (`row`, `col`) lands on
/// when the sprite origin is (`x0`, `y0`): both axes wrap independently.
pub open spec fn target_cell(x0: int, y0: int, row: int, col: int) -> int {
    (x0 + col) % (SCREEN_W as int) + (SCREEN_W as int) * ((y0 + row) % (SCREEN_H as int))
}

/// The sprite column that cell `p` receives, for origin column `x0`.
pub open spec fn cell_col(x0: int, p: int) -> int {
    (p % (SCREEN_W as int) - x0 + SCREEN_W as int) % (SCREEN_W as int)
}

/// The sprite row that cell `p` receives, for origin row `y0`.
pub open spec fn cell_row(y0: int, p: int) -> int {
    (p / (SCREEN_W as int) - y0 + SCREEN_H as int) % (SCREEN_H as int)
}

/// Whether bit `col` (0 = leftmost) of a sprite byte is set.
pub open spec fn sprite_bit(b: u8, col: u8) -> bool {
    b & (0x80u8 >> col) != 0
}

/// Whether cell `p` is toggled by the sprite positions strictly before row
/// `r`, column `c` in drawing order (rows outermost, columns left to right).
pub open spec fn touched_upto(s: CpuView, w: u16, p: int, r: int, c: int) -> bool {
    let col = cell_col(draw_x0(s, w), p);
    let row = cell_row(draw_y0(s, w), p);
    &&& col < 8
    &&& (row < r || (row == r && col < c))
    &&& sprite_bit(s.memory[s.i + row], col as u8)
}

/// Whether cell `p` is toggled by the whole sprite.
pub open spec fn touched(s: CpuView, w: u16, p: int) -> bool {
    touched_upto(s, w, p, op_n(w) as int, 0)
}

/// Whether some sprite position strictly before row `r`, column `c` lands on
/// a cell that was already on.
pub open spec fn collides_upto(s: CpuView, w: u16, r: int, c: int) -> bool {
    exists|p: int| 0 <= p < SCREEN_CELLS && touched_upto(s, w, p, r, c) && s.screen[p]
}

/// Whether the sprite lands on any cell that was already on.
pub open spec fn collides(s: CpuView, w: u16) -> bool {
    collides_upto(s, w, op_n(w) as int, 0)
}

/// Draw: every cell the sprite lands on is toggled; the flag register is then
/// set to 1 exactly when some such cell was already on (a collision); the
/// dirty flag is set. The sprite bytes are read from memory at the index
/// register, and the origin registers are read before the flag write.
pub open spec fn drw_spec(s: CpuView, w: u16) -> CpuView {
    CpuView {
        screen: Seq::new(SCREEN_CELLS as nat, |p: int| s.screen[p] != touched(s, w, p)),
        v: s.v.update(15, if collides(s, w) { 1u8 } else { 0u8 }),
        update_screen: true,
        ..s
    }
}

/// Two drawing-order prefixes that toggle the same cells see the same
/// collisions.
pub proof fn lemma_collides_same(s: CpuView, w: u16, r1: int, c1: int, r2: int, c2: int)
    requires
        forall|p: int|
            0 <= p < SCREEN_CELLS ==> touched_upto(s, w, p, r1, c1) == touched_upto(
                s,
                w,
                p,
                r2,
                c2,
            ),
    ensures
        collides_upto(s, w, r1, c1) == collides_upto(s, w, r2, c2),
{
    if collides_upto(s, w, r1, c1) {
        let p = choose|p: int|
            0 <= p < SCREEN_CELLS && touched_upto(s, w, p, r1, c1) && s.screen[p];
        assert(touched_upto(s, w, p, r2, c2) && s.screen[p]);
    }
    if collides_upto(s, w, r2, c2) {
        let p = choose|p: int|
            0 <= p < SCREEN_CELLS && touched_upto(s, w, p, r2, c2) && s.screen[p];
        assert(touched_upto(s, w, p, r1, c1) && s.screen[p]);
    }
}

// --- The wrap is a bijection between sprite positions and cells --------------

/// Recovering an offset from a wrapped coordinate: wrapping `base + off` and
/// then subtracting `base` modulo `m` gives `off` back.
pub proof fn lemma_wrap_inverse(base: int, off: int, m: int)
    requires
        0 <= base < m,
        0 <= off < m,
    ensures
        ((base + off) % m - base + m) % m == off,
{
    if base + off < m {
        lemma_small_mod((base + off) as nat, m as nat);
        lemma_mod_multiples_vanish(1, off, m);
        lemma_small_mod(off as nat, m as nat);
    } else {
        lemma_mod_multiples_vanish(1, base + off - m, m);
        lemma_small_mod((base + off - m) as nat, m as nat);
        lemma_small_mod(off as nat, m as nat);
    }
}

/// The cell a sprite position lands on is in range and decomposes back to
/// that very position.
pub proof fn lemma_target_decomp(x0: int, y0: int, row: int, col: int)
    requires
        0 <= x0 < SCREEN_W,
        0 <= y0 < SCREEN_H,
        0 <= row < SCREEN_H,
        0 <= col < SCREEN_W,
    ensures
        0 <= target_cell(x0, y0, row, col) < SCREEN_CELLS,
        cell_col(x0, target_cell(x0, y0, row, col)) == col,
        cell_row(y0, target_cell(x0, y0, row, col)) == row,
{
    let wd = SCREEN_W as int;
    let ht = SCREEN_H as int;
    let cx = (x0 + col) % wd;
    let cy = (y0 + row) % ht;
    lemma_mod_bound(x0 + col, wd);
    lemma_mod_bound(y0 + row, ht);
    let p = target_cell(x0, y0, row, col);
    lemma_fundamental_div_mod_converse(p, wd, cy, cx);
    lemma_wrap_inverse(x0, col, wd);
    lemma_wrap_inverse(y0, row, ht);
}

/// Every cell is the target of the sprite position it decomposes to.
pub proof fn lemma_cell_recomp(x0: int, y0: int, p: int)
    requires
        0 <= x0 < SCREEN_W,
        0 <= y0 < SCREEN_H,
        0 <= p < SCREEN_CELLS,
    ensures
        0 <= cell_col(x0, p) < SCREEN_W,
        0 <= cell_row(y0, p) < SCREEN_H,
        target_cell(x0, y0, cell_row(y0, p), cell_col(x0, p)) == p,
{
    let wd = SCREEN_W as int;
    let ht = SCREEN_H as int;
    let cx = p % wd;
    let cy = p / wd;
    lemma_fundamental_div_mod_converse(p, wd, p / wd, p % wd);
    lemma_mod_bound(p, wd);
    assert(0 <= cy < ht) by {
        lemma_fundamental_div_mod_converse(p, wd, cy, cx);
    };
    let col = cell_col(x0, p);
    let row = cell_row(y0, p);
    lemma_mod_bound(cx - x0 + wd, wd);
    lemma_mod_bound(cy - y0 + ht, ht);
    assert((x0 + col) % wd == cx) by {
        if cx - x0 >= 0 {
            lemma_mod_multiples_vanish(1, cx - x0, wd);
            lemma_small_mod((cx - x0) as nat, wd as nat);
            assert(col == cx - x0);
            lemma_small_mod(cx as nat, wd as nat);
        } else {
            lemma_small_mod((cx - x0 + wd) as nat, wd as nat);
            assert(col == cx - x0 + wd);
            lemma_mod_multiples_vanish(1, cx, wd);
            lemma_small_mod(cx as nat, wd as nat);
        }
    };
    assert((y0 + row) % ht == cy) by {
        if cy - y0 >= 0 {
            lemma_mod_multiples_vanish(1, cy - y0, ht);
            lemma_small_mod((cy - y0) as nat, ht as nat);
            assert(row == cy - y0);
            lemma_small_mod(cy as nat, ht as nat);
        } else {
            lemma_small_mod((cy - y0 + ht) as nat, ht as nat);
            assert(row == cy - y0 + ht);
            lemma_mod_multiples_vanish(1, cy, ht);
            lemma_small_mod(cy as nat, ht as nat);
        }
    };
}

} // verus!
