use vstd::prelude::*;
use vstd::arithmetic::div_mod::{lemma_fundamental_div_mod, lemma_fundamental_div_mod_converse, lemma_mod_bound};
use crate::model::{sprite_col, sprite_row};

verus! {

/// The pixel that column `col` and row `row` of a sprite at `(vx, vy)` land on
/// lies on the display, and sits at that column and row of the sprite.
pub proof fn lemma_pixel_position(vx: int, vy: int, col: int, row: int)
    requires
        0 <= vx,
        0 <= vy,
        0 <= col < 8,
        0 <= row < 16,
    ensures
        0 <= (vx + col) % 64 + 64 * ((vy + row) % 32) < 2048,
        sprite_col(vx, (vx + col) % 64 + 64 * ((vy + row) % 32)) == col,
        sprite_row(vy, (vx + col) % 64 + 64 * ((vy + row) % 32)) == row,
{
    let a = vx + col;
    let b = vy + row;
    let q = a % 64 + 64 * (b % 32);
    lemma_mod_bound(a, 64);
    lemma_mod_bound(b, 32);
    lemma_fundamental_div_mod_converse(q, 64, b % 32, a % 64);
    lemma_fundamental_div_mod(a, 64);
    lemma_fundamental_div_mod(b, 32);
    lemma_fundamental_div_mod_converse(a % 64 - vx, 64, -(a / 64), col);
    lemma_fundamental_div_mod_converse(b % 32 - vy, 32, -(b / 32), row);
}

/// No other pixel of the display sits at the same column and row of the sprite.
pub proof fn lemma_pixel_unique(vx: int, vy: int, col: int, row: int, p: int)
    requires
        0 <= vx,
        0 <= vy,
        0 <= col < 8,
        0 <= row < 16,
        0 <= p < 2048,
    ensures
        sprite_col(vx, p) == col && sprite_row(vy, p) == row
            ==> p == (vx + col) % 64 + 64 * ((vy + row) % 32),
{
    if sprite_col(vx, p) == col && sprite_row(vy, p) == row {
        let m = p % 64;
        let d = p / 64;
        lemma_mod_bound(p, 64);
        lemma_fundamental_div_mod(p, 64);
        assert(0 <= d < 32);
        lemma_fundamental_div_mod(m - vx, 64);
        lemma_fundamental_div_mod(d - vy, 32);
        lemma_fundamental_div_mod_converse(vx + col, 64, -((m - vx) / 64), m);
        lemma_fundamental_div_mod_converse(vy + row, 32, -((d - vy) / 32), d);
    }
}

} // verus!
