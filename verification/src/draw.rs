//! The sprite instruction `DXYN` and the facts about screen coordinates it
//! rests on.

use vstd::prelude::*;

use crate::emu::Emu;
use crate::error::EmuResult;
use crate::model::{self, sprite_col, sprite_hits, sprite_row, EmuState};
use crate::{SCREEN_HEIGHT, SCREEN_SIZE, SCREEN_WIDTH};

verus! {

/// The pixels of the sprite covered before row `row`, column `col` of the
/// sprite is drawn (rows first, then columns within a row).
pub open spec fn hit_before(s: EmuState, vx: u8, vy: u8, n: int, p: int, row: int, col: int) -> bool {
    &&& sprite_hits(s, vx, vy, n, p)
    &&& (sprite_row(vy, p) < row || (sprite_row(vy, p) == row && sprite_col(vx, p) < col))
}

/// The screen index where sprite cell `(r, c)` lands.
pub open spec fn cell_pixel(vx: u8, vy: u8, r: int, c: int) -> int {
    (vx + c) % (SCREEN_WIDTH as int) + (SCREEN_WIDTH as int) * ((vy + r) % (SCREEN_HEIGHT as int))
}

/// Some lit pixel is covered before row `row`, column `col` of the sprite.
pub open spec fn collided_before(s: EmuState, vx: u8, vy: u8, n: int, row: int, col: int) -> bool {
    exists|p: int| 0 <= p < SCREEN_SIZE && #[trigger] hit_before(s, vx, vy, n, p, row, col) && s.screen[p]
}

/// Two stages of drawing that cover the same pixels agree on collisions.
proof fn lemma_collided_same(s: EmuState, vx: u8, vy: u8, n: int, r1: int, c1: int, r2: int, c2: int)
    requires
        forall|p: int|
            #![trigger hit_before(s, vx, vy, n, p, r1, c1)]
            #![trigger hit_before(s, vx, vy, n, p, r2, c2)]
            0 <= p < SCREEN_SIZE ==> hit_before(s, vx, vy, n, p, r1, c1) == hit_before(s, vx, vy, n, p, r2, c2),
    ensures
        collided_before(s, vx, vy, n, r1, c1) == collided_before(s, vx, vy, n, r2, c2),
{
    if collided_before(s, vx, vy, n, r1, c1) {
        let w = choose|p: int| 0 <= p < SCREEN_SIZE && #[trigger] hit_before(s, vx, vy, n, p, r1, c1) && s.screen[p];
        assert(hit_before(s, vx, vy, n, w, r2, c2));
    }
    if collided_before(s, vx, vy, n, r2, c2) {
        let w = choose|p: int| 0 <= p < SCREEN_SIZE && #[trigger] hit_before(s, vx, vy, n, p, r2, c2) && s.screen[p];
        assert(hit_before(s, vx, vy, n, w, r1, c1));
    }
}

/// Adding `c` to `b` and reducing, then taking `b` away again, gives `c` back.
proof fn lemma_mod_offset_roundtrip(b: int, c: int, m: int)
    requires
        0 <= c < m,
        0 < m,
    ensures
        ((b + c) % m - b) % m == c,
{
    vstd::arithmetic::div_mod::lemma_sub_mod_noop(b + c, b, m);
    vstd::arithmetic::div_mod::lemma_sub_mod_noop_right((b + c) % m, b, m);
    vstd::arithmetic::div_mod::lemma_mod_twice(b + c, m);
    vstd::arithmetic::div_mod::lemma_small_mod(c as nat, m as nat);
}

/// A reduced coordinate is determined by its offset from `b`.
proof fn lemma_mod_offset_unique(b: int, a: int, c: int, m: int)
    requires
        0 <= a < m,
        0 < m,
        (a - b) % m == c,
    ensures
        a == (b + c) % m,
{
    vstd::arithmetic::div_mod::lemma_add_mod_noop_right(b, a - b, m);
    vstd::arithmetic::div_mod::lemma_small_mod(a as nat, m as nat);
}

/// A sprite cell lands on exactly one pixel, and that pixel maps back to the
/// cell.
pub proof fn lemma_cell_pixel(vx: u8, vy: u8, r: int, c: int)
    requires
        0 <= r < SCREEN_HEIGHT,
        0 <= c < 8,
    ensures
        0 <= cell_pixel(vx, vy, r, c) < SCREEN_SIZE,
        sprite_col(vx, cell_pixel(vx, vy, r, c)) == c,
        sprite_row(vy, cell_pixel(vx, vy, r, c)) == r,
        forall|p: int|
            0 <= p < SCREEN_SIZE && sprite_col(vx, p) == c && sprite_row(vy, p) == r ==> p
                == cell_pixel(vx, vy, r, c),
{
    let px = (vx + c) % 64;
    let py = (vy + r) % 32;
    let idx = cell_pixel(vx, vy, r, c);
    assert(idx == py * 64 + px);
    vstd::arithmetic::div_mod::lemma_fundamental_div_mod_converse(idx, 64, py, px);
    lemma_mod_offset_roundtrip(vx as int, c, 64);
    lemma_mod_offset_roundtrip(vy as int, r, 32);
    assert forall|p: int|
        0 <= p < SCREEN_SIZE && sprite_col(vx, p) == c && sprite_row(vy, p) == r implies p == idx by {
        let qx = p % 64;
        let qy = p / 64;
        vstd::arithmetic::div_mod::lemma_fundamental_div_mod(p, 64);
        assert(qy < 32);
        lemma_mod_offset_unique(vx as int, qx, c, 64);
        lemma_mod_offset_unique(vy as int, qy, r, 32);
    }
}

impl Emu {
    /// `DXYN`: XOR the `N`-row sprite at `I` onto the screen at `(VX, VY)`,
    /// wrapping around the edges; `VF` reports whether a lit pixel went dark.
    pub(crate) fn op_draw(&mut self, x: usize, y: usize, n: u16) -> (r: EmuResult)
        requires
            x < 16,
            y < 16,
            n < 16,
        ensures
            (final(self)@, r) == model::draw(old(self)@, x as int, y as int, n as int),
    {
        let x_coord = self.v_reg[x] as u16;
        let y_coord = self.v_reg[y] as u16;
        let num_rows = n;
        self.checked_ram_range(self.i_reg as usize, num_rows as usize)?;
        let ghost s0 = self@;
        let ghost vx: u8 = self.v_reg@[x as int];
        let ghost vy: u8 = self.v_reg@[y as int];
        let ghost nn: int = n as int;
        let mut flipped = false;
        let mut y_line: u16 = 0;
        while y_line < num_rows
            invariant
                s0 == old(self)@,
                s0.ram.len() == crate::RAM_SIZE && s0.screen.len() == SCREEN_SIZE && s0.v.len() == 16,
                x < 16,
                y < 16,
                vx == s0.v[x as int],
                vy == s0.v[y as int],
                x_coord == vx,
                y_coord == vy,
                num_rows == n,
                nn == n,
                n < 16,
                s0.i + n <= crate::RAM_SIZE,
                y_line <= num_rows,
                self@ == (EmuState { screen: self.screen@, ..s0 }),
                forall|p: int|
                    0 <= p < SCREEN_SIZE ==> #[trigger] self.screen@[p] == (s0.screen[p] != hit_before(
                        s0,
                        vx,
                        vy,
                        nn,
                        p,
                        y_line as int,
                        0,
                    )),
                flipped == collided_before(s0, vx, vy, nn, y_line as int, 0),
            decreases num_rows - y_line,
        {
            let addr = self.i_reg + y_line;
            let pixels = self.ram[addr as usize];
            let mut x_line: u16 = 0;
            while x_line < 8
                invariant
                    s0 == old(self)@,
                    s0.ram.len() == crate::RAM_SIZE && s0.screen.len() == SCREEN_SIZE && s0.v.len() == 16,
                    vx == s0.v[x as int],
                    vy == s0.v[y as int],
                    x_coord == vx,
                    y_coord == vy,
                    nn == n,
                    n < 16,
                    y_line < num_rows,
                    num_rows == n,
                    s0.i + n <= crate::RAM_SIZE,
                    pixels == s0.ram[s0.i + y_line],
                    x_line <= 8,
                    self@ == (EmuState { screen: self.screen@, ..s0 }),
                    forall|p: int|
                        0 <= p < SCREEN_SIZE ==> #[trigger] self.screen@[p] == (s0.screen[p]
                            != hit_before(s0, vx, vy, nn, p, y_line as int, x_line as int)),
                    flipped == collided_before(s0, vx, vy, nn, y_line as int, x_line as int),
                decreases 8 - x_line,
            {
                let ghost r = y_line as int;
                let ghost c = x_line as int;
                proof {
                    lemma_cell_pixel(vx, vy, r, c);
                }
                let ghost cell = cell_pixel(vx, vy, r, c);
                if (pixels & (0b1000_0000u8 >> (x_line as u8))) != 0 {
                    let px = (x_coord + x_line) as usize % SCREEN_WIDTH;
                    let py = (y_coord + y_line) as usize % SCREEN_HEIGHT;
                    let idx = px + SCREEN_WIDTH * py;
                    assert(idx == cell);
                    let ghost prev_flipped = flipped;
                    let cur = self.screen[idx];
                    flipped = flipped || cur;
                    self.screen[idx] = cur ^ true;
                    proof {
                        assert(sprite_hits(s0, vx, vy, nn, cell));
                        assert(!hit_before(s0, vx, vy, nn, cell, r, c));
                        assert(hit_before(s0, vx, vy, nn, cell, r, c + 1));
                        assert forall|p: int| 0 <= p < SCREEN_SIZE implies #[trigger] hit_before(
                            s0,
                            vx,
                            vy,
                            nn,
                            p,
                            r,
                            c + 1,
                        ) == (hit_before(s0, vx, vy, nn, p, r, c) || p == cell) by {}
                        if collided_before(s0, vx, vy, nn, r, c + 1) {
                            let w = choose|p: int|
                                0 <= p < SCREEN_SIZE && #[trigger] hit_before(s0, vx, vy, nn, p, r, c + 1)
                                    && s0.screen[p];
                            if w != cell {
                                assert(hit_before(s0, vx, vy, nn, w, r, c));
                            }
                        }
                        if prev_flipped {
                            let w = choose|p: int|
                                0 <= p < SCREEN_SIZE && #[trigger] hit_before(s0, vx, vy, nn, p, r, c)
                                    && s0.screen[p];
                            assert(hit_before(s0, vx, vy, nn, w, r, c + 1));
                        }
                        assert(flipped == collided_before(s0, vx, vy, nn, r, c + 1));
                    }
                } else {
                    proof {
                        assert(!sprite_hits(s0, vx, vy, nn, cell));
                        assert forall|p: int| 0 <= p < SCREEN_SIZE implies #[trigger] hit_before(
                            s0,
                            vx,
                            vy,
                            nn,
                            p,
                            r,
                            c + 1,
                        ) == hit_before(s0, vx, vy, nn, p, r, c) by {}
                        lemma_collided_same(s0, vx, vy, nn, r, c, r, c + 1);
                    }
                }
                x_line += 1;
            }
            proof {
                assert forall|p: int| 0 <= p < SCREEN_SIZE implies #[trigger] hit_before(
                    s0,
                    vx,
                    vy,
                    nn,
                    p,
                    y_line as int,
                    8,
                ) == hit_before(s0, vx, vy, nn, p, y_line + 1, 0) by {}
                lemma_collided_same(s0, vx, vy, nn, y_line as int, 8, y_line + 1, 0);
            }
            y_line += 1;
        }
        proof {
            assert forall|p: int| 0 <= p < SCREEN_SIZE implies #[trigger] hit_before(
                s0,
                vx,
                vy,
                nn,
                p,
                nn,
                0,
            ) == sprite_hits(s0, vx, vy, nn, p) by {}
            assert(self.screen@ =~= model::screen_after_draw(s0, vx, vy, nn));
            assert(flipped == model::sprite_collides(s0, vx, vy, nn)) by {
                if flipped {
                    let w = choose|p: int|
                        0 <= p < SCREEN_SIZE && #[trigger] hit_before(s0, vx, vy, nn, p, nn, 0)
                            && s0.screen[p];
                    assert(sprite_hits(s0, vx, vy, nn, w));
                }
                if model::sprite_collides(s0, vx, vy, nn) {
                    let w = choose|p: int|
                        0 <= p < SCREEN_SIZE && #[trigger] sprite_hits(s0, vx, vy, nn, p) && s0.screen[p];
                    assert(hit_before(s0, vx, vy, nn, w, nn, 0));
                }
            }
        }
        if flipped {
            self.v_reg[0xF] = 1;
        } else {
            self.v_reg[0xF] = 0;
        }
        Ok(())
    }
}

} // verus!
