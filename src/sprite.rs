use vstd::prelude::*;

use crate::bits::{bits_of, make_bitvector};
use crate::fields::lemma_fields;
use crate::machine::{Chip8, MachineState, FLAG, HEIGHT, NMEM, NPIXELS, WIDTH};
use crate::semantics::{collides, covers, draw_sprite, drawn, op_n};

verus! {

/// Whether pixel `p` is covered by one of the first `k` sprite bits, taken
/// row by row and, within a row, from the left.
spec fn covered_upto(s: MachineState, x0: int, y0: int, n: int, p: int, k: int) -> bool {
    covers(s, x0, y0, n, p) && (p / WIDTH as int - y0) * 8 + (p % WIDTH as int - x0) < k
}

/// Whether one of the first `k` sprite bits falls on a lit pixel.
spec fn collides_upto(s: MachineState, x0: int, y0: int, n: int, k: int) -> bool {
    exists|p: int| #[trigger] covered_upto(s, x0, y0, n, p, k) && s.graphics[p] == 1
}

/// Taking sprite bit `k = 8 * row + col` adds at most one pixel: the one at
/// (`x0 + col`, `y0 + row`), when it lies on the screen and the bit is set.
proof fn lemma_next_bit(s: MachineState, x0: int, y0: int, n: int, row: int, col: int, p: int)
    requires
        0 <= row < n,
        0 <= col < 8,
        0 <= x0,
        0 <= y0,
        0 <= p < NPIXELS,
    ensures
        covered_upto(s, x0, y0, n, p, row * 8 + col + 1) == (covered_upto(
            s,
            x0,
            y0,
            n,
            p,
            row * 8 + col,
        ) || (p == WIDTH * (y0 + row) + (x0 + col) && x0 + col < WIDTH && y0 + row < HEIGHT
            && bits_of(s.memory[s.index + row])[col] == 1)),
{
    let px = p % 64;
    let py = p / 64;
    assert(p == 64 * py + px);
    if p == WIDTH * (y0 + row) + (x0 + col) && x0 + col < WIDTH {
        assert(px == x0 + col && py == y0 + row);
    }
}

impl Chip8 {
    /// Draws the `DXYN` sprite: flips each pixel under a set sprite bit, sets
    /// the flag register to 1 when one of them was lit (else 0), and raises
    /// the draw flag. Sprite parts off the screen are dropped.
    pub(crate) fn draw(&mut self)
        requires
            old(self).index + op_n(old(self).opcode) <= NMEM,
        ensures
            final(self)@ == draw_sprite(old(self)@),
    {
        let ghost s0 = self@;
        let op = self.opcode;
        proof {
            lemma_fields(op);
        }
        let x0 = self.reg[((op & 0x0F00u16) >> 8u16) as usize];
        let y0 = self.reg[((op & 0x00F0u16) >> 4u16) as usize];
        let n = op & 0x000Fu16;
        let start = self.index;
        let ghost (gx, gy, gn) = (x0 as int, y0 as int, n as int);
        self.reg[FLAG] = 0;
        assert(!collides_upto(s0, gx, gy, gn, 0));
        let mut row: u16 = 0;
        while row < n
            invariant
                row <= n,
                gn == n,
                gx == x0,
                gy == y0,
                start == s0.index,
                s0.wf(),
                start + n <= NMEM,
                self@ == (MachineState { graphics: self.graphics@, reg: self.reg@, ..s0 }),
                self.reg@ == s0.reg.update(
                    FLAG as int,
                    if collides_upto(s0, gx, gy, gn, row * 8) {
                        1u8
                    } else {
                        0u8
                    },
                ),
                forall|p: int|
                    0 <= p < NPIXELS ==> #[trigger] self.graphics@[p] == if covered_upto(
                        s0,
                        gx,
                        gy,
                        gn,
                        p,
                        row * 8,
                    ) {
                        s0.graphics[p] ^ 1u8
                    } else {
                        s0.graphics[p]
                    },
            decreases n - row,
        {
            let bits = make_bitvector(self.memory[(start + row) as usize]);
            let mut col: u16 = 0;
            while col < 8
                invariant
                    row < n,
                    col <= 8,
                    gn == n,
                    gx == x0,
                    gy == y0,
                    start == s0.index,
                    s0.wf(),
                    start + n <= NMEM,
                    bits@ == bits_of(s0.memory[start + row]),
                    self@ == (MachineState { graphics: self.graphics@, reg: self.reg@, ..s0 }),
                    self.reg@ == s0.reg.update(
                        FLAG as int,
                        if collides_upto(s0, gx, gy, gn, row * 8 + col) {
                            1u8
                        } else {
                            0u8
                        },
                    ),
                    forall|p: int|
                        0 <= p < NPIXELS ==> #[trigger] self.graphics@[p] == if covered_upto(
                            s0,
                            gx,
                            gy,
                            gn,
                            p,
                            row * 8 + col,
                        ) {
                            s0.graphics[p] ^ 1u8
                        } else {
                            s0.graphics[p]
                        },
                decreases 8 - col,
            {
                let ghost k = row * 8 + col;
                let xs: usize = x0 as usize + col as usize;
                let ys: usize = y0 as usize + row as usize;
                let ghost a = WIDTH * ys + xs;
                let hit = xs < WIDTH && ys < HEIGHT && bits[col as usize] != 0;
                proof {
                    assert forall|p: int| 0 <= p < NPIXELS implies covered_upto(
                        s0,
                        gx,
                        gy,
                        gn,
                        p,
                        k + 1,
                    ) == (covered_upto(s0, gx, gy, gn, p, k) || (hit && p == a)) by {
                        lemma_next_bit(s0, gx, gy, gn, row as int, col as int, p);
                    }
                    if collides_upto(s0, gx, gy, gn, k + 1) {
                        let p = choose|p: int|
                            #[trigger] covered_upto(s0, gx, gy, gn, p, k + 1) && s0.graphics[p]
                                == 1;
                        assert(covered_upto(s0, gx, gy, gn, p, k) || (hit && p == a));
                    }
                    if collides_upto(s0, gx, gy, gn, k) {
                        let p = choose|p: int|
                            #[trigger] covered_upto(s0, gx, gy, gn, p, k) && s0.graphics[p] == 1;
                        assert(covered_upto(s0, gx, gy, gn, p, k + 1));
                    }
                    if hit && s0.graphics[a] == 1 {
                        assert(covered_upto(s0, gx, gy, gn, a, k + 1));
                    }
                }
                if hit {
                    let address = WIDTH * ys + xs;
                    assert(!covered_upto(s0, gx, gy, gn, address as int, k));
                    if self.graphics[address] == 1 {
                        self.reg[FLAG] = 1;
                        assert(covered_upto(s0, gx, gy, gn, address as int, k + 1));
                    }
                    self.graphics[address] = self.graphics[address] ^ 1;
                }
                assert(collides_upto(s0, gx, gy, gn, k + 1) == (collides_upto(s0, gx, gy, gn, k)
                    || (hit && s0.graphics[a] == 1)));
                col = col + 1;
            }
            row = row + 1;
        }
        self.drawFlag = true;
        proof {
            assert forall|p: int| 0 <= p < NPIXELS implies covered_upto(s0, gx, gy, gn, p, gn * 8)
                == covers(s0, gx, gy, gn, p) by {}
            assert(self.graphics@ =~= drawn(s0, gx, gy, gn));
            assert(collides_upto(s0, gx, gy, gn, gn * 8) == collides(s0, gx, gy, gn));
        }
    }
}

} // verus!
