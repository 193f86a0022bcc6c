//! The monochrome framebuffer: a 64x32 grid of boolean pixels with clear,
//! snapshot and XOR-draw-with-collision operations.

use vstd::arithmetic::div_mod::lemma_fundamental_div_mod;
use vstd::arithmetic::div_mod::lemma_fundamental_div_mod_converse_div;
use vstd::arithmetic::div_mod::lemma_fundamental_div_mod_converse_mod;
use vstd::prelude::*;

verus! {

/// Width of the pixel grid.
pub const RES_WIDTH: usize = 64;

/// Height of the pixel grid.
pub const RES_HEIGHT: usize = 32;

/// Number of pixels in the grid.
pub const RES_PIXELS: usize = 2048;

/// True iff bit `col` of sprite row byte `b` is set, counting the most
/// significant bit as column 0.
pub open spec fn sprite_bit(b: u8, col: int) -> bool {
    b & (0x80u8 >> (col as usize)) != 0
}

/// True iff drawing `sprite` anchored at `(x mod 64, y mod 32)` toggles pixel
/// `j`, considering only sprite rows before `rlim`. A pixel is toggled when it
/// lies under a set sprite bit; rows below the bottom edge and columns past
/// the right edge of the grid fall under no pixel index and are clipped.
pub open spec fn covers_upto(sprite: Seq<u8>, x: int, y: int, j: int, rlim: int) -> bool {
    let row = j / 64 - y % 32;
    let col = j % 64 - x % 64;
    0 <= row && row < rlim && row < sprite.len() && 0 <= col < 8 && sprite_bit(sprite[row], col)
}

/// True iff drawing `sprite` anchored at `(x mod 64, y mod 32)` toggles pixel `j`.
pub open spec fn draw_covers(sprite: Seq<u8>, x: int, y: int, j: int) -> bool {
    covers_upto(sprite, x, y, j, sprite.len() as int)
}

/// The framebuffer contents after XOR-drawing `sprite` at `(x, y)` onto `fb`.
pub open spec fn draw_fb(fb: Seq<bool>, sprite: Seq<u8>, x: int, y: int) -> Seq<bool> {
    Seq::new(fb.len(), |j: int| fb[j] != draw_covers(sprite, x, y, j))
}

/// True iff some pixel of `fb` that is on gets toggled by a sprite row before
/// `rlim`, i.e. turned off again: a collision.
pub open spec fn hits_upto(fb: Seq<bool>, sprite: Seq<u8>, x: int, y: int, rlim: int) -> bool {
    exists|j: int| 0 <= j < fb.len() && fb[j] && #[trigger] covers_upto(sprite, x, y, j, rlim)
}

/// True iff drawing `sprite` at `(x, y)` turns some lit pixel of `fb` off.
pub open spec fn draw_collision(fb: Seq<bool>, sprite: Seq<u8>, x: int, y: int) -> bool {
    hits_upto(fb, sprite, x, y, sprite.len() as int)
}

/// Like `covers_upto`, but additionally includes the columns before `clim` of
/// the single row `row`; describes the framebuffer in the middle of a row.
pub open spec fn covers_partial(
    sprite: Seq<u8>,
    x: int,
    y: int,
    j: int,
    row: int,
    clim: int,
) -> bool {
    let col = j % 64 - x % 64;
    covers_upto(sprite, x, y, j, row) || (0 <= row && row < sprite.len() && y % 32 + row < 32
        && j / 64 == y % 32 + row && 0 <= col && col < clim && col < 8
        && sprite_bit(sprite[row], col))
}

/// Collision seen so far in the middle of row `row`, columns before `clim`.
pub open spec fn hits_partial(
    fb: Seq<bool>,
    sprite: Seq<u8>,
    x: int,
    y: int,
    row: int,
    clim: int,
) -> bool {
    exists|j: int| 0 <= j < fb.len() && fb[j] && #[trigger] covers_partial(sprite, x, y, j, row, clim)
}

/// Every pixel index splits uniquely into a row below 32 and a column below 64.
proof fn lemma_grid_index(j: int)
    requires
        0 <= j < 2048,
    ensures
        0 <= j % 64 < 64,
        0 <= j / 64 < 32,
        j == 64 * (j / 64) + j % 64,
{
    lemma_fundamental_div_mod(j, 64);
}

/// The pixel index of a row/column pair decomposes back into that pair.
proof fn lemma_grid_coords(r: int, c: int)
    requires
        0 <= r < 32,
        0 <= c < 64,
    ensures
        (64 * r + c) / 64 == r,
        (64 * r + c) % 64 == c,
{
    lemma_fundamental_div_mod_converse_div(64 * r + c, 64, r, c);
    lemma_fundamental_div_mod_converse_mod(64 * r + c, 64, r, c);
}

/// The framebuffer. Its view is the row-major sequence of its 2048 pixels.
pub struct Display {
    buffer: Vec<bool>,
}

impl View for Display {
    type V = Seq<bool>;

    closed spec fn view(&self) -> Seq<bool> {
        self.buffer@
    }
}

impl Display {
    /// The buffer always holds exactly one boolean per pixel of the grid.
    pub open spec fn wf(&self) -> bool {
        self@.len() == 2048
    }

    /// A fresh framebuffer with every pixel off.
    pub fn new() -> (d: Display)
        ensures
            d.wf(),
            forall|j: int| 0 <= j < 2048 ==> !d@[j],
    {
        let mut buffer: Vec<bool> = Vec::new();
        let mut k: usize = 0;
        while k < RES_PIXELS
            invariant
                k <= 2048,
                buffer@.len() == k,
                forall|j: int| 0 <= j < k ==> !buffer@[j],
            decreases 2048 - k,
        {
            buffer.push(false);
            k += 1;
        }
        Display { buffer }
    }

    /// Turns every pixel off.
    pub fn clear(&mut self)
        requires
            old(self).wf(),
        ensures
            final(self).wf(),
            forall|j: int| 0 <= j < 2048 ==> !final(self)@[j],
    {
        let mut k: usize = 0;
        while k < RES_PIXELS
            invariant
                k <= 2048,
                self.buffer@.len() == 2048,
                forall|j: int| 0 <= j < k ==> !self.buffer@[j],
            decreases 2048 - k,
        {
            self.buffer.set(k, false);
            k += 1;
        }
    }

    /// A copy of the pixel grid, row-major, 64 pixels per row.
    pub fn as_buffer(&mut self) -> (b: Vec<bool>)
        requires
            old(self).wf(),
        ensures
            *final(self) == *old(self),
            b@ == old(self)@,
    {
        let mut b: Vec<bool> = Vec::new();
        let mut k: usize = 0;
        while k < self.buffer.len()
            invariant
                k <= self.buffer@.len(),
                b@ == self.buffer@.subrange(0, k as int),
            decreases self.buffer@.len() - k,
        {
            let px = self.buffer[k];
            b.push(px);
            proof {
                assert(b@ =~= self.buffer@.subrange(0, k as int + 1));
            }
            k += 1;
        }
        proof {
            assert(b@ =~= self.buffer@);
        }
        b
    }

    /// XOR-draws `sprite` with its anchor at `(x mod 64, y mod 32)`: each set
    /// sprite bit toggles the pixel under it, and bits past the right or
    /// bottom edge of the grid are clipped. Returns true iff some pixel that
    /// was on has been turned off (a collision).
    #[verifier::loop_isolation(false)]
    pub fn draw(&mut self, sprite: Vec<u8>, x: u8, y: u8) -> (hit: bool)
        requires
            old(self).wf(),
        ensures
            final(self).wf(),
            final(self)@ == draw_fb(old(self)@, sprite@, x as int, y as int),
            hit == draw_collision(old(self)@, sprite@, x as int, y as int),
    {
        let ghost xi = x as int;
        let ghost yi = y as int;
        let ghost fb0 = self.buffer@;
        let xw: usize = (x as usize) % RES_WIDTH;
        let yw: usize = (y as usize) % RES_HEIGHT;
        let mut hit = false;
        let mut row: usize = 0;
        while row < sprite.len()
            invariant
                row <= sprite@.len(),
                self.buffer@.len() == 2048,
                forall|j: int| 0 <= j < 2048 ==> self.buffer@[j] == (fb0[j] != covers_upto(
                    sprite@,
                    xi,
                    yi,
                    j,
                    row as int,
                )),
                hit == hits_upto(fb0, sprite@, xi, yi, row as int),
            decreases sprite@.len() - row,
        {
            let byte = sprite[row];
            if row < RES_HEIGHT && yw + row < RES_HEIGHT {
                let py: usize = yw + row;
                proof {
                    assert(hits_partial(fb0, sprite@, xi, yi, row as int, 0) == hits_upto(
                        fb0,
                        sprite@,
                        xi,
                        yi,
                        row as int,
                    )) by {
                        if hits_upto(fb0, sprite@, xi, yi, row as int) {
                            let j = choose|j: int|
                                0 <= j < fb0.len() && fb0[j] && #[trigger] covers_upto(
                                    sprite@,
                                    xi,
                                    yi,
                                    j,
                                    row as int,
                                );
                            assert(covers_partial(sprite@, xi, yi, j, row as int, 0));
                            assert(hits_partial(fb0, sprite@, xi, yi, row as int, 0));
                        }
                        if hits_partial(fb0, sprite@, xi, yi, row as int, 0) {
                            let j = choose|j: int|
                                0 <= j < fb0.len() && fb0[j] && #[trigger] covers_partial(
                                    sprite@,
                                    xi,
                                    yi,
                                    j,
                                    row as int,
                                    0,
                                );
                            assert(covers_upto(sprite@, xi, yi, j, row as int));
                            assert(hits_upto(fb0, sprite@, xi, yi, row as int));
                        }
                    }
                }
                let mut col: usize = 0;
                while col < 8
                    invariant
                        col <= 8,
                        self.buffer@.len() == 2048,
                        forall|j: int| 0 <= j < 2048 ==> self.buffer@[j] == (fb0[j]
                            != covers_partial(sprite@, xi, yi, j, row as int, col as int)),
                        hit == hits_partial(fb0, sprite@, xi, yi, row as int, col as int),
                    decreases 8 - col,
                {
                    let px: usize = xw + col;
                    if px < RES_WIDTH && (byte & (0x80u8 >> col)) != 0 {
                        let idx: usize = py * RES_WIDTH + px;
                        let ghost prev = self.buffer@;
                        let cur = self.buffer[idx];
                        if cur {
                            hit = true;
                        }
                        self.buffer.set(idx, !cur);
                        proof {
                            lemma_grid_coords(py as int, px as int);
                            assert(!covers_partial(sprite@, xi, yi, idx as int, row as int, col as int));
                            assert(covers_partial(
                                sprite@,
                                xi,
                                yi,
                                idx as int,
                                row as int,
                                col as int + 1,
                            ));
                            assert(cur == fb0[idx as int]);
                            assert forall|j: int| 0 <= j < 2048 implies self.buffer@[j] == (fb0[j]
                                != covers_partial(
                                sprite@,
                                xi,
                                yi,
                                j,
                                row as int,
                                col as int + 1,
                            )) by {
                                lemma_grid_index(j);
                                if j != idx as int && j / 64 == py as int && j % 64 == px as int {
                                    assert(false);
                                }
                            }
                            if cur {
                                assert(hits_partial(
                                    fb0,
                                    sprite@,
                                    xi,
                                    yi,
                                    row as int,
                                    col as int + 1,
                                ));
                            } else if hit {
                                let j = choose|j: int|
                                    0 <= j < fb0.len() && fb0[j] && #[trigger] covers_partial(
                                        sprite@,
                                        xi,
                                        yi,
                                        j,
                                        row as int,
                                        col as int,
                                    );
                                assert(covers_partial(
                                    sprite@,
                                    xi,
                                    yi,
                                    j,
                                    row as int,
                                    col as int + 1,
                                ));
                                assert(hits_partial(
                                    fb0,
                                    sprite@,
                                    xi,
                                    yi,
                                    row as int,
                                    col as int + 1,
                                ));
                            } else {
                                assert(!hits_partial(
                                    fb0,
                                    sprite@,
                                    xi,
                                    yi,
                                    row as int,
                                    col as int + 1,
                                )) by {
                                    if hits_partial(fb0, sprite@, xi, yi, row as int, col as int + 1) {
                                        let j = choose|j: int|
                                            0 <= j < fb0.len() && fb0[j] && #[trigger] covers_partial(
                                                sprite@,
                                                xi,
                                                yi,
                                                j,
                                                row as int,
                                                col as int + 1,
                                            );
                                        lemma_grid_index(j);
                                        if j == idx as int {
                                            assert(false);
                                        } else {
                                            if j / 64 == py as int && j % 64 == px as int {
                                                assert(false);
                                            }
                                            assert(covers_partial(
                                                sprite@,
                                                xi,
                                                yi,
                                                j,
                                                row as int,
                                                col as int,
                                            ));
                                            assert(hits_partial(
                                                fb0,
                                                sprite@,
                                                xi,
                                                yi,
                                                row as int,
                                                col as int,
                                            ));
                                            assert(false);
                                        }
                                    }
                                }
                            }
                        }
                    } else {
                        proof {
                            assert forall|j: int| 0 <= j < 2048 implies covers_partial(
                                sprite@,
                                xi,
                                yi,
                                j,
                                row as int,
                                col as int + 1,
                            ) == covers_partial(sprite@, xi, yi, j, row as int, col as int) by {
                                lemma_grid_index(j);
                            }
                            assert(hits_partial(fb0, sprite@, xi, yi, row as int, col as int + 1)
                                == hits_partial(fb0, sprite@, xi, yi, row as int, col as int)) by {
                                if hits_partial(fb0, sprite@, xi, yi, row as int, col as int) {
                                    let j = choose|j: int|
                                        0 <= j < fb0.len() && fb0[j] && #[trigger] covers_partial(
                                            sprite@,
                                            xi,
                                            yi,
                                            j,
                                            row as int,
                                            col as int,
                                        );
                                    lemma_grid_index(j);
                                    assert(covers_partial(
                                        sprite@,
                                        xi,
                                        yi,
                                        j,
                                        row as int,
                                        col as int + 1,
                                    ));
                                    assert(hits_partial(
                                        fb0,
                                        sprite@,
                                        xi,
                                        yi,
                                        row as int,
                                        col as int + 1,
                                    ));
                                }
                                if hits_partial(fb0, sprite@, xi, yi, row as int, col as int + 1) {
                                    let j = choose|j: int|
                                        0 <= j < fb0.len() && fb0[j] && #[trigger] covers_partial(
                                            sprite@,
                                            xi,
                                            yi,
                                            j,
                                            row as int,
                                            col as int + 1,
                                        );
                                    lemma_grid_index(j);
                                    assert(covers_partial(sprite@, xi, yi, j, row as int, col as int));
                                    assert(hits_partial(fb0, sprite@, xi, yi, row as int, col as int));
                                }
                            }
                        }
                    }
                    col += 1;
                }
                proof {
                    assert forall|j: int| 0 <= j < 2048 implies covers_partial(
                        sprite@,
                        xi,
                        yi,
                        j,
                        row as int,
                        8,
                    ) == covers_upto(sprite@, xi, yi, j, row as int + 1) by {
                        lemma_grid_index(j);
                    }
                    assert(hits_partial(fb0, sprite@, xi, yi, row as int, 8) == hits_upto(
                        fb0,
                        sprite@,
                        xi,
                        yi,
                        row as int + 1,
                    )) by {
                        if hits_partial(fb0, sprite@, xi, yi, row as int, 8) {
                            let j = choose|j: int|
                                0 <= j < fb0.len() && fb0[j] && #[trigger] covers_partial(
                                    sprite@,
                                    xi,
                                    yi,
                                    j,
                                    row as int,
                                    8,
                                );
                            lemma_grid_index(j);
                            assert(covers_upto(sprite@, xi, yi, j, row as int + 1));
                            assert(hits_upto(fb0, sprite@, xi, yi, row as int + 1));
                        }
                        if hits_upto(fb0, sprite@, xi, yi, row as int + 1) {
                            let j = choose|j: int|
                                0 <= j < fb0.len() && fb0[j] && #[trigger] covers_upto(
                                    sprite@,
                                    xi,
                                    yi,
                                    j,
                                    row as int + 1,
                                );
                            lemma_grid_index(j);
                            assert(covers_partial(sprite@, xi, yi, j, row as int, 8));
                            assert(hits_partial(fb0, sprite@, xi, yi, row as int, 8));
                        }
                    }
                }
            } else {
                proof {
                    assert forall|j: int| 0 <= j < 2048 implies covers_upto(
                        sprite@,
                        xi,
                        yi,
                        j,
                        row as int + 1,
                    ) == covers_upto(sprite@, xi, yi, j, row as int) by {
                        lemma_grid_index(j);
                    }
                    assert(hits_upto(fb0, sprite@, xi, yi, row as int + 1) == hits_upto(
                        fb0,
                        sprite@,
                        xi,
                        yi,
                        row as int,
                    )) by {
                        if hits_upto(fb0, sprite@, xi, yi, row as int) {
                            let j = choose|j: int|
                                0 <= j < fb0.len() && fb0[j] && #[trigger] covers_upto(
                                    sprite@,
                                    xi,
                                    yi,
                                    j,
                                    row as int,
                                );
                            lemma_grid_index(j);
                            assert(covers_upto(sprite@, xi, yi, j, row as int + 1));
                            assert(hits_upto(fb0, sprite@, xi, yi, row as int + 1));
                        }
                        if hits_upto(fb0, sprite@, xi, yi, row as int + 1) {
                            let j = choose|j: int|
                                0 <= j < fb0.len() && fb0[j] && #[trigger] covers_upto(
                                    sprite@,
                                    xi,
                                    yi,
                                    j,
                                    row as int + 1,
                                );
                            lemma_grid_index(j);
                            assert(covers_upto(sprite@, xi, yi, j, row as int));
                            assert(hits_upto(fb0, sprite@, xi, yi, row as int));
                        }
                    }
                }
            }
            row += 1;
        }
        proof {
            assert(self.buffer@ =~= draw_fb(fb0, sprite@, xi, yi));
        }
        hit
    }
}

/// Drawing the same sprite twice at the same anchor is a no-op: XOR toggling
/// is its own inverse. And if the first draw turned any pixel on, the second
/// draw reports a collision when it turns that pixel off again.
pub proof fn lemma_draw_twice_restores(fb: Seq<bool>, sprite: Seq<u8>, x: int, y: int)
    ensures
        draw_fb(draw_fb(fb, sprite, x, y), sprite, x, y) == fb,
        (exists|j: int| 0 <= j < fb.len() && !fb[j] && #[trigger] draw_covers(sprite, x, y, j))
            ==> draw_collision(draw_fb(fb, sprite, x, y), sprite, x, y),
{
    let fb1 = draw_fb(fb, sprite, x, y);
    assert(draw_fb(fb1, sprite, x, y) =~= fb);
    if exists|j: int| 0 <= j < fb.len() && !fb[j] && #[trigger] draw_covers(sprite, x, y, j) {
        let j = choose|j: int| 0 <= j < fb.len() && !fb[j] && #[trigger] draw_covers(sprite, x, y, j);
        assert(fb1[j]);
        assert(covers_upto(sprite, x, y, j, sprite.len() as int));
        assert(hits_upto(fb1, sprite, x, y, sprite.len() as int));
    }
}

} // verus!
