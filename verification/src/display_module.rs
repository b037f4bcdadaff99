//! The monochrome framebuffer: a `width` x `height` grid of on/off pixels,
//! mutated only by the wrap-around XOR sprite blit and by the clear
//! operation.  A short stack of past frames is kept solely so an external
//! renderer can blend a phosphor-like glow; it never influences the
//! machine's behaviour.

use vstd::arithmetic::div_mod::lemma_fundamental_div_mod;
use vstd::arithmetic::div_mod::lemma_multiply_divide_lt;
use vstd::prelude::*;

use crate::memory::Memory;
use crate::memory::MEM_SIZE;

verus! {

/// How many past frames the renderer may blend over.
pub const FRAME_STACK_SIZE: usize = 2;

/// A vector of pixel columns as a mathematical grid of booleans.
pub open spec fn grid_of(v: Seq<Vec<bool>>) -> Seq<Seq<bool>> {
    Seq::new(v.len(), |c: int| v[c]@)
}

/// Bit `k` of a sprite row, most significant first: bit 0 is the leftmost
/// drawn pixel.  Meaningful for `0 <= k < 8`.
pub open spec fn sprite_bit(sprite: u8, k: int) -> bool {
    (sprite >> ((7 - k) as u32)) & 1 == 1
}

/// Whether any of the first `n` sprite bits lands on column `c` when the
/// row is drawn starting at column `x` on a buffer `w` pixels wide.
pub open spec fn row_hits_col_upto(x: int, c: int, w: int, sprite: u8, n: int) -> bool {
    exists|k: int| 0 <= k < n && (x + k) % w == c && #[trigger] sprite_bit(sprite, k)
}

/// Whether any of the 8 sprite bits lands on column `c`.
pub open spec fn row_hits_col(x: int, c: int, w: int, sprite: u8) -> bool {
    row_hits_col_upto(x, c, w, sprite, 8)
}

/// The buffer after one 8-pixel sprite row is XOR-blitted at `(x, y)`,
/// with wrap-around addressing: bit `k` targets column `(x + k) mod w`,
/// and the whole row targets row `y mod h`.  A set bit flips its target
/// pixel; a clear bit leaves it alone.
pub open spec fn blit_row(
    g: Seq<Seq<bool>>,
    x: int,
    y: int,
    sprite: u8,
    w: int,
    h: int,
) -> Seq<Seq<bool>> {
    Seq::new(
        g.len(),
        |c: int|
            Seq::new(
                g[c].len(),
                |r: int|
                    if r == y % h && row_hits_col(x, c, w, sprite) {
                        !g[c][r]
                    } else {
                        g[c][r]
                    },
            ),
    )
}

/// Whether blitting the first `n` bits of the row turns some pixel that
/// was on back off, i.e. whether a set bit meets a pixel that is on.
pub open spec fn row_collision_upto(
    g: Seq<Seq<bool>>,
    x: int,
    y: int,
    sprite: u8,
    w: int,
    h: int,
    n: int,
) -> bool {
    exists|k: int| 0 <= k < n && #[trigger] sprite_bit(sprite, k) && g[(x + k) % w][y % h]
}

/// The collision flag one sprite-row blit reports.
pub open spec fn row_collision(
    g: Seq<Seq<bool>>,
    x: int,
    y: int,
    sprite: u8,
    w: int,
    h: int,
) -> bool {
    row_collision_upto(g, x, y, sprite, w, h, 8)
}

/// The all-off buffer of the given dimensions: what `new` allocates and
/// what `clear` resets to.
pub open spec fn blank_grid(w: int, h: int) -> Seq<Seq<bool>> {
    Seq::new(w as nat, |c: int| Seq::new(h as nat, |r: int| false))
}

/// The colour an external renderer paints pixel `(x, y)`, as four RGBA
/// bytes: white with an opacity that fades with the age of the most
/// recent past frame in which the pixel was on, or transparent black if
/// it was off throughout the kept frames.
pub open spec fn glow_rgba(past: Seq<Seq<Seq<bool>>>, j: int, x: int, y: int) -> Seq<u8>
    decreases past.len() - j,
{
    if j < 0 || j >= past.len() {
        seq![0u8, 0u8, 0u8, 0u8]
    } else if past[j][x][y] {
        seq![0xFFu8, 0xFFu8, 0xFFu8, ((255int / (past.len() - j)) / 2) as u8]
    } else {
        glow_rgba(past, j + 1, x, y)
    }
}

/// Whether the four RGBA bytes of pixel `p` in a rendered frame hold the
/// glow colour computed from the kept past frames.
pub open spec fn pixel_rendered(
    frame: Seq<u8>,
    past: Seq<Seq<Seq<bool>>>,
    w: int,
    p: int,
) -> bool {
    let rgba = glow_rgba(past, 0, p % w, p / w);
    &&& frame[4 * p] == rgba[0]
    &&& frame[4 * p + 1] == rgba[1]
    &&& frame[4 * p + 2] == rgba[2]
    &&& frame[4 * p + 3] == rgba[3]
}

/// The pixel framebuffer, indexed `[column][row]`, together with the short
/// history of frames kept for the renderer's glow effect.
pub struct DisplayModule {
    pub frame_buffer: Vec<Vec<bool>>,
    pub frame_stack: Vec<Vec<Vec<bool>>>,
    pub width: u32,
    pub height: u32,
}

impl DisplayModule {
    /// The current buffer as a grid of booleans, `grid()[c][r]` being the
    /// pixel at column `c`, row `r`.
    pub open spec fn grid(&self) -> Seq<Seq<bool>> {
        grid_of(self.frame_buffer@)
    }

    /// The kept past frames, oldest first.
    pub open spec fn past(&self) -> Seq<Seq<Seq<bool>>> {
        Seq::new(self.frame_stack@.len(), |f: int| grid_of(self.frame_stack@[f]@))
    }

    /// The buffer spans exactly `width` columns of `height` pixels, as do
    /// the kept past frames.  A sprite row is 8 pixels wide and must not
    /// wrap onto itself, so the buffer is at least that wide.
    pub open spec fn wf(&self) -> bool {
        &&& 8 <= self.width
        &&& 1 <= self.height
        &&& self.frame_buffer@.len() == self.width
        &&& (forall|c: int|
            0 <= c < self.width ==> #[trigger] self.frame_buffer@[c]@.len() == self.height)
        &&& self.frame_stack@.len() == FRAME_STACK_SIZE
        &&& (forall|f: int|
            0 <= f < FRAME_STACK_SIZE ==> #[trigger] self.frame_stack@[f]@.len() == self.width)
        &&& (forall|f: int, c: int|
            0 <= f < FRAME_STACK_SIZE && 0 <= c < self.width
                ==> #[trigger] self.frame_stack@[f]@[c]@.len() == self.height)
    }

    /// Allocates an all-off buffer of the given dimensions, with an
    /// all-off frame history.
    pub fn new(width: u32, height: u32) -> (d: DisplayModule)
        requires
            8 <= width,
            1 <= height,
        ensures
            d.wf(),
            d.width == width,
            d.height == height,
            d.grid() == blank_grid(width as int, height as int),
            forall|f: int|
                0 <= f < FRAME_STACK_SIZE ==> d.past()[f] == blank_grid(
                    width as int,
                    height as int,
                ),
    {
        let frame_buffer = alloc_grid(width, height);
        let mut frame_stack: Vec<Vec<Vec<bool>>> = Vec::new();
        let mut f: usize = 0;
        while f < FRAME_STACK_SIZE
            invariant
                8 <= width,
                1 <= height,
                f <= FRAME_STACK_SIZE,
                frame_stack@.len() == f,
                forall|j: int|
                    0 <= j < f ==> grid_of(#[trigger] frame_stack@[j]@) == blank_grid(
                        width as int,
                        height as int,
                    ),
            decreases FRAME_STACK_SIZE - f,
        {
            frame_stack.push(alloc_grid(width, height));
            f = f + 1;
        }
        let d = DisplayModule { frame_buffer, frame_stack, width, height };
        proof {
            assert forall|fi: int| 0 <= fi < FRAME_STACK_SIZE implies d.past()[fi] == blank_grid(
                width as int,
                height as int,
            ) by {
                assert(grid_of(d.frame_stack@[fi]@) == blank_grid(width as int, height as int));
            }
            assert forall|fi: int, c: int|
                0 <= fi < FRAME_STACK_SIZE && 0 <= c < width implies #[trigger] d.frame_stack@[fi]@[c]@.len()
                == height by {
                assert(grid_of(d.frame_stack@[fi]@)[c] == d.frame_stack@[fi]@[c]@);
                assert(blank_grid(width as int, height as int)[c].len() == height);
            }
            assert forall|fi: int| 0 <= fi < FRAME_STACK_SIZE implies #[trigger] d.frame_stack@[fi]@.len()
                == width by {
                assert(grid_of(d.frame_stack@[fi]@).len() == d.frame_stack@[fi]@.len());
            }
        }
        d
    }

    /// XOR-blits one 8-pixel sprite row, read from `memory` at address
    /// `i`, at pixel coordinates `(in_x, in_y)` with wrap-around
    /// addressing, and reports whether the blit turned any lit pixel off.
    pub fn draw_sprite(&mut self, in_x: u8, in_y: u8, i: u16, memory: &Memory) -> (collision:
        bool)
        requires
            old(self).wf(),
            memory.wf(),
            i < MEM_SIZE,
        ensures
            final(self).wf(),
            final(self).width == old(self).width,
            final(self).height == old(self).height,
            final(self).past() == old(self).past(),
            final(self).grid() == blit_row(
                old(self).grid(),
                in_x as int,
                in_y as int,
                memory.mem@[i as int],
                old(self).width as int,
                old(self).height as int,
            ),
            collision == row_collision(
                old(self).grid(),
                in_x as int,
                in_y as int,
                memory.mem@[i as int],
                old(self).width as int,
                old(self).height as int,
            ),
    {
        let sprite: u8 = memory.get_memory(i);
        let mut collision = false;
        let w = self.width as usize;
        let h = self.height as usize;
        let ghost g0 = old(self).grid();
        let ghost xs = in_x as int;
        let ghost ys = in_y as int;
        let mut n: usize = 0;
        while n < 8
            invariant
                n <= 8,
                8 <= w,
                1 <= h,
                w == old(self).width,
                h == old(self).height,
                self.width == old(self).width,
                self.height == old(self).height,
                self.frame_stack == old(self).frame_stack,
                g0 == old(self).grid(),
                g0.len() == w,
                forall|c: int| 0 <= c < w ==> g0[c].len() == h,
                self.frame_buffer@.len() == w,
                forall|c: int| 0 <= c < w ==> #[trigger] self.frame_buffer@[c]@.len() == h,
                xs == in_x as int,
                ys == in_y as int,
                forall|c: int, r: int|
                    0 <= c < w && 0 <= r < h ==> #[trigger] self.frame_buffer@[c]@[r] == (if r
                        == ys % (h as int) && row_hits_col_upto(xs, c, w as int, sprite, n as int) {
                        !g0[c][r]
                    } else {
                        g0[c][r]
                    }),
                collision == row_collision_upto(
                    g0,
                    xs,
                    ys,
                    sprite,
                    w as int,
                    h as int,
                    n as int,
                ),
            decreases 8 - n,
        {
            let x = (in_x as usize + n) % w;
            let y = (in_y as usize) % h;
            let bit: bool = (sprite >> ((7 - n) as u32)) & 1 == 1;
            proof {
                assert(bit == sprite_bit(sprite, n as int));
                assert(x == (xs + n) % (w as int));
                assert(y == ys % (h as int));
                // No earlier bit of this row can land on column `x`: the 8
                // columns of one row are pairwise distinct when w >= 8.
                assert forall|k: int| 0 <= k < n implies #[trigger] ((xs + k) % (w as int))
                    != x as int by {
                    lemma_distinct_columns(xs, k, n as int, w as int);
                }
                assert(!row_hits_col_upto(xs, x as int, w as int, sprite, n as int));
            }
            if bit {
                let cur: bool = self.frame_buffer[x][y];
                proof {
                    assert(cur == g0[x as int][y as int]);
                }
                let col = &mut self.frame_buffer[x];
                col[y] = !cur;
                if cur {
                    collision = true;
                    proof {
                        assert(sprite_bit(sprite, n as int) && g0[(xs + n) % (w as int)][ys % (
                        h as int)]);
                    }
                }
            }
            proof {
                let wi = w as int;
                let hi = h as int;
                let n1 = n as int + 1;
                assert forall|c: int, r: int|
                    0 <= c < w && 0 <= r < h implies #[trigger] self.frame_buffer@[c]@[r] == (if r
                    == ys % hi && row_hits_col_upto(xs, c, wi, sprite, n1) {
                    !g0[c][r]
                } else {
                    g0[c][r]
                }) by {
                    if row_hits_col_upto(xs, c, wi, sprite, n1) && !row_hits_col_upto(
                        xs,
                        c,
                        wi,
                        sprite,
                        n as int,
                    ) {
                        let k = choose|k: int|
                            0 <= k < n1 && (xs + k) % wi == c && #[trigger] sprite_bit(sprite, k);
                        assert(k == n);
                        assert(c == x as int);
                    }
                    if row_hits_col_upto(xs, c, wi, sprite, n as int) {
                        assert(row_hits_col_upto(xs, c, wi, sprite, n1));
                    }
                }
                if collision && !row_collision_upto(g0, xs, ys, sprite, wi, hi, n as int) {
                    assert(row_collision_upto(g0, xs, ys, sprite, wi, hi, n1));
                }
                if row_collision_upto(g0, xs, ys, sprite, wi, hi, n as int) {
                    assert(row_collision_upto(g0, xs, ys, sprite, wi, hi, n1));
                }
                assert(!row_collision_upto(g0, xs, ys, sprite, wi, hi, n1)
                    ==> !row_collision_upto(g0, xs, ys, sprite, wi, hi, n as int) && !(sprite_bit(
                    sprite,
                    n as int,
                ) && g0[(xs + n) % wi][ys % hi]));
            }
            n = n + 1;
        }
        proof {
            assert(self.grid() =~~= blit_row(
                g0,
                xs,
                ys,
                sprite,
                old(self).width as int,
                old(self).height as int,
            ));
        }
        collision
    }

    /// Resets every pixel to off; the kept past frames and the dimensions
    /// are untouched.
    pub fn clear(&mut self)
        requires
            old(self).wf(),
        ensures
            final(self).wf(),
            final(self).width == old(self).width,
            final(self).height == old(self).height,
            final(self).past() == old(self).past(),
            final(self).grid() == blank_grid(old(self).width as int, old(self).height as int),
    {
        let fresh = alloc_grid(self.width, self.height);
        self.frame_buffer = fresh;
    }

    /// Renders the glow view of the kept past frames into an RGBA byte
    /// buffer (4 bytes per pixel, rows of `width` pixels, top row first),
    /// then retires the oldest kept frame in favour of the current buffer.
    pub fn draw(&mut self, frame: &mut Vec<u8>)
        requires
            old(self).wf(),
            old(frame)@.len() == 4 * (old(self).width * old(self).height),
        ensures
            final(self).wf(),
            final(self).width == old(self).width,
            final(self).height == old(self).height,
            final(self).grid() == old(self).grid(),
            final(frame)@.len() == old(frame)@.len(),
            forall|p: int|
                0 <= p < old(self).width * old(self).height ==> #[trigger] pixel_rendered(
                    final(frame)@,
                    old(self).past(),
                    old(self).width as int,
                    p,
                ),
            forall|f: int|
                0 <= f < FRAME_STACK_SIZE - 1 ==> final(self).past()[f] == old(self).past()[f
                    + 1],
            final(self).past()[FRAME_STACK_SIZE - 1] == old(self).grid(),
    {
        let w = self.width as usize;
        let h = self.height as usize;
        let flen = frame.len();
        proof {
            assert(w * h <= usize::MAX) by {
                assert(4 * ((w as int) * (h as int)) == flen);
            }
        }
        let total = w * h;
        let mut p: usize = 0;
        while p < total
            invariant
                w == old(self).width,
                h == old(self).height,
                total == w * h,
                p <= total,
                *self == *old(self),
                self.wf(),
                frame@.len() == old(frame)@.len(),
                frame@.len() == 4 * total,
                frame@.len() <= usize::MAX,
                forall|q: int|
                    0 <= q < p ==> #[trigger] pixel_rendered(frame@, self.past(), w as int, q),
            decreases total - p,
        {
            let x = p % w;
            let y = p / w;
            proof {
                lemma_multiply_divide_lt(p as int, w as int, h as int);
            }
            let ghost before = frame@;
            let (cr, cg, cb, ca) = self.generate_glow(x, y);
            frame[4 * p] = cr;
            frame[4 * p + 1] = cg;
            frame[4 * p + 2] = cb;
            frame[4 * p + 3] = ca;
            proof {
                assert(pixel_rendered(frame@, self.past(), w as int, p as int));
                assert forall|q: int| 0 <= q < p + 1 implies #[trigger] pixel_rendered(
                    frame@,
                    self.past(),
                    w as int,
                    q,
                ) by {
                    if q < p {
                        assert(pixel_rendered(before, self.past(), w as int, q));
                        assert(frame@[4 * q] == before[4 * q]);
                        assert(frame@[4 * q + 1] == before[4 * q + 1]);
                        assert(frame@[4 * q + 2] == before[4 * q + 2]);
                        assert(frame@[4 * q + 3] == before[4 * q + 3]);
                    }
                }
            }
            p = p + 1;
        }
        let kept = clone_grid(&self.frame_buffer);
        let ghost keptv = kept@;
        self.frame_stack.push(kept);
        self.frame_stack.remove(0);
        proof {
            let s = self.frame_stack@;
            let olds = old(self).frame_stack@;
            assert(s.len() == FRAME_STACK_SIZE);
            assert forall|f: int| 0 <= f < FRAME_STACK_SIZE - 1 implies s[f] == olds[f + 1] by {
                assert(s[f] == olds.push(kept)[f + 1]);
            }
            assert(s[FRAME_STACK_SIZE - 1]@ == keptv);
            assert(grid_of(keptv) == old(self).grid());
            assert forall|f: int| 0 <= f < FRAME_STACK_SIZE implies #[trigger] s[f]@.len()
                == self.width by {
                if f == FRAME_STACK_SIZE - 1 {
                    assert(grid_of(keptv).len() == keptv.len());
                }
            }
            assert forall|f: int, c: int|
                0 <= f < FRAME_STACK_SIZE && 0 <= c < self.width implies #[trigger] s[f]@[c]@.len()
                == self.height by {
                if f == FRAME_STACK_SIZE - 1 {
                    assert(grid_of(keptv)[c] == keptv[c]@);
                    assert(old(self).grid()[c] == old(self).frame_buffer@[c]@);
                } else {
                    assert(s[f] == olds[f + 1]);
                }
            }
            assert forall|f: int| 0 <= f < FRAME_STACK_SIZE - 1 implies final(self).past()[f]
                == old(self).past()[f + 1] by {
                assert(s[f] == olds[f + 1]);
            }
            assert(final(self).past()[FRAME_STACK_SIZE - 1] == grid_of(keptv));
        }
    }

    /// The RGBA glow colour of one pixel, from the kept past frames: the
    /// most recent frame in which the pixel was on decides the opacity.
    fn generate_glow(&self, x: usize, y: usize) -> (rgba: (u8, u8, u8, u8))
        requires
            self.wf(),
            x < self.width,
            y < self.height,
        ensures
            seq![rgba.0, rgba.1, rgba.2, rgba.3] == glow_rgba(
                self.past(),
                0,
                x as int,
                y as int,
            ),
    {
        let stack_len = self.frame_stack.len();
        let mut i: usize = 0;
        while i < stack_len
            invariant
                self.wf(),
                x < self.width,
                y < self.height,
                stack_len == self.frame_stack@.len(),
                i <= stack_len,
                glow_rgba(self.past(), 0, x as int, y as int) == glow_rgba(
                    self.past(),
                    i as int,
                    x as int,
                    y as int,
                ),
            decreases stack_len - i,
        {
            proof {
                assert(self.past()[i as int] == grid_of(self.frame_stack@[i as int]@));
                assert(self.past()[i as int][x as int] == self.frame_stack@[i as int]@[x as int]@);
            }
            if self.frame_stack[i][x][y] {
                let pixel_opacity = (0xFF / (stack_len - i)) / 2;
                proof {
                    assert(glow_rgba(self.past(), i as int, x as int, y as int) == seq![
                        0xFFu8,
                        0xFFu8,
                        0xFFu8,
                        ((255int / (self.past().len() - i)) / 2) as u8,
                    ]);
                }
                return (0xFF, 0xFF, 0xFF, pixel_opacity as u8);
            }
            i = i + 1;
        }
        (0x00, 0x00, 0x00, 0x00)
    }
}

/// A fresh all-off `w` x `h` grid of pixels.
fn alloc_grid(w: u32, h: u32) -> (g: Vec<Vec<bool>>)
    ensures
        grid_of(g@) == blank_grid(w as int, h as int),
        g@.len() == w,
        forall|c: int| 0 <= c < w ==> #[trigger] g@[c]@.len() == h,
{
    let mut g: Vec<Vec<bool>> = Vec::new();
    let mut c: usize = 0;
    while c < w as usize
        invariant
            c <= w,
            g@.len() == c,
            forall|j: int|
                0 <= j < c ==> #[trigger] g@[j]@ == Seq::new(h as nat, |r: int| false),
        decreases w - c,
    {
        let mut column: Vec<bool> = Vec::new();
        let mut r: usize = 0;
        while r < h as usize
            invariant
                r <= h,
                column@.len() == r,
                forall|j: int| 0 <= j < r ==> !column@[j],
            decreases h - r,
        {
            column.push(false);
            r = r + 1;
        }
        proof {
            assert(column@ =~= Seq::new(h as nat, |r: int| false));
        }
        g.push(column);
        c = c + 1;
    }
    proof {
        assert(grid_of(g@) =~~= blank_grid(w as int, h as int));
        assert forall|c0: int| 0 <= c0 < w implies #[trigger] g@[c0]@.len() == h by {
            assert(g@[c0]@ == Seq::new(h as nat, |r: int| false));
        }
    }
    g
}

/// An owned copy of a pixel grid, pixel for pixel.
fn clone_grid(src: &Vec<Vec<bool>>) -> (g: Vec<Vec<bool>>)
    ensures
        grid_of(g@) == grid_of(src@),
        g@.len() == src@.len(),
{
    let mut g: Vec<Vec<bool>> = Vec::new();
    let mut c: usize = 0;
    while c < src.len()
        invariant
            c <= src@.len(),
            g@.len() == c,
            forall|j: int| 0 <= j < c ==> #[trigger] g@[j]@ == src@[j]@,
        decreases src@.len() - c,
    {
        let column = &src[c];
        let mut copy: Vec<bool> = Vec::new();
        let mut r: usize = 0;
        while r < column.len()
            invariant
                r <= column@.len(),
                copy@.len() == r,
                forall|j: int| 0 <= j < r ==> copy@[j] == column@[j],
            decreases column@.len() - r,
        {
            copy.push(column[r]);
            r = r + 1;
        }
        proof {
            assert(copy@ =~= column@);
        }
        g.push(copy);
        c = c + 1;
    }
    proof {
        assert(grid_of(g@) =~~= grid_of(src@));
    }
    g
}

/// Distinct offsets within one sprite row land on distinct columns: for a
/// buffer at least as wide as the row, `(x + k) mod w` and `(x + n) mod w`
/// differ whenever `k != n` and both offsets are below `w`.
proof fn lemma_distinct_columns(x: int, k: int, n: int, w: int)
    requires
        0 <= x,
        0 <= k < w,
        0 <= n < w,
        k != n,
    ensures
        (x + k) % w != (x + n) % w,
{
    if (x + k) % w == (x + n) % w {
        lemma_fundamental_div_mod(x + k, w);
        lemma_fundamental_div_mod(x + n, w);
        let q1 = (x + k) / w;
        let q2 = (x + n) / w;
        assert(n - k == w * (q2 - q1)) by (nonlinear_arith)
            requires
                x + k == w * q1 + ((x + k) % w),
                x + n == w * q2 + ((x + n) % w),
                (x + k) % w == (x + n) % w,
        ;
        assert(false) by (nonlinear_arith)
            requires
                n - k == w * (q2 - q1),
                0 <= k < w,
                0 <= n < w,
                k != n,
        ;
    }
}

/// Drawing the same sprite row twice at the same spot restores the buffer
/// exactly (XOR is an involution), and the second draw reports a collision
/// precisely where the first draw turned pixels on.
pub proof fn law_draw_sprite_self_inverse(
    g: Seq<Seq<bool>>,
    x: int,
    y: int,
    sprite: u8,
    w: int,
    h: int,
)
    requires
        8 <= w,
        1 <= h,
        g.len() == w,
        forall|c: int| 0 <= c < w ==> g[c].len() == h,
        0 <= x,
        0 <= y,
    ensures
        blit_row(blit_row(g, x, y, sprite, w, h), x, y, sprite, w, h) == g,
        row_collision(blit_row(g, x, y, sprite, w, h), x, y, sprite, w, h) <==> (exists|k: int|
            0 <= k < 8 && #[trigger] sprite_bit(sprite, k) && !g[(x + k) % w][y % h]),
{
    let g1 = blit_row(g, x, y, sprite, w, h);
    assert(blit_row(g1, x, y, sprite, w, h) =~~= g);
    assert forall|k: int| 0 <= k < 8 && #[trigger] sprite_bit(sprite, k) implies g1[(x + k)
        % w][y % h] == !g[(x + k) % w][y % h] by {
        assert(row_hits_col(x, (x + k) % w, w, sprite));
    }
}

/// Every pixel of the blank buffer is off.  `clear` leaves the buffer
/// equal to `blank_grid(width, height)` no matter what was drawn before,
/// and `new` allocates exactly that buffer, so clearing after any sequence
/// of draws restores the initial all-off state.
pub proof fn law_clear_restores_initial(w: int, h: int)
    requires
        0 <= w,
        0 <= h,
    ensures
        blank_grid(w, h).len() == w,
        forall|c: int| 0 <= c < w ==> blank_grid(w, h)[c].len() == h,
        forall|c: int, r: int| 0 <= c < w && 0 <= r < h ==> !blank_grid(w, h)[c][r],
{
}

} // verus!
