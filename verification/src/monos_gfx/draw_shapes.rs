use crate::monos_gfx::framebuffer::{
    clamp0, fill, lemma_apply_ext, lemma_apply_none, lemma_offset_bounds, lemma_paint_pixel,
    with_pixel, Framebuffer,
};
use crate::monos_gfx::framebuffer::FramebufferFormat;
use crate::monos_gfx::types::{fits_i64, Color, Position, Rect};
use vstd::prelude::*;

verus! {

/// The outline of `rect` on a `w` x `h` screen: its top and bottom rows for columns before
/// `xs`, and its left and right columns for rows before `ys`.
pub open spec fn box_pixels(rect: Rect, w: int, h: int, color: Color, xs: int, ys: int) -> spec_fn(
    int,
    int,
) -> Option<Color> {
    |x: int, y: int|
        if 0 <= x < w && 0 <= y < h && ((rect.min.x <= x < xs && (y == rect.min.y || y
            == rect.max.y - 1)) || (rect.min.y <= y < ys && (x == rect.min.x || x == rect.max.x
            - 1))) {
            Some(color)
        } else {
            None
        }
}

/// The alpha byte of the last pixel that starts in the buffer lies in the buffer.
pub open spec fn alpha_fits(len: int, bpp: int, a: int) -> bool {
    len == 0 || ((len - 1) / bpp) * bpp + a < len
}

#[verifier::spinoff_prover]
proof fn lemma_last_pixel(i: int, len: int, b: int)
    requires
        0 <= i < len,
        b > 0,
        i % b == 0,
    ensures
        i <= ((len - 1) / b) * b,
{
    let q = i / b;
    let m = (len - 1) / b;
    vstd::arithmetic::div_mod::lemma_fundamental_div_mod(i, b);
    vstd::arithmetic::div_mod::lemma_div_is_ordered(i, len - 1, b);
    vstd::arithmetic::mul::lemma_mul_inequality(q, m, b);
    vstd::arithmetic::mul::lemma_mul_is_commutative(b, q);
    assert(i == q * b);
    assert(q * b <= m * b);
}

impl Framebuffer {
    /// Paints the pixel at `(x, y)` over already painted pixels if it lies on the screen.
    fn paint_if_visible(
        &mut self,
        x: i64,
        y: i64,
        color: &Color,
        Ghost(base): Ghost<Seq<u8>>,
        Ghost(f): Ghost<spec_fn(int, int) -> Option<Color>>,
    )
        requires
            old(self).wf(),
            old(self).buffer@ == old(self).painted(base, f),
            base.len() == old(self).buffer@.len(),
        ensures
            final(self).wf(),
            final(self).dimensions == old(self).dimensions,
            final(self).format == old(self).format,
            final(self).buffer@ == old(self).painted(
                base,
                if 0 <= x < old(self).dimensions.width && 0 <= y < old(self).dimensions.height {
                    with_pixel(f, x as int, y as int, *color)
                } else {
                    f
                },
            ),
    {
        if x >= 0 && y >= 0 && x < self.dimensions.width as i64 && y < self.dimensions.height as i64 {
            self.paint_over(&Position { x, y }, color, Ghost(base), Ghost(f));
        }
    }

    /// Copies another framebuffer of the same size and layout.
    pub fn clear_with(&mut self, fb: &Framebuffer)
        requires
            old(self).buffer@.len() == fb.buffer@.len(),
            old(self).format == fb.format,
        ensures
            final(self).buffer@ == fb.buffer@,
            final(self).dimensions == old(self).dimensions,
            final(self).format == old(self).format,
    {
        let len = self.buffer.len();
        let mut i: usize = 0;
        while i < len
            invariant
                len == self.buffer@.len(),
                len == fb.buffer@.len(),
                self.dimensions == old(self).dimensions,
                self.format == old(self).format,
                i <= len,
                forall|j: int| 0 <= j < i ==> self.buffer@[j] == fb.buffer@[j],
            decreases len - i,
        {
            self.buffer.set(i, fb.buffer[i]);
            i = i + 1;
        }
        assert(self.buffer@ =~= fb.buffer@);
    }

    /// Sets the alpha byte of every pixel to 255, if the layout has one.
    pub fn clear_alpha(&mut self)
        requires
            old(self).wf(),
            old(self).format.a_position matches Some(a) ==> alpha_fits(
                old(self).buffer@.len() as int,
                old(self).format.bytes_per_pixel as int,
                a as int,
            ),
        ensures
            final(self).dimensions == old(self).dimensions,
            final(self).format == old(self).format,
            final(self).buffer@.len() == old(self).buffer@.len(),
            forall|j: int|
                0 <= j < old(self).buffer@.len() ==> #[trigger] final(self).buffer@[j] == match old(
                    self,
                ).format.a_position {
                    Some(a) => if j % (old(self).format.bytes_per_pixel as int) == a {
                        255u8
                    } else {
                        old(self).buffer@[j]
                    },
                    None => old(self).buffer@[j],
                },
    {
        if let Some(a_position) = self.format.a_position {
            let len = self.buffer.len();
            let bpp = self.format.bytes_per_pixel;
            let ghost b = bpp as int;
            let mut i: usize = 0;
            let mut done = false;
            while !done && i < len
                invariant
                    len == self.buffer@.len(),
                    len == old(self).buffer@.len(),
                    self.dimensions == old(self).dimensions,
                    self.format == old(self).format,
                    self.format.a_position == Some(a_position),
                    bpp == self.format.bytes_per_pixel,
                    b == bpp,
                    b > 0,
                    a_position < b,
                    alpha_fits(len as int, b, a_position as int),
                    (i as int) % b == 0,
                    forall|j: int|
                        0 <= j < len ==> #[trigger] self.buffer@[j] == if j % b == a_position && (
                        !done ==> j < i) {
                            255u8
                        } else {
                            old(self).buffer@[j]
                        },
                decreases len - i, if done {
                    0int
                } else {
                    1int
                },
            {
                proof {
                    lemma_last_pixel(i as int, len as int, b);
                }
                self.buffer.set(i + a_position, 255);
                proof {
                    vstd::arithmetic::div_mod::lemma_fundamental_div_mod(i as int, b);
                    assert forall|j: int| 0 <= j < len implies #[trigger] self.buffer@[j] == if j % b
                        == a_position && (j < i + b) {
                        255u8
                    } else {
                        old(self).buffer@[j]
                    } by {
                        vstd::arithmetic::div_mod::lemma_fundamental_div_mod(j, b);
                        assert(((i as int) / b) * b == b * ((i as int) / b)) by (nonlinear_arith);
                        if j == i + a_position {
                            vstd::arithmetic::div_mod::lemma_fundamental_div_mod_converse(
                                j,
                                b,
                                (i as int) / b,
                                a_position as int,
                            );
                        } else if j % b == a_position && i <= j < i + b {
                            vstd::arithmetic::div_mod::lemma_fundamental_div_mod_converse(
                                j,
                                b,
                                (i as int) / b,
                                j - i,
                            );
                        }
                    }
                }
                if (len - i) as u64 <= bpp {
                    done = true;
                } else {
                    let ghost i0 = i as int;
                    i = i + bpp as usize;
                    proof {
                        vstd::arithmetic::div_mod::lemma_fundamental_div_mod(i0, b);
                        assert(b * (i0 / b + 1) == b * (i0 / b) + b) by (nonlinear_arith);
                        vstd::arithmetic::div_mod::lemma_fundamental_div_mod_converse(
                            i as int,
                            b,
                            i0 / b + 1,
                            0,
                        );
                    }
                }
            }
        }
    }

    /// Draws a vertical line down from `start` (moved onto the screen, where a column at
    /// the screen's width counts as on it) for `len` pixels, stopping at the bottom.
    pub fn draw_vert_line(&mut self, start: Position, len: i64, color: &Color)
        requires
            old(self).wf(),
            clamp0(start.y as int, old(self).dimensions.height as int) + len <= i64::MAX,
            clamp0(start.y as int, old(self).dimensions.height as int) + len >= i64::MIN,
            clamp0(start.x as int, old(self).dimensions.width as int) < old(self).format.stride
                || clamp0(
                clamp0(start.y as int, old(self).dimensions.height as int) + len,
                old(self).dimensions.height as int,
            ) <= clamp0(start.y as int, old(self).dimensions.height as int),
        ensures
            final(self).dimensions == old(self).dimensions,
            final(self).format == old(self).format,
            ({
                let x = clamp0(start.x as int, old(self).dimensions.width as int);
                let y = clamp0(start.y as int, old(self).dimensions.height as int);
                let end_y = clamp0(y + len, old(self).dimensions.height as int);
                final(self).buffer@ == old(self).painted(
                    old(self).buffer@,
                    fill(x, y, x + 1, end_y, *color),
                )
            }),
    {
        let w = self.dimensions.width as i64;
        let h = self.dimensions.height as i64;
        let x = crate::monos_gfx::framebuffer::clamp_exec(start.x, w);
        let y0 = crate::monos_gfx::framebuffer::clamp_exec(start.y, h);
        let end_y = crate::monos_gfx::framebuffer::clamp_exec(y0 + len, h);
        let ghost base = self.buffer@;
        let ghost hh = self.dimensions.height as int;
        proof {
            lemma_apply_none(base, self.format, hh);
            lemma_apply_ext(base, self.format, hh, |px: int, py: int| None::<Color>, fill(x as int, y0 as int, x + 1, y0 as int, *color));
        }
        let mut y = y0;
        while y < end_y
            invariant
                self.wf(),
                self.dimensions == old(self).dimensions,
                self.format == old(self).format,
                base == old(self).buffer@,
                base.len() == self.buffer@.len(),
                hh == self.dimensions.height,
                h == self.dimensions.height,
                0 <= x < self.format.stride || end_y <= y0,
                0 <= y0 <= h,
                0 <= end_y <= h,
                y0 <= y,
                y <= end_y || end_y <= y0,
                end_y <= y0 ==> y == y0,
                self.buffer@ == self.painted(base, fill(x as int, y0 as int, x + 1, y as int, *color)),
            decreases end_y - y,
        {
            self.paint_over(&Position { x, y }, color, Ghost(base), Ghost(fill(x as int, y0 as int, x + 1, y as int, *color)));
            proof {
                lemma_apply_ext(
                    base,
                    self.format,
                    hh,
                    with_pixel(fill(x as int, y0 as int, x + 1, y as int, *color), x as int, y as int, *color),
                    fill(x as int, y0 as int, x + 1, y + 1, *color),
                );
            }
            y = y + 1;
        }
        proof {
            let f = fill(x as int, y0 as int, x + 1, y as int, *color);
            let g = fill(x as int, y0 as int, x + 1, end_y as int, *color);
            assert forall|px: int, py: int| 0 <= px < self.format.stride && 0 <= py < hh implies #[trigger] f(px, py) == g(px, py) by {}
            lemma_apply_ext(base, self.format, hh, f, g);
        }
    }

    /// Draws the outline of `rect`: its top and bottom rows, then its left and right
    /// columns, leaving out the pixels off the screen.
    pub fn draw_box(&mut self, rect: &Rect, color: &Color)
        requires
            old(self).wf(),
            rect.min.x < rect.max.x ==> rect.max.y > i64::MIN,
            rect.min.y < rect.max.y ==> rect.max.x > i64::MIN,
        ensures
            final(self).dimensions == old(self).dimensions,
            final(self).format == old(self).format,
            final(self).buffer@ == old(self).painted(
                old(self).buffer@,
                box_pixels(
                    *rect,
                    old(self).dimensions.width as int,
                    old(self).dimensions.height as int,
                    *color,
                    rect.max.x as int,
                    rect.max.y as int,
                ),
            ),
    {
        let ghost base = self.buffer@;
        let ghost hh = self.dimensions.height as int;
        let ghost w = self.dimensions.width as int;
        let ghost fmt = self.format;
        proof {
            lemma_apply_none(base, fmt, hh);
            lemma_apply_ext(base, fmt, hh, |px: int, py: int| None::<Color>, box_pixels(*rect, w, hh, *color, rect.min.x as int, rect.min.y as int));
        }
        let mut x = rect.min.x;
        while x < rect.max.x
            invariant
                self.wf(),
                self.dimensions == old(self).dimensions,
                self.format == old(self).format,
                fmt == self.format,
                base == old(self).buffer@,
                base.len() == self.buffer@.len(),
                hh == self.dimensions.height,
                w == self.dimensions.width,
                rect.min.x <= x,
                x <= rect.max.x || x == rect.min.x,
                rect.min.x < rect.max.x ==> rect.max.y > i64::MIN,
                self.buffer@ == self.painted(base, box_pixels(*rect, w, hh, *color, x as int, rect.min.y as int)),
            decreases rect.max.x - x,
        {
            let ghost f0 = box_pixels(*rect, w, hh, *color, x as int, rect.min.y as int);
            self.paint_if_visible(x, rect.min.y, color, Ghost(base), Ghost(f0));
            let ghost f1 = if 0 <= x < w && 0 <= rect.min.y < hh {
                with_pixel(f0, x as int, rect.min.y as int, *color)
            } else {
                f0
            };
            self.paint_if_visible(x, rect.max.y - 1, color, Ghost(base), Ghost(f1));
            proof {
                let f2 = if 0 <= x < w && 0 <= rect.max.y - 1 < hh {
                    with_pixel(f1, x as int, rect.max.y - 1, *color)
                } else {
                    f1
                };
                let g = box_pixels(*rect, w, hh, *color, x + 1, rect.min.y as int);
                assert forall|px: int, py: int| 0 <= px < fmt.stride && 0 <= py < hh implies #[trigger] f2(px, py) == g(px, py) by {}
                lemma_apply_ext(base, fmt, hh, f2, g);
            }
            x = x + 1;
        }
        proof {
            lemma_apply_ext(base, fmt, hh, box_pixels(*rect, w, hh, *color, x as int, rect.min.y as int), box_pixels(*rect, w, hh, *color, rect.max.x as int, rect.min.y as int));
        }
        let mut y = rect.min.y;
        while y < rect.max.y
            invariant
                self.wf(),
                self.dimensions == old(self).dimensions,
                self.format == old(self).format,
                fmt == self.format,
                base == old(self).buffer@,
                base.len() == self.buffer@.len(),
                hh == self.dimensions.height,
                w == self.dimensions.width,
                rect.min.y <= y,
                y <= rect.max.y || y == rect.min.y,
                rect.min.y < rect.max.y ==> rect.max.x > i64::MIN,
                self.buffer@ == self.painted(base, box_pixels(*rect, w, hh, *color, rect.max.x as int, y as int)),
            decreases rect.max.y - y,
        {
            let ghost f0 = box_pixels(*rect, w, hh, *color, rect.max.x as int, y as int);
            self.paint_if_visible(rect.min.x, y, color, Ghost(base), Ghost(f0));
            let ghost f1 = if 0 <= rect.min.x < w && 0 <= y < hh {
                with_pixel(f0, rect.min.x as int, y as int, *color)
            } else {
                f0
            };
            self.paint_if_visible(rect.max.x - 1, y, color, Ghost(base), Ghost(f1));
            proof {
                let f2 = if 0 <= rect.max.x - 1 < w && 0 <= y < hh {
                    with_pixel(f1, rect.max.x - 1, y as int, *color)
                } else {
                    f1
                };
                let g = box_pixels(*rect, w, hh, *color, rect.max.x as int, y + 1);
                assert forall|px: int, py: int| 0 <= px < fmt.stride && 0 <= py < hh implies #[trigger] f2(px, py) == g(px, py) by {}
                lemma_apply_ext(base, fmt, hh, f2, g);
            }
            y = y + 1;
        }
        proof {
            lemma_apply_ext(base, fmt, hh, box_pixels(*rect, w, hh, *color, rect.max.x as int, y as int), box_pixels(*rect, w, hh, *color, rect.max.x as int, rect.max.y as int));
        }
    }
}


/// The error term of Bresenham's walk for a line `dx` wide and `dy` high (both counted as
/// distances), after `nx` steps along x and `ny` along y.
pub open spec fn line_err(dx: int, dy: int, nx: int, ny: int) -> int {
    dx + dx * ny - dy - dy * nx
}

/// The steps taken along x and along y after `k` rounds of Bresenham's walk: a round
/// steps along x when twice the error is above `-dy`, and along y when it is below `dx`.
pub open spec fn line_steps(dx: int, dy: int, k: nat) -> (int, int)
    decreases k,
{
    if k == 0 {
        (0, 0)
    } else {
        let (nx, ny) = line_steps(dx, dy, (k - 1) as nat);
        let e2 = 2 * line_err(dx, dy, nx, ny);
        (
            if e2 > -dy {
                nx + 1
            } else {
                nx
            },
            if e2 < dx {
                ny + 1
            } else {
                ny
            },
        )
    }
}

/// The distance between two coordinates.
pub open spec fn line_len(from: i64, to: i64) -> int {
    if from < to {
        to - from
    } else {
        from - to
    }
}

/// The coordinate `n` steps from `from` towards `to`.
pub open spec fn line_coord(from: i64, to: i64, n: int) -> int {
    if from < to {
        from + n
    } else {
        from - n
    }
}

/// Round `k` of the walk from `start` to `end` stands at `(x, y)`, before the walk has
/// reached `end`.
pub open spec fn line_visits(start: Position, end: Position, k: nat, x: int, y: int) -> bool {
    let dx = line_len(start.x, end.x);
    let dy = line_len(start.y, end.y);
    let (nx, ny) = line_steps(dx, dy, k);
    &&& nx + ny < dx + dy
    &&& x == line_coord(start.x, end.x, nx)
    &&& y == line_coord(start.y, end.y, ny)
}

/// The points of the first `n` rounds of the walk that lie on a `w` x `h` screen.
pub open spec fn line_prefix(start: Position, end: Position, w: int, h: int, color: Color, n: int) -> spec_fn(
    int,
    int,
) -> Option<Color> {
    |x: int, y: int|
        if 0 <= x < w && 0 <= y < h && exists|j: nat| j < n && #[trigger] line_visits(start, end, j, x, y) {
            Some(color)
        } else {
            None
        }
}

/// The pixels of a line from `start` to `end` on a `w` x `h` screen: every point of the
/// walk but `end` itself, where it lies on the screen.
pub open spec fn line_pixels(start: Position, end: Position, w: int, h: int, color: Color) -> spec_fn(
    int,
    int,
) -> Option<Color> {
    |x: int, y: int|
        if 0 <= x < w && 0 <= y < h && exists|j: nat| #[trigger] line_visits(start, end, j, x, y) {
            Some(color)
        } else {
            None
        }
}

/// A line starts at its start point, unless it ends there too.
pub proof fn lemma_line_starts_at_start(start: Position, end: Position)
    requires
        start.x != end.x || start.y != end.y,
    ensures
        line_visits(start, end, 0, start.x as int, start.y as int),
{
}

/// A line never reaches its end point.
pub proof fn lemma_line_leaves_out_end(start: Position, end: Position, k: nat)
    ensures
        !line_visits(start, end, k, end.x as int, end.y as int),
{
    let dx = line_len(start.x, end.x);
    let dy = line_len(start.y, end.y);
    let (nx, ny) = line_steps(dx, dy, k);
    if line_visits(start, end, k, end.x as int, end.y as int) {
        assert(nx == dx);
        assert(ny == dy);
    }
}

/// The walk never takes a step back: the steps taken only grow.
proof fn lemma_line_steps_grow(dx: int, dy: int, k: nat, j: nat)
    requires
        k <= j,
    ensures
        line_steps(dx, dy, k).0 <= line_steps(dx, dy, j).0,
        line_steps(dx, dy, k).1 <= line_steps(dx, dy, j).1,
    decreases j - k,
{
    if k < j {
        lemma_line_steps_grow(dx, dy, k, (j - 1) as nat);
    }
}

/// Painting round `k`'s point over the first `k` rounds gives the first `k + 1` rounds.
proof fn lemma_line_prefix_step(
    start: Position,
    end: Position,
    w: int,
    h: int,
    color: Color,
    k: nat,
    x: int,
    y: int,
)
    requires
        line_visits(start, end, k, x, y),
    ensures
        forall|px: int, py: int|
            #[trigger] line_prefix(start, end, w, h, color, (k + 1) as int)(px, py) == (if 0 <= x < w && 0
                <= y < h {
                with_pixel(line_prefix(start, end, w, h, color, k as int), x, y, color)
            } else {
                line_prefix(start, end, w, h, color, k as int)
            })(px, py),
{
    assert forall|px: int, py: int|
        #[trigger] line_prefix(start, end, w, h, color, (k + 1) as int)(px, py) == (if 0 <= x < w && 0 <= y
            < h {
            with_pixel(line_prefix(start, end, w, h, color, k as int), x, y, color)
        } else {
            line_prefix(start, end, w, h, color, k as int)
        })(px, py) by {
        let before = exists|j: nat| j < k && #[trigger] line_visits(start, end, j, px, py);
        let after = exists|j: nat| j < k + 1 && #[trigger] line_visits(start, end, j, px, py);
        if px == x && py == y {
            assert(line_visits(start, end, k, px, py));
        } else {
            if after {
                let j = choose|j: nat| j < k + 1 && #[trigger] line_visits(start, end, j, px, py);
                if j == k {
                    assert(false);
                }
                assert(before);
            }
            if before {
                let j = choose|j: nat| j < k && #[trigger] line_visits(start, end, j, px, py);
                assert(j < k + 1);
            }
        }
    }
}

impl Framebuffer {
    /// Draws a line from `start` up to `end` (which is left out) with Bresenham's walk,
    /// leaving out the points off the screen.
    pub fn draw_line(&mut self, start: &Position, end: &Position, color: &Color)
        requires
            old(self).wf(),
            3 * line_len(start.x, end.x) <= i64::MAX,
            3 * line_len(start.y, end.y) <= i64::MAX,
        ensures
            final(self).dimensions == old(self).dimensions,
            final(self).format == old(self).format,
            final(self).buffer@ == old(self).painted(
                old(self).buffer@,
                line_pixels(
                    *start,
                    *end,
                    old(self).dimensions.width as int,
                    old(self).dimensions.height as int,
                    *color,
                ),
            ),
    {
        let ghost base = self.buffer@;
        let ghost w = self.dimensions.width as int;
        let ghost h = self.dimensions.height as int;
        let dx: i64 = if start.x < end.x {
            end.x - start.x
        } else {
            start.x - end.x
        };
        let dy: i64 = if start.y < end.y {
            end.y - start.y
        } else {
            start.y - end.y
        };
        let sx: i64 = if start.x < end.x {
            1
        } else {
            -1
        };
        let sy: i64 = if start.y < end.y {
            1
        } else {
            -1
        };
        let mut err: i64 = dx - dy;
        let mut x: i64 = start.x;
        let mut y: i64 = start.y;
        let ghost mut nx: int = 0;
        let ghost mut ny: int = 0;
        let ghost mut k: nat = 0;
        proof {
            lemma_apply_none(base, self.format, h);
            lemma_apply_ext(
                base,
                self.format,
                h,
                |px: int, py: int| None::<Color>,
                line_prefix(*start, *end, w, h, *color, 0),
            );
            assert(line_err(dx as int, dy as int, 0, 0) == dx - dy);
        }
        while x != end.x || y != end.y
            invariant
                self.wf(),
                self.dimensions == old(self).dimensions,
                self.format == old(self).format,
                base == old(self).buffer@,
                base.len() == self.buffer@.len(),
                w == self.dimensions.width,
                h == self.dimensions.height,
                dx == line_len(start.x, end.x),
                dy == line_len(start.y, end.y),
                sx == (if start.x < end.x { 1int } else { -1int }),
                sy == (if start.y < end.y { 1int } else { -1int }),
                3 * dx <= i64::MAX,
                3 * dy <= i64::MAX,
                line_steps(dx as int, dy as int, k) == (nx, ny),
                0 <= nx <= dx,
                0 <= ny <= dy,
                err == line_err(dx as int, dy as int, nx, ny),
                -3 * dy <= 2 * err <= 3 * dx,
                x == line_coord(start.x, end.x, nx),
                y == line_coord(start.y, end.y, ny),
                forall|j: nat|
                    j < k ==> (#[trigger] line_steps(dx as int, dy as int, j)).0 + line_steps(
                        dx as int,
                        dy as int,
                        j,
                    ).1 < dx + dy,
                self.buffer@ == self.painted(base, line_prefix(*start, *end, w, h, *color, k as int)),
            decreases (dx - nx) + (dy - ny),
        {
            proof {
                assert(line_visits(*start, *end, k, x as int, y as int));
                lemma_line_prefix_step(*start, *end, w, h, *color, k, x as int, y as int);
            }
            let ghost f = line_prefix(*start, *end, w, h, *color, k as int);
            self.paint_if_visible(x, y, color, Ghost(base), Ghost(f));
            proof {
                let g = if 0 <= x < w && 0 <= y < h {
                    with_pixel(f, x as int, y as int, *color)
                } else {
                    f
                };
                lemma_apply_ext(base, self.format, h, g, line_prefix(*start, *end, w, h, *color, (k + 1) as int));
            }
            let e2 = 2 * err;
            let ghost e = err as int;
            proof {
                if e2 > -dy && nx == dx {
                    assert(dx * (ny + 1) <= dx * dy) by (nonlinear_arith)
                        requires
                            0 <= dx,
                            ny + 1 <= dy,
                    ;
                    assert(dx + dx * ny == dx * (ny + 1)) by (nonlinear_arith);
                    assert(dy + dy * nx == dy * (nx + 1)) by (nonlinear_arith);
                }
                if e2 < dx && ny == dy {
                    assert(dy * (nx + 1) <= dy * dx) by (nonlinear_arith)
                        requires
                            0 <= dy,
                            nx + 1 <= dx,
                    ;
                    assert(dx + dx * ny == dx * (ny + 1)) by (nonlinear_arith);
                    assert(dy + dy * nx == dy * (nx + 1)) by (nonlinear_arith);
                }
                assert(dy * (nx + 1) == dy * nx + dy) by (nonlinear_arith);
                assert(dx * (ny + 1) == dx * ny + dx) by (nonlinear_arith);
            }
            if e2 > -dy {
                err = err - dy;
                x = x + sx;
                proof {
                    nx = nx + 1;
                }
            }
            if e2 < dx {
                err = err + dx;
                y = y + sy;
                proof {
                    ny = ny + 1;
                }
            }
            proof {
                assert(line_steps(dx as int, dy as int, k + 1) == (nx, ny));
                k = k + 1;
            }
        }
        proof {
            assert(nx == dx && ny == dy);
            let f = line_prefix(*start, *end, w, h, *color, k as int);
            let g = line_pixels(*start, *end, w, h, *color);
            assert forall|px: int, py: int|
                0 <= px < self.format.stride && 0 <= py < h implies #[trigger] f(px, py) == g(px, py) by {
                if exists|j: nat| #[trigger] line_visits(*start, *end, j, px, py) {
                    let j = choose|j: nat| #[trigger] line_visits(*start, *end, j, px, py);
                    if j >= k {
                        lemma_line_steps_grow(dx as int, dy as int, k, j);
                    }
                    assert(j < k);
                }
            }
            lemma_apply_ext(base, self.format, h, f, g);
        }
    }
}


/// The first byte of row `r` of a region whose first row starts at byte `l0`, rows being
/// `s` bytes apart.
pub open spec fn row_start(l0: int, s: int, r: int) -> int {
    l0 + r * s
}

/// Row `r` of the `rows` rows of a region is copied: the first always, a later one while
/// it starts inside the `n` bytes of the buffer.
pub open spec fn row_copied(l0: int, s: int, n: int, rows: int, r: int) -> bool {
    0 <= r < rows && (r == 0 || row_start(l0, s, r) < n)
}

/// Byte `i` lies in the first `len` bytes of a copied row.
pub open spec fn in_copied_row(l0: int, s: int, len: int, n: int, rows: int, i: int) -> bool {
    exists|r: int| #[trigger] row_copied(l0, s, n, rows, r) && row_start(l0, s, r) <= i < row_start(l0, s, r) + len
}

/// The bytes after copying the copied rows of a region from `src` over `old`.
pub open spec fn copy_rows(old: Seq<u8>, src: Seq<u8>, l0: int, s: int, len: int, rows: int) -> Seq<u8> {
    Seq::new(
        old.len(),
        |i: int|
            if in_copied_row(l0, s, len, old.len() as int, rows, i) {
                src[i]
            } else {
                old[i]
            },
    )
}

/// Where the region of `rect` starts in the buffer, how many bytes each of its rows has,
/// how far apart rows are and how many there are.
pub open spec fn region_start(fmt: FramebufferFormat, rect: Rect) -> int {
    (rect.min.y * fmt.stride + rect.min.x) * fmt.bytes_per_pixel
}

pub open spec fn region_row_len(fmt: FramebufferFormat, rect: Rect) -> int {
    rect.spec_width() * fmt.bytes_per_pixel
}

pub open spec fn region_step(fmt: FramebufferFormat) -> int {
    fmt.stride * fmt.bytes_per_pixel
}

pub open spec fn region_rows(rect: Rect) -> int {
    rect.max.y - rect.min.y
}

/// A region can be copied: both buffers have the same size and layout, the offsets fit
/// the machine's integers, and every row that is copied lies inside the buffer.
pub open spec fn clear_region_ok(fb: &Framebuffer, rect: Rect, src: &Framebuffer) -> bool {
    let fmt = fb.format;
    let n = fb.buffer@.len() as int;
    let l0 = region_start(fmt, rect);
    let s = region_step(fmt);
    let len = region_row_len(fmt, rect);
    &&& n == src.buffer@.len()
    &&& fmt == src.format
    &&& rect.sides_fit()
    &&& fmt.stride <= i64::MAX
    &&& fmt.bytes_per_pixel <= i64::MAX
    &&& fits_i64(rect.min.y * fmt.stride)
    &&& fits_i64(rect.min.y * fmt.stride + rect.min.x)
    &&& 0 <= l0 <= i64::MAX
    &&& l0 <= usize::MAX
    &&& fmt.bytes_per_pixel <= usize::MAX
    &&& len <= usize::MAX
    &&& n + s <= usize::MAX
    &&& forall|r: int| #[trigger] row_copied(l0, s, n, region_rows(rect), r) ==> row_start(l0, s, r) + len <= n
}

/// Copies `len` bytes of `src` at `start` over the same bytes of `dst`.
fn copy_range(dst: &mut Vec<u8>, src: &[u8], start: usize, len: usize)
    requires
        old(dst)@.len() == src@.len(),
        start + len <= src@.len(),
        start + len <= usize::MAX,
    ensures
        final(dst)@ == Seq::new(
            old(dst)@.len(),
            |i: int|
                if start <= i < start + len {
                    src@[i]
                } else {
                    old(dst)@[i]
                },
        ),
{
    let mut i: usize = 0;
    while i < len
        invariant
            dst@.len() == old(dst)@.len(),
            old(dst)@.len() == src@.len(),
            start + len <= src@.len(),
            start + len <= usize::MAX,
            i <= len,
            forall|j: int|
                0 <= j < dst@.len() ==> #[trigger] dst@[j] == if start <= j < start + i {
                    src@[j]
                } else {
                    old(dst)@[j]
                },
        decreases len - i,
    {
        dst.set(start + i, src[start + i]);
        i = i + 1;
    }
    assert(dst@ =~= Seq::new(
        old(dst)@.len(),
        |j: int|
            if start <= j < start + len {
                src@[j]
            } else {
                old(dst)@[j]
            },
    ));
}

/// Copying one more row: the bytes of row `r` come from `src`.
proof fn lemma_copy_next_row(old: Seq<u8>, src: Seq<u8>, l0: int, s: int, len: int, r: int)
    requires
        old.len() == src.len(),
        row_copied(l0, s, old.len() as int, r + 1, r),
    ensures
        Seq::new(
            old.len(),
            |i: int|
                if row_start(l0, s, r) <= i < row_start(l0, s, r) + len {
                    src[i]
                } else {
                    copy_rows(old, src, l0, s, len, r)[i]
                },
        ) == copy_rows(old, src, l0, s, len, r + 1),
{
    let n = old.len() as int;
    let lhs = Seq::new(
        old.len(),
        |i: int|
            if row_start(l0, s, r) <= i < row_start(l0, s, r) + len {
                src[i]
            } else {
                copy_rows(old, src, l0, s, len, r)[i]
            },
    );
    let rhs = copy_rows(old, src, l0, s, len, r + 1);
    assert forall|i: int| 0 <= i < n implies lhs[i] == rhs[i] by {
        if row_start(l0, s, r) <= i < row_start(l0, s, r) + len {
            assert(row_copied(l0, s, n, r + 1, r));
        } else {
            if in_copied_row(l0, s, len, n, r + 1, i) {
                let q = choose|q: int| #[trigger] row_copied(l0, s, n, r + 1, q) && row_start(l0, s, q) <= i < row_start(l0, s, q) + len;
                assert(q != r);
                assert(row_copied(l0, s, n, r, q));
            }
            if in_copied_row(l0, s, len, n, r, i) {
                let q = choose|q: int| #[trigger] row_copied(l0, s, n, r, q) && row_start(l0, s, q) <= i < row_start(l0, s, q) + len;
                assert(row_copied(l0, s, n, r + 1, q));
            }
        }
    }
    assert(lhs =~= rhs);
}

/// Once a row starts past the buffer, no later row is copied.
proof fn lemma_rows_past_end(l0: int, s: int, n: int, r: int, rows: int)
    requires
        s >= 0,
        r >= 1,
        row_start(l0, s, r) >= n,
    ensures
        forall|q: int| r <= q ==> !#[trigger] row_copied(l0, s, n, rows, q),
{
    assert forall|q: int| r <= q implies !#[trigger] row_copied(l0, s, n, rows, q) by {
        assert((q - r) * s >= 0) by (nonlinear_arith)
            requires
                q - r >= 0,
                s >= 0,
        ;
        assert(row_start(l0, s, q) == row_start(l0, s, r) + (q - r) * s) by (nonlinear_arith);
    }
}

impl Framebuffer {
    /// Copies the pixels of `rect` from another framebuffer of the same size and layout,
    /// row by row, stopping once a row would start past the buffer.
    pub fn clear_region(&mut self, rect: &Rect, fb: &Framebuffer)
        requires
            clear_region_ok(old(self), *rect, fb),
        ensures
            final(self).dimensions == old(self).dimensions,
            final(self).format == old(self).format,
            final(self).buffer@ == copy_rows(
                old(self).buffer@,
                fb.buffer@,
                region_start(old(self).format, *rect),
                region_step(old(self).format),
                region_row_len(old(self).format, *rect),
                region_rows(*rect),
            ),
    {
        let ghost base = self.buffer@;
        let buffer_len = self.buffer.len();
        let ghost n = self.buffer@.len() as int;
        let ghost l0 = region_start(self.format, *rect);
        let ghost s = region_step(self.format);
        let ghost len0 = region_row_len(self.format, *rect);
        let ghost rows = region_rows(*rect);
        let stride = self.format.stride as i64;
        let bpp = self.format.bytes_per_pixel as i64;
        let first = (rect.min.y * stride + rect.min.x) * bpp;
        let mut line_start: usize = first as usize;
        let mut line_pos: usize = line_start;
        let len: usize = rect.dimensions().width as usize * self.format.bytes_per_pixel as usize;
        let step: usize = (self.format.stride * self.format.bytes_per_pixel) as usize;
        let mut y: i64 = rect.min.y;
        proof {
            assert(copy_rows(base, fb.buffer@, l0, s, len0, 0) =~= base);
        }
        while y < rect.max.y
            invariant
                self.dimensions == old(self).dimensions,
                self.format == old(self).format,
                base == old(self).buffer@,
                n == self.buffer@.len(),
                n == fb.buffer@.len(),
                clear_region_ok(old(self), *rect, fb),
                l0 == region_start(self.format, *rect),
                s == region_step(self.format),
                s == step,
                len0 == region_row_len(self.format, *rect),
                len0 == len,
                rows == region_rows(*rect),
                rect.min.y <= y,
                y <= rect.max.y || y == rect.min.y,
                line_start == line_pos,
                line_pos == row_start(l0, s, y - rect.min.y),
                y - rect.min.y == 0 || row_start(l0, s, y - rect.min.y) < n,
                self.buffer@ == copy_rows(base, fb.buffer@, l0, s, len0, y - rect.min.y),
            decreases rect.max.y - y,
        {
            let ghost r = y - rect.min.y;
            proof {
                assert(row_copied(l0, s, n, rows, r));
                assert(row_copied(l0, s, n, r + 1, r));
            }
            copy_range(&mut self.buffer, fb.buffer.as_slice(), line_pos, len);
            proof {
                lemma_copy_next_row(base, fb.buffer@, l0, s, len0, r);
                assert(row_start(l0, s, r + 1) == row_start(l0, s, r) + s) by (nonlinear_arith);
            }
            line_start = line_start + step;
            if line_start >= self.buffer.len() {
                proof {
                    lemma_rows_past_end(l0, s, n, r + 1, rows);
                    let a = copy_rows(base, fb.buffer@, l0, s, len0, r + 1);
                    let b = copy_rows(base, fb.buffer@, l0, s, len0, rows);
                    assert forall|i: int| 0 <= i < n implies a[i] == b[i] by {
                        if in_copied_row(l0, s, len0, n, rows, i) {
                            let q = choose|q: int| #[trigger] row_copied(l0, s, n, rows, q) && row_start(l0, s, q) <= i < row_start(l0, s, q) + len0;
                            assert(row_copied(l0, s, n, r + 1, q));
                        }
                        if in_copied_row(l0, s, len0, n, r + 1, i) {
                            let q = choose|q: int| #[trigger] row_copied(l0, s, n, r + 1, q) && row_start(l0, s, q) <= i < row_start(l0, s, q) + len0;
                            assert(row_copied(l0, s, n, rows, q));
                        }
                    }
                    assert(a =~= b);
                }
                return;
            }
            line_pos = line_start;
            y = y + 1;
        }
        proof {
            if rows <= 0 {
                let a = copy_rows(base, fb.buffer@, l0, s, len0, 0);
                let b = copy_rows(base, fb.buffer@, l0, s, len0, rows);
                assert forall|i: int| 0 <= i < n implies a[i] == b[i] by {
                    if in_copied_row(l0, s, len0, n, rows, i) {
                        let q = choose|q: int| #[trigger] row_copied(l0, s, n, rows, q) && row_start(l0, s, q) <= i < row_start(l0, s, q) + len0;
                    }
                }
                assert(a =~= b);
            }
        }
    }
}

} // verus!
