use super::font::Font;
use super::lines::{ColorMode, Line, Lines, Origin};
use crate::monos_gfx::blit::{blit_all, clip_bounds};
use crate::monos_gfx::draw_text::{glyph_source, glyphs_of, str_bounds, str_source, widths};
use crate::monos_gfx::framebuffer::{apply_pixels, lemma_apply_none, Framebuffer, FramebufferFormat};
use crate::monos_gfx::types::{fits_i64, Color, Position, Rect};
use vstd::prelude::*;

verus! {

/// The bytes after painting each pixel map in turn.
pub open spec fn paint_seq(
    buf: Seq<u8>,
    fmt: FramebufferFormat,
    height: int,
    maps: Seq<spec_fn(int, int) -> Option<Color>>,
) -> Seq<u8>
    decreases maps.len(),
{
    if maps.len() == 0 {
        buf
    } else {
        apply_pixels(paint_seq(buf, fmt, height, maps.drop_last()), fmt, height, maps.last())
    }
}

/// Painting keeps the number of bytes.
pub proof fn lemma_paint_seq_len(
    buf: Seq<u8>,
    fmt: FramebufferFormat,
    height: int,
    maps: Seq<spec_fn(int, int) -> Option<Color>>,
)
    ensures
        paint_seq(buf, fmt, height, maps).len() == buf.len(),
    decreases maps.len(),
{
    if maps.len() > 0 {
        lemma_paint_seq_len(buf, fmt, height, maps.drop_last());
    }
}

proof fn lemma_paint_seq_step(
    buf: Seq<u8>,
    fmt: FramebufferFormat,
    height: int,
    maps: Seq<spec_fn(int, int) -> Option<Color>>,
    k: int,
)
    requires
        0 <= k < maps.len(),
    ensures
        paint_seq(buf, fmt, height, maps.take(k + 1)) == apply_pixels(
            paint_seq(buf, fmt, height, maps.take(k)),
            fmt,
            height,
            maps[k],
        ),
{
    assert(maps.take(k + 1).drop_last() =~= maps.take(k));
}

/// A map that paints nothing.
pub open spec fn no_pixels() -> spec_fn(int, int) -> Option<Color> {
    |x: int, y: int| None::<Color>
}

/// The color of line `i`: the single color, or the line's own (white past the list).
pub open spec fn line_color(color: ColorMode, i: int) -> Color {
    match color {
        ColorMode::Single(c) => c,
        ColorMode::PerLine(colors) => if 0 <= i < colors@.len() {
            colors@[i]
        } else {
            Color { r: 255, g: 255, b: 255 }
        },
    }
}

/// The pixels of a text drawn by `draw_str_clipped` at `(x, y)` inside `bounds`.
pub open spec fn text_pixels<F: Font>(
    text: Seq<char>,
    x: int,
    y: int,
    bounds: (int, int, int, int),
    color: Color,
) -> spec_fn(int, int) -> Option<Color> {
    blit_all(
        x,
        y,
        widths(glyphs_of::<F>(text), glyphs_of::<F>(text).len() as int),
        F::CHAR_HEIGHT as int,
        bounds,
        str_source(glyphs_of::<F>(text), color),
    )
}

/// The pixels of the hyphen drawn after a hyphenated line, if the font has one.
pub open spec fn hyphen_pixels<F: Font>(
    hyphenated: bool,
    x: int,
    y: int,
    width: int,
    height: int,
    color: Color,
) -> spec_fn(int, int) -> Option<Color> {
    if hyphenated {
        match F::glyph('-') {
            Some(g) => blit_all(x, y, g[0] as int, g[1] as int, (0, 0, width, height), glyph_source(g, color)),
            None => no_pixels(),
        }
    } else {
        no_pixels()
    }
}

/// What `draw` paints: each line's text, then its hyphen, one line below the other.
pub open spec fn draw_maps<'a, F: Font>(
    lines: Seq<Line<'a>>,
    position: Position,
    color: ColorMode<'a>,
    width: int,
    height: int,
) -> Seq<spec_fn(int, int) -> Option<Color>> {
    Seq::new(
        2 * lines.len(),
        |k: int|
            {
                let i = k / 2;
                let y = position.y + i * F::CHAR_HEIGHT;
                if k % 2 == 0 {
                    text_pixels::<F>(lines[i].text@, position.x as int, y, (1, 1, width, height), line_color(color, i))
                } else {
                    hyphen_pixels::<F>(
                        lines[i].hyphenated,
                        position.x + F::CHAR_WIDTH * lines[i].text@.len(),
                        y,
                        width,
                        height,
                        line_color(color, i),
                    )
                }
            },
    )
}

/// The positions `draw` computes fit in an `i64`.
pub open spec fn draw_fits<'a, F: Font>(lines: Seq<Line<'a>>, position: Position) -> bool {
    &&& position.y + lines.len() * F::CHAR_HEIGHT + 256 <= i64::MAX
    &&& forall|i: int|
        0 <= i < lines.len() ==> position.x + F::CHAR_WIDTH * (#[trigger] lines[i]).text@.len()
            + 256 <= i64::MAX && F::CHAR_WIDTH * lines[i].text@.len() <= i64::MAX
            && lines[i].text@.len() <= i64::MAX
}

/// The lines to draw into a rectangle scrolled by `offset`, and where the first goes: for
/// text anchored at the top, from the line at the offset on, as many as fit and two more;
/// at the bottom, up to the line the offset counts back to, as many as fit and one more.
pub struct PreparedDraw {
    pub start_line: usize,
    pub end_line: usize,
    pub curr_position: Position,
}

/// The range of lines and the first position `prepare_draw` gives, as
/// `(start, end, x, y)`.
pub open spec fn spec_prepare<F: Font>(n: int, rect: Rect, offset: Position, origin: Origin) -> (
    int,
    int,
    int,
    int,
) {
    let ch = F::CHAR_HEIGHT as int;
    let visible = rect.spec_height() as int / ch;
    let x = rect.min.x + offset.x;
    match origin {
        Origin::Top => {
            let start = (offset.y as int) / ch;
            let end = if start + visible + 2 < n {
                start + visible + 2
            } else {
                n
            };
            (start, end, x, rect.min.y - (offset.y as int) % ch)
        },
        Origin::Bottom => {
            let end = n - (offset.y as int) / ch;
            let start = if end - visible - 1 > 0 {
                end - visible - 1
            } else {
                0
            };
            (start, end, x, rect.max.y - (end - start) * ch + (offset.y as int) % ch)
        },
    }
}

/// The inputs `prepare_draw` takes without panicking: a positive line height, a
/// non-negative offset that does not pass the lines, and positions that fit in an `i64`.
pub open spec fn prepare_ok<F: Font>(n: int, rect: Rect, offset: Position, origin: Origin) -> bool {
    let ch = F::CHAR_HEIGHT as int;
    let p = spec_prepare::<F>(n, rect, offset, origin);
    &&& ch > 0
    &&& n <= i64::MAX
    &&& offset.y >= 0
    &&& (offset.y as int) / ch <= n
    &&& fits_i64(rect.max.y - rect.min.y)
    &&& fits_i64(p.2)
    &&& fits_i64(p.3)
    &&& fits_i64(rect.min.y - ch)
    &&& fits_i64((p.1 - p.0) * ch)
    &&& fits_i64(rect.max.y - (p.1 - p.0) * ch)
}

/// What `draw_clipped` paints: `count` lines from line `p.0`, one below the other from
/// `(p.2, p.3)`, each inside `rect` in the color `color_of` gives for its place.
pub open spec fn clipped_maps<'a, F: Font>(
    lines: Seq<Line<'a>>,
    p: (int, int, int, int),
    count: int,
    rect: Rect,
    color_of: spec_fn(int) -> Color,
    width: int,
    height: int,
) -> Seq<spec_fn(int, int) -> Option<Color>> {
    Seq::new(
        count as nat,
        |k: int|
            text_pixels::<F>(
                lines[p.0 + k].text@,
                p.2,
                p.3 + k * F::CHAR_HEIGHT,
                str_bounds(rect, width, height),
                color_of(k),
            ),
    )
}

/// A clipped draw stays within `i64` positions below the first line.
pub open spec fn clipped_ok<F: Font>(n: int, rect: Rect, offset: Position, origin: Origin) -> bool {
    let p = spec_prepare::<F>(n, rect, offset, origin);
    &&& prepare_ok::<F>(n, rect, offset, origin)
    &&& p.3 + (p.1 - p.0 + 1) * F::CHAR_HEIGHT <= i64::MAX
    &&& F::CHAR_HEIGHT * 256 <= usize::MAX
}

impl<'a, F: Font> Lines<'a, F> {
    /// Draws the lines one below the other from `position`, each followed by a hyphen if
    /// it is hyphenated.
    pub fn draw(&self, fb: &mut Framebuffer, position: Position, color: ColorMode<'a>)
        requires
            old(fb).wf(),
            F::CHAR_HEIGHT * 256 <= usize::MAX,
            self.wf(),
            draw_fits::<F>(self.lines@, position),
            F::glyph('-') matches Some(g) ==> g[0] <= 255 && g[1] <= 255,
        ensures
            final(fb).dimensions == old(fb).dimensions,
            final(fb).format == old(fb).format,
            final(fb).buffer@ == paint_seq(
                old(fb).buffer@,
                old(fb).format,
                old(fb).dimensions.height as int,
                draw_maps::<F>(
                    self.lines@,
                    position,
                    color,
                    old(fb).dimensions.width as int,
                    old(fb).dimensions.height as int,
                ),
            ),
    {
        let ghost maps = draw_maps::<F>(
            self.lines@,
            position,
            color,
            fb.dimensions.width as int,
            fb.dimensions.height as int,
        );
        let ghost base = fb.buffer@;
        let ghost fmt = fb.format;
        let ghost hh = fb.dimensions.height as int;
        let n = self.lines.len();
        let mut curr_position = position;
        let mut i: usize = 0;
        proof {
            assert(maps.take(0) =~= Seq::<spec_fn(int, int) -> Option<Color>>::empty());
        }
        while i < n
            invariant
                fb.wf(),
                fb.dimensions == old(fb).dimensions,
                fb.format == old(fb).format,
                fmt == fb.format,
                hh == fb.dimensions.height,
                base == old(fb).buffer@,
                n == self.lines@.len(),
                i <= n,
                self.wf(),
                F::CHAR_HEIGHT * 256 <= usize::MAX,
                draw_fits::<F>(self.lines@, position),
                F::glyph('-') matches Some(g) ==> g[0] <= 255 && g[1] <= 255,
                maps == draw_maps::<F>(
                    self.lines@,
                    position,
                    color,
                    fb.dimensions.width as int,
                    fb.dimensions.height as int,
                ),
                curr_position.x == position.x,
                curr_position.y == position.y + i * F::CHAR_HEIGHT,
                fb.buffer@ == paint_seq(base, fmt, hh, maps.take(2 * i)),
            decreases n - i,
        {
            let line = &self.lines[i];
            let c = match color {
                ColorMode::Single(c) => c,
                ColorMode::PerLine(colors) => if i < colors.len() {
                    colors[i]
                } else {
                    Color::new(255, 255, 255)
                },
            };
            proof {
                assert(self.lines@[i as int].text.is_ascii());
                assert(curr_position.y + F::CHAR_HEIGHT <= position.y + n * F::CHAR_HEIGHT) by (nonlinear_arith)
                    requires
                        curr_position.y == position.y + i * F::CHAR_HEIGHT,
                        i < n,
                        F::CHAR_HEIGHT >= 0,
                ;
                lemma_paint_seq_step(base, fmt, hh, maps, 2 * i);
                assert((2 * i) / 2 == i && (2 * i) % 2 == 0);
                assert(c == line_color(color, i as int));
            }
            fb.draw_str::<F>(&c, line.text, &curr_position);
            let len = line.text.unicode_len();
            proof {
                let t = self.lines@[i as int];
                assert(position.x + F::CHAR_WIDTH * t.text@.len() + 256 <= i64::MAX);
                assert(F::CHAR_WIDTH * t.text@.len() <= i64::MAX);
                assert(t.text@.len() <= i64::MAX);
                assert(F::CHAR_WIDTH * len + position.x + 256 <= i64::MAX);
                assert(0 <= F::CHAR_WIDTH * len) by (nonlinear_arith)
                    requires
                        F::CHAR_WIDTH >= 0,
                        len >= 0,
                ;
                lemma_paint_seq_step(base, fmt, hh, maps, 2 * i + 1);
                assert((2 * i + 1) / 2 == i && (2 * i + 1) % 2 == 1);
            }
            curr_position.x = curr_position.x + F::CHAR_WIDTH as i64 * len as i64;
            if line.hyphenated {
                fb.draw_char::<F>(&c, '-', &curr_position);
            } else {
                proof {
                    lemma_apply_none(fb.buffer@, fmt, hh);
                }
            }
            proof {
                if line.hyphenated && F::glyph('-') is None {
                    lemma_apply_none(fb.buffer@, fmt, hh);
                }
            }
            curr_position.x = position.x;
            curr_position.y = curr_position.y + F::CHAR_HEIGHT as i64;
            i = i + 1;
            proof {
                assert(2 * i == 2 * (i - 1) + 2);
                assert(position.y + i * F::CHAR_HEIGHT == position.y + (i - 1) * F::CHAR_HEIGHT
                    + F::CHAR_HEIGHT) by (nonlinear_arith);
            }
        }
        proof {
            assert(maps.take(2 * n) =~= maps);
        }
    }
    /// Which lines to draw into `rect` scrolled by `offset`, and where the first goes.
    pub fn prepare_draw(&self, rect: Rect, offset: Position, origin: Origin) -> (r: PreparedDraw)
        requires
            prepare_ok::<F>(self.lines@.len() as int, rect, offset, origin),
        ensures
            ({
                let p = spec_prepare::<F>(self.lines@.len() as int, rect, offset, origin);
                r.start_line == p.0 && r.end_line == p.1 && r.curr_position.x == p.2
                    && r.curr_position.y == p.3 && r.start_line <= r.end_line <= self.lines@.len()
            }),
    {
        let ch = F::CHAR_HEIGHT as usize;
        let visible_lines = rect.height() as usize / ch;
        let n = self.lines.len();
        let ghost p = spec_prepare::<F>(n as int, rect, offset, origin);
        let q = (offset.y as u64 / ch as u64) as usize;
        let (start_line, end_line) = match origin {
            Origin::Top => {
                let start_line = q;
                let wanted = start_line as u64 + visible_lines as u64 + 2;
                let end_line = if wanted < n as u64 {
                    wanted as usize
                } else {
                    n
                };
                (start_line, end_line)
            },
            Origin::Bottom => {
                let end_line = n - q;
                let first = end_line as i64 - visible_lines as i64 - 1;
                let start_line = if first > 0 {
                    first as usize
                } else {
                    0
                };
                (start_line, end_line)
            },
        };
        let x = rect.min.x + offset.x;
        let rem = offset.y % (ch as i64);
        let y = match origin {
            Origin::Top => rect.min.y - rem,
            Origin::Bottom => {
                let span = (end_line - start_line) as i64 * ch as i64;
                rect.max.y - span + rem
            },
        };
        PreparedDraw { start_line, end_line, curr_position: Position { x, y } }
    }
    /// Draws the lines that show in `rect` scrolled by `offset`, kept inside `rect`; the
    /// colors of a per-line color mode count from the first line drawn.
    pub fn draw_clipped(
        &self,
        fb: &mut Framebuffer,
        rect: Rect,
        offset: Position,
        origin: Origin,
        color: ColorMode<'a>,
    )
        requires
            old(fb).wf(),
            clipped_ok::<F>(self.lines@.len() as int, rect, offset, origin),
        ensures
            final(fb).dimensions == old(fb).dimensions,
            final(fb).format == old(fb).format,
            ({
                let p = spec_prepare::<F>(self.lines@.len() as int, rect, offset, origin);
                final(fb).buffer@ == paint_seq(
                    old(fb).buffer@,
                    old(fb).format,
                    old(fb).dimensions.height as int,
                    clipped_maps::<F>(
                        self.lines@,
                        p,
                        p.1 - p.0,
                        rect,
                        |k: int| line_color(color, k),
                        old(fb).dimensions.width as int,
                        old(fb).dimensions.height as int,
                    ),
                )
            }),
    {
        let prepared = self.prepare_draw(rect, offset, origin);
        let start = prepared.start_line;
        let end = prepared.end_line;
        let mut curr_position = prepared.curr_position;
        let ghost p = spec_prepare::<F>(self.lines@.len() as int, rect, offset, origin);
        let ghost maps = clipped_maps::<F>(
            self.lines@,
            p,
            p.1 - p.0,
            rect,
            |k: int| line_color(color, k),
            fb.dimensions.width as int,
            fb.dimensions.height as int,
        );
        let ghost base = fb.buffer@;
        let ghost fmt = fb.format;
        let ghost hh = fb.dimensions.height as int;
        let mut i = start;
        proof {
            assert(maps.take(0) =~= Seq::<spec_fn(int, int) -> Option<Color>>::empty());
            assert(0 * F::CHAR_HEIGHT == 0);
        }
        while i < end
            invariant
                fb.wf(),
                fb.dimensions == old(fb).dimensions,
                fb.format == old(fb).format,
                fmt == fb.format,
                hh == fb.dimensions.height,
                base == old(fb).buffer@,
                start == p.0,
                end == p.1,
                start <= i <= end,
                end <= self.lines@.len(),
                clipped_ok::<F>(self.lines@.len() as int, rect, offset, origin),
                p == spec_prepare::<F>(self.lines@.len() as int, rect, offset, origin),
                maps == clipped_maps::<F>(
                    self.lines@,
                    p,
                    p.1 - p.0,
                    rect,
                    |k: int| line_color(color, k),
                    fb.dimensions.width as int,
                    fb.dimensions.height as int,
                ),
                curr_position.x == p.2,
                curr_position.y == p.3 + (i - start) * F::CHAR_HEIGHT,
                fb.buffer@ == paint_seq(base, fmt, hh, maps.take(i - start)),
            decreases end - i,
        {
            let k = i - start;
            let c = match color {
                ColorMode::Single(c) => c,
                ColorMode::PerLine(colors) => if k < colors.len() {
                    colors[k]
                } else {
                    Color::new(255, 255, 255)
                },
            };
            proof {
                lemma_paint_seq_step(base, fmt, hh, maps, k as int);
                assert((i - start + 1) * F::CHAR_HEIGHT == (i - start) * F::CHAR_HEIGHT
                    + F::CHAR_HEIGHT) by (nonlinear_arith);
                assert((i - start + 1) * F::CHAR_HEIGHT <= (p.1 - p.0 + 1) * F::CHAR_HEIGHT) by (nonlinear_arith)
                    requires
                        i - start <= p.1 - p.0,
                        F::CHAR_HEIGHT >= 0,
                ;
            }
            fb.draw_str_clipped::<F>(&c, self.lines[i].text, &curr_position, &rect);
            curr_position.y = curr_position.y + F::CHAR_HEIGHT as i64;
            i = i + 1;
        }
        proof {
            assert(maps.take(end - start) =~= maps);
        }
    }

    /// Draws the lines that show in `rect` scrolled by `offset`, kept inside `rect`, in
    /// the given colors in turn (nothing if there are none).
    pub fn draw_colored_clipped(
        &self,
        fb: &mut Framebuffer,
        rect: Rect,
        offset: Position,
        origin: Origin,
        colors: &[Color],
    )
        requires
            old(fb).wf(),
            clipped_ok::<F>(self.lines@.len() as int, rect, offset, origin),
        ensures
            final(fb).dimensions == old(fb).dimensions,
            final(fb).format == old(fb).format,
            ({
                let p = spec_prepare::<F>(self.lines@.len() as int, rect, offset, origin);
                final(fb).buffer@ == paint_seq(
                    old(fb).buffer@,
                    old(fb).format,
                    old(fb).dimensions.height as int,
                    clipped_maps::<F>(
                        self.lines@,
                        p,
                        if colors@.len() == 0 {
                            0
                        } else {
                            p.1 - p.0
                        },
                        rect,
                        |k: int| colors@[k % (colors@.len() as int)],
                        old(fb).dimensions.width as int,
                        old(fb).dimensions.height as int,
                    ),
                )
            }),
    {
        let prepared = self.prepare_draw(rect, offset, origin);
        let start = prepared.start_line;
        let end = if colors.len() == 0 {
            prepared.start_line
        } else {
            prepared.end_line
        };
        let mut curr_position = prepared.curr_position;
        let ghost p = spec_prepare::<F>(self.lines@.len() as int, rect, offset, origin);
        let ghost count = if colors@.len() == 0 {
            0
        } else {
            p.1 - p.0
        };
        let ghost maps = clipped_maps::<F>(
            self.lines@,
            p,
            count,
            rect,
            |k: int| colors@[k % (colors@.len() as int)],
            fb.dimensions.width as int,
            fb.dimensions.height as int,
        );
        let ghost base = fb.buffer@;
        let ghost fmt = fb.format;
        let ghost hh = fb.dimensions.height as int;
        let mut i = start;
        proof {
            assert(maps.take(0) =~= Seq::<spec_fn(int, int) -> Option<Color>>::empty());
            assert(0 * F::CHAR_HEIGHT == 0);
        }
        while i < end
            invariant
                fb.wf(),
                fb.dimensions == old(fb).dimensions,
                fb.format == old(fb).format,
                fmt == fb.format,
                hh == fb.dimensions.height,
                base == old(fb).buffer@,
                start == p.0,
                end == p.0 + count,
                count == (if colors@.len() == 0 {
                    0
                } else {
                    p.1 - p.0
                }),
                p.0 <= p.1 <= self.lines@.len(),
                start <= i <= end,
                clipped_ok::<F>(self.lines@.len() as int, rect, offset, origin),
                p == spec_prepare::<F>(self.lines@.len() as int, rect, offset, origin),
                maps == clipped_maps::<F>(
                    self.lines@,
                    p,
                    count,
                    rect,
                    |k: int| colors@[k % (colors@.len() as int)],
                    fb.dimensions.width as int,
                    fb.dimensions.height as int,
                ),
                curr_position.x == p.2,
                curr_position.y == p.3 + (i - start) * F::CHAR_HEIGHT,
                fb.buffer@ == paint_seq(base, fmt, hh, maps.take(i - start)),
            decreases end - i,
        {
            let k = i - start;
            let c = colors[k % colors.len()];
            proof {
                lemma_paint_seq_step(base, fmt, hh, maps, k as int);
                assert((i - start + 1) * F::CHAR_HEIGHT == (i - start) * F::CHAR_HEIGHT
                    + F::CHAR_HEIGHT) by (nonlinear_arith);
                assert((i - start + 1) * F::CHAR_HEIGHT <= (p.1 - p.0 + 1) * F::CHAR_HEIGHT) by (nonlinear_arith)
                    requires
                        i - start <= p.1 - p.0,
                        F::CHAR_HEIGHT >= 0,
                ;
            }
            fb.draw_str_clipped::<F>(&c, self.lines[i].text, &curr_position, &rect);
            curr_position.y = curr_position.y + F::CHAR_HEIGHT as i64;
            i = i + 1;
        }
        proof {
            assert(maps.take(count) =~= maps);
        }
    }
}

} // verus!
