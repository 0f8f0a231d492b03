use crate::monos_gfx::blit::{
    blit, blit_all, clip_bounds, lemma_blit_end, lemma_blit_next, lemma_blit_right_of,
    lemma_blit_row_end, lemma_blit_start,
};
use crate::monos_gfx::framebuffer::Framebuffer;
use crate::monos_gfx::text::font::{Character, Font};
use crate::monos_gfx::types::{Color, Position, Rect};
use vstd::arithmetic::div_mod::lemma_fundamental_div_mod_converse;
use vstd::prelude::*;
use vstd::std_specs::iter::IteratorSpec;

verus! {

/// Whether bit `k` of a glyph's pixel data is cleared (a cleared bit is drawn); bits past
/// the end of the data read as set in their first byte.
pub open spec fn glyph_bit_clear(data: Seq<u8>, k: int) -> bool {
    let byte = if 0 <= k / 8 < data.len() {
        data[k / 8]
    } else {
        1u8
    };
    byte & (1u8 << ((k % 8) as u8)) == 0
}

/// The pixels of a stored glyph (its width, its height, then its bits row by row) drawn
/// in `color`.
pub open spec fn glyph_source(raw: Seq<u8>, color: Color) -> spec_fn(int, int) -> Option<Color> {
    |r: int, c: int|
        if glyph_bit_clear(raw.subrange(2, raw.len() as int), r * raw[0] + c) {
            Some(color)
        } else {
            None
        }
}

/// The glyphs of a text's characters, leaving out characters the font has no glyph for.
pub open spec fn glyphs_of<F: Font>(s: Seq<char>) -> Seq<Seq<u8>>
    decreases s.len(),
{
    if s.len() == 0 {
        Seq::empty()
    } else {
        let rest = glyphs_of::<F>(s.drop_last());
        match F::glyph(s.last()) {
            Some(g) => rest.push(g),
            None => rest,
        }
    }
}

/// The width of the first `k` glyphs.
pub open spec fn widths(gs: Seq<Seq<u8>>, k: int) -> int
    decreases k,
{
    if k <= 0 || gs.len() == 0 {
        0
    } else {
        gs[0][0] + widths(gs.drop_first(), k - 1)
    }
}

/// The glyph that column `col` of a row of glyphs falls in, and the column inside it.
pub open spec fn locate(gs: Seq<Seq<u8>>, col: int) -> Option<(int, int)>
    decreases gs.len(),
{
    if gs.len() == 0 || col < 0 {
        None
    } else if col < gs[0][0] {
        Some((0, col))
    } else {
        match locate(gs.drop_first(), col - gs[0][0]) {
            Some((k, x)) => Some((k + 1, x)),
            None => None,
        }
    }
}

/// The pixels of a row of glyphs set side by side, drawn in `color`.
pub open spec fn str_source(gs: Seq<Seq<u8>>, color: Color) -> spec_fn(int, int) -> Option<Color> {
    |r: int, col: int|
        match locate(gs, col) {
            Some((k, x)) => glyph_source(gs[k], color)(r, x),
            None => None,
        }
}

/// Text is drawn strictly right of and below the clip's minimum.
pub open spec fn str_bounds(clip: Rect, width: int, height: int) -> (int, int, int, int) {
    let b = clip_bounds(clip, width, height);
    (b.0 + 1, b.1 + 1, b.2, b.3)
}

proof fn lemma_widths_nonneg(gs: Seq<Seq<u8>>, k: int)
    ensures
        widths(gs, k) >= 0,
    decreases k,
{
    if k > 0 && gs.len() > 0 {
        lemma_widths_nonneg(gs.drop_first(), k - 1);
    }
}

proof fn lemma_widths_push(gs: Seq<Seq<u8>>, k: int)
    requires
        0 <= k < gs.len(),
    ensures
        widths(gs, k + 1) == widths(gs, k) + gs[k][0],
    decreases k,
{
    if k > 0 {
        lemma_widths_push(gs.drop_first(), k - 1);
        assert(gs.drop_first()[k - 1] == gs[k]);
    } else {
        assert(widths(gs.drop_first(), 0) == 0);
    }
}

proof fn lemma_widths_mono(gs: Seq<Seq<u8>>, k: int, n: int)
    requires
        0 <= k <= n <= gs.len(),
    ensures
        0 <= widths(gs, k) <= widths(gs, n),
    decreases n - k,
{
    lemma_widths_nonneg(gs, k);
    if k < n {
        lemma_widths_push(gs, k);
        lemma_widths_mono(gs, k + 1, n);
    }
}

proof fn lemma_locate(gs: Seq<Seq<u8>>, k: int, x: int)
    requires
        0 <= k < gs.len(),
        0 <= x < gs[k][0],
    ensures
        locate(gs, widths(gs, k) + x) == Some((k, x)),
    decreases k,
{
    if k > 0 {
        lemma_locate(gs.drop_first(), k - 1, x);
        lemma_widths_mono(gs.drop_first(), 0, k - 1);
    }
}

/// A bit index split into its byte and its bit.
proof fn lemma_bit_split(k: int, byte: int, bit: int)
    requires
        0 <= bit < 8,
        k == byte * 8 + bit,
    ensures
        k / 8 == byte,
        k % 8 == bit,
{
    lemma_fundamental_div_mod_converse(k, 8, byte, bit);
}

impl Framebuffer {
    /// Draws a character of font `F` with its top left corner at `position`; the pixels
    /// that lie off the screen are left out. Nothing is drawn for a character the font has
    /// no glyph for.
    pub fn draw_char<F: Font>(&mut self, color: &Color, character: char, position: &Position)
        requires
            old(self).wf(),
            F::glyph(character) matches Some(g) ==> position.x + g[0] <= i64::MAX + 1
                && position.y + g[1] <= i64::MAX + 1,
        ensures
            final(self).dimensions == old(self).dimensions,
            final(self).format == old(self).format,
            match F::glyph(character) {
                Some(g) => final(self).buffer@ == old(self).painted(
                    old(self).buffer@,
                    blit_all(
                        position.x as int,
                        position.y as int,
                        g[0] as int,
                        g[1] as int,
                        (0, 0, old(self).dimensions.width as int, old(self).dimensions.height as int),
                        glyph_source(g, *color),
                    ),
                ),
                None => final(self).buffer@ == old(self).buffer@,
            },
    {
        if let Some(raw) = F::get_char(character) {
            let ch = Character::from_raw(raw);
            let w = ch.width;
            let h = ch.height;
            let sw = self.dimensions.width as i64;
            let sh = self.dimensions.height as i64;
            let ghost px = position.x as int;
            let ghost py = position.y as int;
            let ghost b = (0int, 0int, sw as int, sh as int);
            let ghost src = glyph_source(raw@, *color);
            let ghost base = self.buffer@;
            let ghost fmt = self.format;
            let ghost hh = self.dimensions.height as int;
            proof {
                lemma_blit_start(base, fmt, hh, px, py, w as int, h as int, b, src);
            }
            let mut bit_offset: usize = 0;
            let mut byte_offset: usize = 0;
            let mut y: usize = 0;
            while y < h
                invariant
                    self.wf(),
                    self.dimensions == old(self).dimensions,
                    self.format == old(self).format,
                    fmt == self.format,
                    base == old(self).buffer@,
                    base.len() == self.buffer@.len(),
                    hh == self.dimensions.height,
                    sw == self.dimensions.width,
                    sh == self.dimensions.height,
                    b == (0int, 0int, sw as int, sh as int),
                    src == glyph_source(raw@, *color),
                    raw@.len() >= 2,
                    w == raw@[0],
                    h == raw@[1],
                    ch.data@ == raw@.subrange(2, raw@.len() as int),
                    px == position.x,
                    py == position.y,
                    position.x + w <= i64::MAX + 1,
                    position.y + h <= i64::MAX + 1,
                    y <= h,
                    bit_offset < 8,
                    byte_offset * 8 + bit_offset == y * w,
                    self.buffer@ == self.painted(base, blit(px, py, w as int, h as int, b, src, y as int, 0)),
                decreases h - y,
            {
                let mut x: usize = 0;
                proof {
                    assert((y + 1) * w == y * w + w) by (nonlinear_arith);
                }
                while x < w
                    invariant
                        self.wf(),
                        self.dimensions == old(self).dimensions,
                        self.format == old(self).format,
                        fmt == self.format,
                        base.len() == self.buffer@.len(),
                        hh == self.dimensions.height,
                        sw == self.dimensions.width,
                        sh == self.dimensions.height,
                        b == (0int, 0int, sw as int, sh as int),
                        src == glyph_source(raw@, *color),
                        raw@.len() >= 2,
                        w == raw@[0],
                        h == raw@[1],
                        ch.data@ == raw@.subrange(2, raw@.len() as int),
                        px == position.x,
                        py == position.y,
                        position.x + w <= i64::MAX + 1,
                        position.y + h <= i64::MAX + 1,
                        y < h,
                        x <= w,
                        bit_offset < 8,
                        byte_offset * 8 + bit_offset == y * w + x,
                        (y + 1) * w == y * w + w,
                        self.buffer@ == self.painted(
                            base,
                            blit(px, py, w as int, h as int, b, src, y as int, x as int),
                        ),
                    decreases w - x,
                {
                    proof {
                        assert(y * w + x < 65536) by (nonlinear_arith)
                            requires
                                y < h,
                                h <= 255,
                                x < w,
                                w <= 255,
                        ;
                        lemma_bit_split((y * w + x) as int, byte_offset as int, bit_offset as int);
                    }
                    let byte = if byte_offset < ch.data.len() {
                        ch.data[byte_offset]
                    } else {
                        1
                    };
                    proof {
                        assert(src(y as int, x as int) == if byte & (1u8 << (bit_offset as u8)) == 0 {
                            Some(*color)
                        } else {
                            None
                        });
                        lemma_blit_next(base, fmt, hh, px, py, w as int, h as int, b, src, y as int, x as int);
                    }
                    if byte & (1u8 << (bit_offset as u8)) == 0 {
                        let sx = position.x + x as i64;
                        let sy = position.y + y as i64;
                        if sx >= 0 && sy >= 0 && sx < sw && sy < sh {
                            self.paint_over(
                                &Position { x: sx, y: sy },
                                color,
                                Ghost(base),
                                Ghost(blit(px, py, w as int, h as int, b, src, y as int, x as int)),
                            );
                        }
                    }
                    bit_offset = bit_offset + 1;
                    if bit_offset % 8 == 0 {
                        byte_offset = byte_offset + 1;
                        bit_offset = 0;
                    }
                    x = x + 1;
                }
                proof {
                    lemma_blit_row_end(base, fmt, hh, px, py, w as int, h as int, b, src, y as int, x as int);
                }
                y = y + 1;
            }
            proof {
                lemma_blit_end(base, fmt, hh, px, py, w as int, h as int, b, src, y as int);
            }
        }
    }
    /// Draws a text in font `F` with its top left corner at `position`, strictly right of
    /// and below the screen's top left pixel; characters without a glyph are left out.
    pub fn draw_str<F: Font>(&mut self, color: &Color, string: &str, position: &Position)
        requires
            old(self).wf(),
            F::CHAR_HEIGHT * 256 <= usize::MAX,
        ensures
            final(self).dimensions == old(self).dimensions,
            final(self).format == old(self).format,
            final(self).buffer@ == old(self).painted(
                old(self).buffer@,
                blit_all(
                    position.x as int,
                    position.y as int,
                    widths(glyphs_of::<F>(string@), glyphs_of::<F>(string@).len() as int),
                    F::CHAR_HEIGHT as int,
                    (1, 1, old(self).dimensions.width as int, old(self).dimensions.height as int),
                    str_source(glyphs_of::<F>(string@), *color),
                ),
            ),
    {
        let clip = Rect::from_dimensions(self.dimensions);
        self.draw_str_clipped::<F>(color, string, position, &clip);
    }

    /// Draws a text in font `F` with its top left corner at `position`, keeping to the
    /// pixels strictly right of and below the clip's (screen-limited) minimum and before
    /// its maximum; characters without a glyph are left out. Every glyph row of the font's
    /// height is drawn, reading bits past a glyph's data as set.
    pub fn draw_str_clipped<F: Font>(
        &mut self,
        color: &Color,
        string: &str,
        position: &Position,
        clip: &Rect,
    )
        requires
            old(self).wf(),
            F::CHAR_HEIGHT * 256 <= usize::MAX,
        ensures
            final(self).dimensions == old(self).dimensions,
            final(self).format == old(self).format,
            final(self).buffer@ == old(self).painted(
                old(self).buffer@,
                blit_all(
                    position.x as int,
                    position.y as int,
                    widths(glyphs_of::<F>(string@), glyphs_of::<F>(string@).len() as int),
                    F::CHAR_HEIGHT as int,
                    str_bounds(
                        *clip,
                        old(self).dimensions.width as int,
                        old(self).dimensions.height as int,
                    ),
                    str_source(glyphs_of::<F>(string@), *color),
                ),
            ),
    {
        let sw = self.dimensions.width as i64;
        let sh = self.dimensions.height as i64;
        let ghost s = string@;
        let ghost gs = glyphs_of::<F>(s);
        let ghost ww = widths(gs, gs.len() as int);
        let ghost hh_f = F::CHAR_HEIGHT as int;
        let ghost px = position.x as int;
        let ghost py = position.y as int;
        let ghost b = str_bounds(*clip, sw as int, sh as int);
        let ghost src = str_source(gs, *color);
        let ghost base = self.buffer@;
        let ghost fmt = self.format;
        let ghost hh = self.dimensions.height as int;
        proof {
            lemma_blit_start(base, fmt, hh, px, py, ww, hh_f, b, src);
        }
        if position.y >= sh || position.x >= sw {
            proof {
                if position.x >= sw {
                    lemma_blit_right_of(base, fmt, hh, px, py, ww, hh_f, b, src);
                } else {
                    lemma_blit_end(base, fmt, hh, px, py, ww, hh_f, b, src, 0);
                }
            }
            return ;
        }
        let x0 = if clip.min.x > 0 {
            clip.min.x
        } else {
            0
        };
        let y0 = if clip.min.y > 0 {
            clip.min.y
        } else {
            0
        };
        let x1 = if clip.max.x < sw {
            clip.max.x
        } else {
            sw
        };
        let y1 = if clip.max.y < sh {
            clip.max.y
        } else {
            sh
        };
        let mut chars: Vec<Character> = Vec::new();
        let mut it = string.chars();
        let ghost mut k: int = 0;
        loop
            invariant
                it.remaining() == s.skip(k),
                0 <= k <= s.len(),
                s == string@,
                chars@.len() == glyphs_of::<F>(s.take(k)).len(),
                forall|i: int|
                    0 <= i < chars@.len() ==> {
                        let g = #[trigger] glyphs_of::<F>(s.take(k))[i];
                        &&& g.len() >= 2
                        &&& chars@[i].width == g[0]
                        &&& chars@[i].data@ == g.subrange(2, g.len() as int)
                    },
            ensures
                k == s.len(),
                chars@.len() == glyphs_of::<F>(s.take(k)).len(),
                forall|i: int|
                    0 <= i < chars@.len() ==> {
                        let g = #[trigger] glyphs_of::<F>(s.take(k))[i];
                        &&& g.len() >= 2
                        &&& chars@[i].width == g[0]
                        &&& chars@[i].data@ == g.subrange(2, g.len() as int)
                    },
            decreases s.len() - k,
        {
            let next = it.next();
            match next {
                Some(c) => {
                    proof {
                        assert(s.skip(k).len() > 0);
                        assert(c == s[k]);
                        assert(s.take(k + 1).drop_last() =~= s.take(k));
                        assert(s.skip(k).drop_first() =~= s.skip(k + 1));
                    }
                    if let Some(raw) = F::get_char(c) {
                        chars.push(Character::from_raw(raw));
                    }
                    proof {
                        k = k + 1;
                    }
                },
                None => {
                    break;
                },
            }
        }
        proof {
            assert(s.take(k) =~= s);
        }
        let n = chars.len();
        let ch_h = F::CHAR_HEIGHT as usize;
        let mut r: usize = 0;
        let mut cy: i64 = position.y;
        while r < ch_h && cy < y1
            invariant
                self.wf(),
                self.dimensions == old(self).dimensions,
                self.format == old(self).format,
                fmt == self.format,
                base == old(self).buffer@,
                base.len() == self.buffer@.len(),
                hh == self.dimensions.height,
                sw == self.dimensions.width,
                sh == self.dimensions.height,
                b == (x0 + 1, y0 + 1, x1 as int, y1 as int),
                0 <= x0,
                0 <= y0,
                x1 <= sw,
                y1 <= sh,
                src == str_source(gs, *color),
                gs == glyphs_of::<F>(s),
                ww == widths(gs, gs.len() as int),
                hh_f == F::CHAR_HEIGHT,
                ch_h == F::CHAR_HEIGHT,
                F::CHAR_HEIGHT * 256 <= usize::MAX,
                n == chars@.len(),
                n == gs.len(),
                forall|i: int|
                    0 <= i < n ==> {
                        let g = #[trigger] gs[i];
                        &&& g.len() >= 2
                        &&& chars@[i].width == g[0]
                        &&& chars@[i].data@ == g.subrange(2, g.len() as int)
                    },
                px == position.x,
                py == position.y,
                position.x < sw,
                r <= ch_h,
                cy == py + r,
                self.buffer@ == self.painted(base, blit(px, py, ww, hh_f, b, src, r as int, 0)),
            decreases ch_h - r,
        {
            let mut k: usize = 0;
            let mut cx: i64 = position.x;
            let ghost mut col: int = 0;
            while k < n && cx < x1
                invariant
                    self.wf(),
                    self.dimensions == old(self).dimensions,
                    self.format == old(self).format,
                    fmt == self.format,
                    base.len() == self.buffer@.len(),
                    hh == self.dimensions.height,
                    sw == self.dimensions.width,
                    sh == self.dimensions.height,
                    b == (x0 + 1, y0 + 1, x1 as int, y1 as int),
                    0 <= x0,
                    0 <= y0,
                    x1 <= sw,
                    y1 <= sh,
                    src == str_source(gs, *color),
                    ww == widths(gs, gs.len() as int),
                    hh_f == F::CHAR_HEIGHT,
                    ch_h == F::CHAR_HEIGHT,
                    F::CHAR_HEIGHT * 256 <= usize::MAX,
                    n == chars@.len(),
                    n == gs.len(),
                    forall|i: int|
                        0 <= i < n ==> {
                            let g = #[trigger] gs[i];
                            &&& g.len() >= 2
                            &&& chars@[i].width == g[0]
                            &&& chars@[i].data@ == g.subrange(2, g.len() as int)
                        },
                    px == position.x,
                    py == position.y,
                    r < ch_h,
                    cy < y1,
                    cy == py + r,
                    k <= n,
                    0 <= col,
                    cx == px + col,
                    cx < x1 ==> col == widths(gs, k as int),
                    self.buffer@ == self.painted(base, blit(px, py, ww, hh_f, b, src, r as int, col)),
                decreases n - k,
            {
                let c = &chars[k];
                let cw = c.width;
                let ghost g = gs[k as int];
                let mut x: usize = 0;
                proof {
                    lemma_widths_push(gs, k as int);
                    lemma_widths_mono(gs, k as int + 1, n as int);
                }
                while x < cw && cx < x1
                    invariant
                        self.wf(),
                        self.dimensions == old(self).dimensions,
                        self.format == old(self).format,
                        fmt == self.format,
                        base.len() == self.buffer@.len(),
                        hh == self.dimensions.height,
                        sw == self.dimensions.width,
                        sh == self.dimensions.height,
                        b == (x0 + 1, y0 + 1, x1 as int, y1 as int),
                        0 <= x0,
                        0 <= y0,
                        x1 <= sw,
                        y1 <= sh,
                        src == str_source(gs, *color),
                        ww == widths(gs, gs.len() as int),
                        hh_f == F::CHAR_HEIGHT,
                        ch_h == F::CHAR_HEIGHT,
                        F::CHAR_HEIGHT * 256 <= usize::MAX,
                        n == gs.len(),
                        k < n,
                        g == gs[k as int],
                        g.len() >= 2,
                        cw == g[0],
                        c.width == cw,
                        c.data@ == g.subrange(2, g.len() as int),
                        widths(gs, k + 1) == widths(gs, k as int) + g[0],
                        widths(gs, k + 1) <= ww,
                        px == position.x,
                        py == position.y,
                        r < ch_h,
                        cy < y1,
                        cy == py + r,
                        x <= cw,
                        col == widths(gs, k as int) + x,
                        cx == px + col,
                        self.buffer@ == self.painted(base, blit(px, py, ww, hh_f, b, src, r as int, col)),
                    decreases cw - x,
                {
                    proof {
                        assert(r * cw + x < ch_h * 256) by (nonlinear_arith)
                            requires
                                r < ch_h,
                                cw <= 255,
                                x < cw,
                        ;
                        assert(0 <= r * cw) by (nonlinear_arith)
                            requires
                                0 <= r,
                                0 <= cw,
                        ;
                    }
                    let bit_index = r * cw + x;
                    let byte_offset = bit_index / 8;
                    let bit_offset = bit_index % 8;
                    let byte = if byte_offset < c.data.len() {
                        c.data[byte_offset]
                    } else {
                        1
                    };
                    proof {
                        lemma_locate(gs, k as int, x as int);
                        assert(src(r as int, col) == glyph_source(g, *color)(r as int, x as int));
                        assert(src(r as int, col) == if byte & (1u8 << (bit_offset as u8)) == 0 {
                            Some(*color)
                        } else {
                            None
                        });
                        lemma_blit_next(base, fmt, hh, px, py, ww, hh_f, b, src, r as int, col);
                    }
                    if byte & (1u8 << (bit_offset as u8)) == 0 {
                        if cx > x0 && cy > y0 {
                            self.paint_over(
                                &Position { x: cx, y: cy },
                                color,
                                Ghost(base),
                                Ghost(blit(px, py, ww, hh_f, b, src, r as int, col)),
                            );
                        }
                    }
                    cx = cx + 1;
                    x = x + 1;
                    proof {
                        col = col + 1;
                    }
                }
                k = k + 1;
            }
            proof {
                lemma_blit_row_end(base, fmt, hh, px, py, ww, hh_f, b, src, r as int, col);
            }
            r = r + 1;
            cy = cy + 1;
        }
        proof {
            lemma_blit_end(base, fmt, hh, px, py, ww, hh_f, b, src, r as int);
        }
    }
}

} // verus!
