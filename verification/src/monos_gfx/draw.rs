use crate::monos_gfx::blit::{
    blit, blit_all, clip_bounds, lemma_blit_end, lemma_blit_next, lemma_blit_right_of,
    lemma_blit_row_end, lemma_blit_start,
};
use crate::monos_gfx::framebuffer::{
    apply_pixels, format_ok, lemma_apply_ext, pixel_offset, with_pixel, Framebuffer, FramebufferFormat,
};
use vstd::arithmetic::div_mod::lemma_fundamental_div_mod_converse;
use crate::monos_gfx::image::{Image, ImageFormat};
use crate::monos_gfx::types::{Color, Position, Rect};
use vstd::prelude::*;

verus! {

/// Byte `i` of `data`, or 0 past its end.
pub open spec fn byte_or_zero(data: Seq<u8>, i: int) -> u8 {
    if 0 <= i < data.len() {
        data[i]
    } else {
        0
    }
}

/// `i`, but no more than `len`.
pub open spec fn sat(i: int, len: int) -> int {
    if i < len {
        i
    } else {
        len
    }
}

/// The pixels of RGB image data `w` pixels wide: three bytes each, row by row, missing
/// bytes read as 0; pixels of the transparent color are left out.
pub open spec fn rgb_source(data: Seq<u8>, w: int, alpha: Option<Color>) -> spec_fn(int, int) -> Option<Color> {
    |r: int, c: int|
        {
            let i = (r * w + c) * 3;
            let col = Color {
                r: byte_or_zero(data, i),
                g: byte_or_zero(data, i + 1),
                b: byte_or_zero(data, i + 2),
            };
            match alpha {
                Some(a) => if a == col {
                    None
                } else {
                    Some(col)
                },
                None => Some(col),
            }
        }
}

/// The pixels of a framebuffer's bytes.
pub open spec fn fb_source(buf: Seq<u8>, fmt: FramebufferFormat) -> spec_fn(int, int) -> Option<Color> {
    |r: int, c: int|
        {
            let off = pixel_offset(fmt, c, r);
            Some(
                Color {
                    r: buf[off + fmt.r_position],
                    g: buf[off + fmt.g_position],
                    b: buf[off + fmt.b_position],
                },
            )
        }
}

proof fn lemma_row_start(r: int, w: int)
    requires
        0 <= r,
        0 <= w,
    ensures
        0 <= r * w,
        (r + 1) * w == r * w + w,
{
    assert(0 <= r * w) by (nonlinear_arith)
        requires
            0 <= r,
            0 <= w,
    ;
    assert((r + 1) * w == r * w + w) by (nonlinear_arith);
}


/// The pixels a scaled draw has painted: each source pixel `(r, c)` becomes an
/// `s` x `s` block at `(px + c * s, py + r * s)`, drawn whole when the block starts left
/// of and above the bounds' maximum. Blocks before `(r, c)` row by row are done, and of
/// block `(r, c)` the rows before `sy` and the first `sx` pixels of row `sy`.
pub open spec fn scaled_done(
    px: int,
    py: int,
    s: int,
    w: int,
    h: int,
    b: (int, int, int, int),
    src: spec_fn(int, int) -> Option<Color>,
    r: int,
    c: int,
    sy: int,
    sx: int,
) -> spec_fn(int, int) -> Option<Color> {
    |x: int, y: int|
        if x < px || y < py {
            None
        } else {
            let cc = (x - px) / s;
            let rr = (y - py) / s;
            let ix = (x - px) % s;
            let iy = (y - py) % s;
            if rr < h && cc < w && px + cc * s < b.2 && py + rr * s < b.3 && (rr < r || (rr == r
                && (cc < c || (cc == c && (iy < sy || (iy == sy && ix < sx)))))) {
                src(rr, cc)
            } else {
                None
            }
        }
}

/// All blocks drawn.
pub open spec fn scaled_all(
    px: int,
    py: int,
    s: int,
    w: int,
    h: int,
    b: (int, int, int, int),
    src: spec_fn(int, int) -> Option<Color>,
) -> spec_fn(int, int) -> Option<Color> {
    scaled_done(px, py, s, w, h, b, src, h, 0, 0, 0)
}

/// Every block a scaled draw paints lies in the buffer's rows.
pub open spec fn scaled_fits(
    px: int,
    py: int,
    s: int,
    w: int,
    h: int,
    b: (int, int, int, int),
    stride: int,
    height: int,
) -> bool {
    &&& px >= 0
    &&& py >= 0
    &&& forall|c: int| 0 <= c < w && #[trigger] (px + c * s) < b.2 ==> px + c * s + s <= stride
    &&& forall|r: int| 0 <= r < h && #[trigger] (py + r * s) < b.3 ==> py + r * s + s <= height
}

/// Two pixel maps that agree on the first `height` rows paint the same bytes.
proof fn lemma_same_pixels(
    old: Seq<u8>,
    fmt: FramebufferFormat,
    height: int,
    f: spec_fn(int, int) -> Option<Color>,
    g: spec_fn(int, int) -> Option<Color>,
)
    requires
        format_ok(fmt),
        forall|x: int, y: int| 0 <= x < fmt.stride && 0 <= y < height ==> #[trigger] f(x, y) == g(x, y),
    ensures
        apply_pixels(old, fmt, height, f) == apply_pixels(old, fmt, height, g),
{
    lemma_apply_ext(old, fmt, height, f, g);
}

proof fn lemma_block_coords(x: int, px: int, s: int, c: int, ix: int)
    requires
        s > 0,
        0 <= ix < s,
        0 <= c,
        x == px + c * s + ix,
    ensures
        (x - px) / s == c,
        (x - px) % s == ix,
{
    lemma_fundamental_div_mod_converse(x - px, s, c, ix);
}

proof fn lemma_coords_block(x: int, px: int, s: int)
    requires
        s > 0,
        x >= px,
    ensures
        x == px + ((x - px) / s) * s + (x - px) % s,
        0 <= (x - px) % s < s,
        (x - px) / s >= 0,
{
    vstd::arithmetic::div_mod::lemma_fundamental_div_mod(x - px, s);
    assert(((x - px) / s) * s == s * ((x - px) / s)) by (nonlinear_arith);
    assert((x - px) / s >= 0) by (nonlinear_arith)
        requires
            x - px >= 0,
            s > 0,
    ;
}

proof fn lemma_scaled_pixel(
    old: Seq<u8>,
    fmt: FramebufferFormat,
    height: int,
    px: int,
    py: int,
    s: int,
    w: int,
    h: int,
    b: (int, int, int, int),
    src: spec_fn(int, int) -> Option<Color>,
    r: int,
    c: int,
    sy: int,
    sx: int,
    col: Color,
)
    requires
        format_ok(fmt),
        s > 0,
        0 <= r < h,
        0 <= c < w,
        0 <= sy < s,
        0 <= sx < s,
        px + c * s < b.2,
        py + r * s < b.3,
        src(r, c) == Some(col),
    ensures
        apply_pixels(
            old,
            fmt,
            height,
            with_pixel(
                with_pixel(scaled_done(px, py, s, w, h, b, src, r, c, sy, sx), px + c * s + sx, py + r * s + sy, col),
                px + c * s + sx,
                py + r * s + sy,
                col,
            ),
        ) == apply_pixels(old, fmt, height, scaled_done(px, py, s, w, h, b, src, r, c, sy, sx + 1)),
        apply_pixels(
            old,
            fmt,
            height,
            with_pixel(scaled_done(px, py, s, w, h, b, src, r, c, sy, sx), px + c * s + sx, py + r * s + sy, col),
        ) == apply_pixels(old, fmt, height, scaled_done(px, py, s, w, h, b, src, r, c, sy, sx + 1)),
{
    let f = scaled_done(px, py, s, w, h, b, src, r, c, sy, sx);
    let g = scaled_done(px, py, s, w, h, b, src, r, c, sy, sx + 1);
    let xx = px + c * s + sx;
    let yy = py + r * s + sy;
    assert(c * s >= 0) by (nonlinear_arith)
        requires
            c >= 0,
            s > 0,
    ;
    assert(r * s >= 0) by (nonlinear_arith)
        requires
            r >= 0,
            s > 0,
    ;
    lemma_block_coords(xx, px, s, c, sx);
    lemma_block_coords(yy, py, s, r, sy);
    let f1 = with_pixel(f, xx, yy, col);
    let f2 = with_pixel(f1, xx, yy, col);
    assert forall|x: int, y: int| 0 <= x < fmt.stride && 0 <= y < height implies #[trigger] f1(x, y) == g(x, y) by {
        if x >= px && y >= py {
            lemma_coords_block(x, px, s);
            lemma_coords_block(y, py, s);
        }
    }
    assert forall|x: int, y: int| 0 <= x < fmt.stride && 0 <= y < height implies #[trigger] f2(x, y) == f1(x, y) by {}
    lemma_same_pixels(old, fmt, height, f1, g);
    lemma_same_pixels(old, fmt, height, f2, f1);
}


/// How a scaled draw moves on: the end of a block row, of a block, of a row of blocks,
/// and of all rows give the same painted bytes as the next step's start.
proof fn lemma_scaled_moves(
    old: Seq<u8>,
    fmt: FramebufferFormat,
    height: int,
    px: int,
    py: int,
    s: int,
    w: int,
    h: int,
    b: (int, int, int, int),
    src: spec_fn(int, int) -> Option<Color>,
    r: int,
    c: int,
    sy: int,
)
    requires
        format_ok(fmt),
        s > 0,
        0 <= r,
        0 <= c,
        0 <= sy,
    ensures
        apply_pixels(old, fmt, height, scaled_done(px, py, s, w, h, b, src, r, c, sy, s))
            == apply_pixels(old, fmt, height, scaled_done(px, py, s, w, h, b, src, r, c, sy + 1, 0)),
        apply_pixels(old, fmt, height, scaled_done(px, py, s, w, h, b, src, r, c, s, 0))
            == apply_pixels(old, fmt, height, scaled_done(px, py, s, w, h, b, src, r, c + 1, 0, 0)),
        (c >= w || px + c * s >= b.2) ==> apply_pixels(
            old,
            fmt,
            height,
            scaled_done(px, py, s, w, h, b, src, r, c, 0, 0),
        ) == apply_pixels(old, fmt, height, scaled_done(px, py, s, w, h, b, src, r + 1, 0, 0, 0)),
        (r >= h || py + r * s >= b.3) ==> apply_pixels(
            old,
            fmt,
            height,
            scaled_done(px, py, s, w, h, b, src, r, 0, 0, 0),
        ) == apply_pixels(old, fmt, height, scaled_all(px, py, s, w, h, b, src)),
        apply_pixels(old, fmt, height, scaled_done(px, py, s, w, h, b, src, 0, 0, 0, 0)) == old,
{
    let f1 = scaled_done(px, py, s, w, h, b, src, r, c, sy, s);
    let g1 = scaled_done(px, py, s, w, h, b, src, r, c, sy + 1, 0);
    assert forall|x: int, y: int| 0 <= x < fmt.stride && 0 <= y < height implies #[trigger] f1(x, y) == g1(x, y) by {
        if x >= px && y >= py {
            lemma_coords_block(x, px, s);
            lemma_coords_block(y, py, s);
        }
    }
    lemma_same_pixels(old, fmt, height, f1, g1);
    let f2 = scaled_done(px, py, s, w, h, b, src, r, c, s, 0);
    let g2 = scaled_done(px, py, s, w, h, b, src, r, c + 1, 0, 0);
    assert forall|x: int, y: int| 0 <= x < fmt.stride && 0 <= y < height implies #[trigger] f2(x, y) == g2(x, y) by {
        if x >= px && y >= py {
            lemma_coords_block(x, px, s);
            lemma_coords_block(y, py, s);
        }
    }
    lemma_same_pixels(old, fmt, height, f2, g2);
    if c >= w || px + c * s >= b.2 {
        let f3 = scaled_done(px, py, s, w, h, b, src, r, c, 0, 0);
        let g3 = scaled_done(px, py, s, w, h, b, src, r + 1, 0, 0, 0);
        assert forall|x: int, y: int| 0 <= x < fmt.stride && 0 <= y < height implies #[trigger] f3(x, y) == g3(x, y) by {
            if x >= px && y >= py {
                lemma_coords_block(x, px, s);
                lemma_coords_block(y, py, s);
                let cc = (x - px) / s;
                if cc >= c {
                    assert(cc * s >= c * s) by (nonlinear_arith)
                        requires
                            cc >= c,
                            s > 0,
                    ;
                }
            }
        }
        lemma_same_pixels(old, fmt, height, f3, g3);
    }
    if r >= h || py + r * s >= b.3 {
        let f4 = scaled_done(px, py, s, w, h, b, src, r, 0, 0, 0);
        let g4 = scaled_all(px, py, s, w, h, b, src);
        assert forall|x: int, y: int| 0 <= x < fmt.stride && 0 <= y < height implies #[trigger] f4(x, y) == g4(x, y) by {
            if x >= px && y >= py {
                lemma_coords_block(x, px, s);
                lemma_coords_block(y, py, s);
                let rr = (y - py) / s;
                if rr >= r {
                    assert(rr * s >= r * s) by (nonlinear_arith)
                        requires
                            rr >= r,
                            s > 0,
                    ;
                }
            }
        }
        lemma_same_pixels(old, fmt, height, f4, g4);
    }
    let f5 = scaled_done(px, py, s, w, h, b, src, 0, 0, 0, 0);
    let none = |x: int, y: int| None::<Color>;
    assert forall|x: int, y: int| 0 <= x < fmt.stride && 0 <= y < height implies #[trigger] f5(x, y) == none(x, y) by {
        if x >= px && y >= py {
            lemma_coords_block(x, px, s);
            lemma_coords_block(y, py, s);
        }
    }
    lemma_same_pixels(old, fmt, height, f5, none);
    crate::monos_gfx::framebuffer::lemma_apply_none(old, fmt, height);
}

/// The bytes after drawing an image on the whole screen with its top left corner at
/// `position`: an RGB image's pixels but its transparent color; nothing for a bitmap.
pub open spec fn image_drawn(fb: Framebuffer, image: Image, position: Position) -> Seq<u8> {
    match image.data {
        ImageFormat::RGB { data, alpha_val } => fb.painted(
            fb.buffer@,
            blit_all(
                position.x as int,
                position.y as int,
                image.dimensions.width as int,
                image.dimensions.height as int,
                (0, 0, fb.dimensions.width as int, fb.dimensions.height as int),
                rgb_source(data@, image.dimensions.width as int, alpha_val),
            ),
        ),
        ImageFormat::Bitmap { .. } => fb.buffer@,
    }
}

impl Framebuffer {
    /// Draws an RGB image with its top left corner at `position`; a bitmap image is not
    /// drawn.
    pub fn draw_img(&mut self, image: &Image, position: &Position)
        requires
            old(self).wf(),
        ensures
            final(self).dimensions == old(self).dimensions,
            final(self).format == old(self).format,
            final(self).buffer@ == image_drawn(*old(self), *image, *position),
    {
        let clip = Rect::from_dimensions(self.dimensions);
        self.draw_img_clipped(image, position, &clip)
    }

    /// Draws the part of an RGB image, placed with its top left corner at `position`, that
    /// lies inside `clip` and on the screen, leaving out its transparent color; a bitmap
    /// image is not drawn.
    pub fn draw_img_clipped(&mut self, image: &Image, position: &Position, clip: &Rect)
        requires
            old(self).wf(),
        ensures
            final(self).dimensions == old(self).dimensions,
            final(self).format == old(self).format,
            match image.data {
                ImageFormat::RGB { data, alpha_val } => final(self).buffer@ == old(self).painted(
                    old(self).buffer@,
                    blit_all(
                        position.x as int,
                        position.y as int,
                        image.dimensions.width as int,
                        image.dimensions.height as int,
                        clip_bounds(
                            *clip,
                            old(self).dimensions.width as int,
                            old(self).dimensions.height as int,
                        ),
                        rgb_source(data@, image.dimensions.width as int, alpha_val),
                    ),
                ),
                ImageFormat::Bitmap { .. } => final(self).buffer@ == old(self).buffer@,
            },
    {
        let (data, alpha_val) = match &image.data {
            ImageFormat::RGB { data, alpha_val } => (data, alpha_val),
            _ => return ,
        };
        let w = image.dimensions.width;
        let h = image.dimensions.height;
        let sw = self.dimensions.width as i64;
        let sh = self.dimensions.height as i64;
        let ghost px = position.x as int;
        let ghost py = position.y as int;
        let ghost b = clip_bounds(*clip, sw as int, sh as int);
        let ghost src = rgb_source(data@, w as int, *alpha_val);
        let ghost base = self.buffer@;
        let ghost fmt = self.format;
        let ghost hh = self.dimensions.height as int;
        proof {
            lemma_blit_start(base, fmt, hh, px, py, w as int, h as int, b, src);
        }
        if position.y >= sh || position.x >= sw {
            proof {
                if position.x >= sw {
                    lemma_blit_right_of(base, fmt, hh, px, py, w as int, h as int, b, src);
                } else {
                    lemma_blit_end(base, fmt, hh, px, py, w as int, h as int, b, src, 0);
                }
            }
            return ;
        }
        let x0 = if clip.min.x > 0 {
            clip.min.x
        } else {
            0
        };
        let y0 = if clip.min.y > 0 {
            clip.min.y
        } else {
            0
        };
        let x1 = if clip.max.x < sw {
            clip.max.x
        } else {
            sw
        };
        let y1 = if clip.max.y < sh {
            clip.max.y
        } else {
            sh
        };
        let len = data.len();
        let mut pos: usize = 0;
        let mut r: u32 = 0;
        let mut cy: i64 = position.y;
        while r < h && cy < y1
            invariant
                self.wf(),
                self.dimensions == old(self).dimensions,
                self.format == old(self).format,
                fmt == self.format,
                base == old(self).buffer@,
                base.len() == self.buffer@.len(),
                hh == self.dimensions.height,
                sw == self.dimensions.width,
                sh == self.dimensions.height,
                b == (x0 as int, y0 as int, x1 as int, y1 as int),
                0 <= x0,
                0 <= y0,
                x1 <= sw,
                y1 <= sh,
                src == rgb_source(data@, w as int, *alpha_val),
                px == position.x,
                py == position.y,
                position.y < sh,
                position.x < sw,
                r <= h,
                cy == py + r,
                len == data@.len(),
                pos == sat(r * w * 3, len as int),
                self.buffer@ == self.painted(base, blit(px, py, w as int, h as int, b, src, r as int, 0)),
            decreases h - r,
        {
            let mut c: u32 = 0;
            let mut cx: i64 = position.x;
            proof {
                lemma_row_start(r as int, w as int);
            }
            while c < w && cx < x1
                invariant
                    self.wf(),
                    self.dimensions == old(self).dimensions,
                    self.format == old(self).format,
                    fmt == self.format,
                    base.len() == self.buffer@.len(),
                    hh == self.dimensions.height,
                    sw == self.dimensions.width,
                    sh == self.dimensions.height,
                    b == (x0 as int, y0 as int, x1 as int, y1 as int),
                    0 <= x0,
                    0 <= y0,
                    x1 <= sw,
                    y1 <= sh,
                    src == rgb_source(data@, w as int, *alpha_val),
                    px == position.x,
                    py == position.y,
                    r < h,
                    cy < y1,
                    cy == py + r,
                    c <= w,
                    cx == px + c,
                    cx < sw + 1,
                    len == data@.len(),
                    0 <= r * w,
                    pos == sat((r * w + c) * 3, len as int),
                    self.buffer@ == self.painted(
                        base,
                        blit(px, py, w as int, h as int, b, src, r as int, c as int),
                    ),
                decreases w - c,
            {
                let ghost i = (r * w + c) * 3;
                let cr = if pos < len {
                    let v = data[pos];
                    pos = pos + 1;
                    v
                } else {
                    0
                };
                let cg = if pos < len {
                    let v = data[pos];
                    pos = pos + 1;
                    v
                } else {
                    0
                };
                let cb = if pos < len {
                    let v = data[pos];
                    pos = pos + 1;
                    v
                } else {
                    0
                };
                let color = Color::new(cr, cg, cb);
                let skip_alpha = match alpha_val {
                    Some(a) => color.r == a.r && color.g == a.g && color.b == a.b,
                    None => false,
                };
                proof {
                    assert(cr == byte_or_zero(data@, i));
                    assert(cg == byte_or_zero(data@, i + 1));
                    assert(cb == byte_or_zero(data@, i + 2));
                    assert(src(r as int, c as int) == if skip_alpha {
                        None
                    } else {
                        Some(color)
                    });
                    lemma_blit_next(base, fmt, hh, px, py, w as int, h as int, b, src, r as int, c as int);
                }
                if cx >= x0 && cy >= y0 && !skip_alpha {
                    self.paint_over(
                        &Position { x: cx, y: cy },
                        &color,
                        Ghost(base),
                        Ghost(blit(px, py, w as int, h as int, b, src, r as int, c as int)),
                    );
                }
                c = c + 1;
                cx = cx + 1;
            }
            if c < w {
                let skip = (w - c) as usize;
                let rem = len - pos;
                if (rem as u64) <= (skip as u64) * 3 {
                    pos = len;
                } else {
                    pos = pos + skip * 3;
                }
            }
            proof {
                lemma_row_start(r as int, w as int);
                lemma_blit_row_end(base, fmt, hh, px, py, w as int, h as int, b, src, r as int, c as int);
            }
            r = r + 1;
            cy = cy + 1;
        }
        proof {
            lemma_blit_end(base, fmt, hh, px, py, w as int, h as int, b, src, r as int);
        }
    }
    /// Draws another framebuffer with its top left corner at `position`.
    pub fn draw_fb(&mut self, fb: &Framebuffer, position: &Position)
        requires
            old(self).wf(),
            fb.wf(),
        ensures
            final(self).dimensions == old(self).dimensions,
            final(self).format == old(self).format,
            final(self).buffer@ == old(self).painted(
                old(self).buffer@,
                blit_all(
                    position.x as int,
                    position.y as int,
                    fb.dimensions.width as int,
                    fb.dimensions.height as int,
                    (0, 0, old(self).dimensions.width as int, old(self).dimensions.height as int),
                    fb_source(fb.buffer@, fb.format),
                ),
            ),
    {
        let clip = Rect::from_dimensions(self.dimensions);
        self.draw_fb_clipped(fb, position, &clip)
    }

    /// Draws the part of another framebuffer, placed with its top left corner at
    /// `position`, that lies inside `clip` and on the screen.
    pub fn draw_fb_clipped(&mut self, fb: &Framebuffer, position: &Position, clip: &Rect)
        requires
            old(self).wf(),
            fb.wf(),
        ensures
            final(self).dimensions == old(self).dimensions,
            final(self).format == old(self).format,
            final(self).buffer@ == old(self).painted(
                old(self).buffer@,
                blit_all(
                    position.x as int,
                    position.y as int,
                    fb.dimensions.width as int,
                    fb.dimensions.height as int,
                    clip_bounds(
                        *clip,
                        old(self).dimensions.width as int,
                        old(self).dimensions.height as int,
                    ),
                    fb_source(fb.buffer@, fb.format),
                ),
            ),
    {
        let w = fb.dimensions.width;
        let h = fb.dimensions.height;
        let sw = self.dimensions.width as i64;
        let sh = self.dimensions.height as i64;
        let ghost px = position.x as int;
        let ghost py = position.y as int;
        let ghost b = clip_bounds(*clip, sw as int, sh as int);
        let ghost src = fb_source(fb.buffer@, fb.format);
        let ghost base = self.buffer@;
        let ghost fmt = self.format;
        let ghost hh = self.dimensions.height as int;
        proof {
            lemma_blit_start(base, fmt, hh, px, py, w as int, h as int, b, src);
        }
        let x0 = if clip.min.x > 0 {
            clip.min.x
        } else {
            0
        };
        let y0 = if clip.min.y > 0 {
            clip.min.y
        } else {
            0
        };
        let x1 = if clip.max.x < sw {
            clip.max.x
        } else {
            sw
        };
        let y1 = if clip.max.y < sh {
            clip.max.y
        } else {
            sh
        };
        if position.x >= sw {
            proof {
                lemma_blit_right_of(base, fmt, hh, px, py, w as int, h as int, b, src);
            }
            return ;
        }
        let mut r: u32 = 0;
        let mut cy: i64 = position.y;
        while r < h && cy < y1
            invariant
                self.wf(),
                fb.wf(),
                self.dimensions == old(self).dimensions,
                self.format == old(self).format,
                fmt == self.format,
                base == old(self).buffer@,
                base.len() == self.buffer@.len(),
                hh == self.dimensions.height,
                sw == self.dimensions.width,
                sh == self.dimensions.height,
                w == fb.dimensions.width,
                h == fb.dimensions.height,
                b == (x0 as int, y0 as int, x1 as int, y1 as int),
                0 <= x0,
                0 <= y0,
                x1 <= sw,
                y1 <= sh,
                src == fb_source(fb.buffer@, fb.format),
                px == position.x,
                py == position.y,
                position.x < sw,
                r <= h,
                cy == py + r,
                self.buffer@ == self.painted(base, blit(px, py, w as int, h as int, b, src, r as int, 0)),
            decreases h - r,
        {
            let mut c: u32 = 0;
            let mut cx: i64 = position.x;
            while c < w && cx < x1
                invariant
                    self.wf(),
                    fb.wf(),
                    self.dimensions == old(self).dimensions,
                    self.format == old(self).format,
                    fmt == self.format,
                    base.len() == self.buffer@.len(),
                    hh == self.dimensions.height,
                    sw == self.dimensions.width,
                    sh == self.dimensions.height,
                    w == fb.dimensions.width,
                    h == fb.dimensions.height,
                    b == (x0 as int, y0 as int, x1 as int, y1 as int),
                    0 <= x0,
                    0 <= y0,
                    x1 <= sw,
                    y1 <= sh,
                    src == fb_source(fb.buffer@, fb.format),
                    px == position.x,
                    py == position.y,
                    r < h,
                    cy < y1,
                    cy == py + r,
                    c <= w,
                    cx == px + c,
                    self.buffer@ == self.painted(
                        base,
                        blit(px, py, w as int, h as int, b, src, r as int, c as int),
                    ),
                decreases w - c,
            {
                let off = fb.pos_to_offset(&Position { x: c as i64, y: r as i64 });
                let flen = fb.buffer.len();
                assert(off < flen);
                let byte_offset = off as usize;
                let color = Color::new(
                    fb.buffer[byte_offset + fb.format.r_position],
                    fb.buffer[byte_offset + fb.format.g_position],
                    fb.buffer[byte_offset + fb.format.b_position],
                );
                proof {
                    assert(src(r as int, c as int) == Some(color));
                    lemma_blit_next(base, fmt, hh, px, py, w as int, h as int, b, src, r as int, c as int);
                }
                if cx >= x0 && cy >= y0 {
                    self.paint_over(
                        &Position { x: cx, y: cy },
                        &color,
                        Ghost(base),
                        Ghost(blit(px, py, w as int, h as int, b, src, r as int, c as int)),
                    );
                }
                c = c + 1;
                cx = cx + 1;
            }
            proof {
                lemma_blit_row_end(base, fmt, hh, px, py, w as int, h as int, b, src, r as int, c as int);
            }
            r = r + 1;
            cy = cy + 1;
        }
        proof {
            lemma_blit_end(base, fmt, hh, px, py, w as int, h as int, b, src, r as int);
        }
    }
    /// Draws another framebuffer scaled up `scale` times, with its top left corner at
    /// `position`.
    pub fn draw_fb_scaled(&mut self, fb: &Framebuffer, position: &Position, scale: u32)
        requires
            old(self).wf(),
            fb.wf(),
            scale > 0 ==> scaled_fits(
                position.x as int,
                position.y as int,
                scale as int,
                fb.dimensions.width as int,
                fb.dimensions.height as int,
                (0, 0, old(self).dimensions.width as int, old(self).dimensions.height as int),
                old(self).format.stride as int,
                old(self).dimensions.height as int,
            ),
        ensures
            final(self).dimensions == old(self).dimensions,
            final(self).format == old(self).format,
            scale == 0 ==> final(self).buffer@ == old(self).buffer@,
            scale > 0 ==> final(self).buffer@ == old(self).painted(
                old(self).buffer@,
                scaled_all(
                    position.x as int,
                    position.y as int,
                    scale as int,
                    fb.dimensions.width as int,
                    fb.dimensions.height as int,
                    (0, 0, old(self).dimensions.width as int, old(self).dimensions.height as int),
                    fb_source(fb.buffer@, fb.format),
                ),
            ),
    {
        let clip = Rect::from_dimensions(self.dimensions);
        self.draw_fb_scaled_clipped(fb, position, scale, &clip)
    }

    /// Draws another framebuffer scaled up `scale` times, with its top left corner at
    /// `position`: each of its pixels becomes a block, and every block that starts before
    /// the clip's (screen-limited) maximum is drawn whole.
    pub fn draw_fb_scaled_clipped(
        &mut self,
        fb: &Framebuffer,
        position: &Position,
        scale: u32,
        clip: &Rect,
    )
        requires
            old(self).wf(),
            fb.wf(),
            scale > 0 ==> scaled_fits(
                position.x as int,
                position.y as int,
                scale as int,
                fb.dimensions.width as int,
                fb.dimensions.height as int,
                clip_bounds(*clip, old(self).dimensions.width as int, old(self).dimensions.height as int),
                old(self).format.stride as int,
                old(self).dimensions.height as int,
            ),
        ensures
            final(self).dimensions == old(self).dimensions,
            final(self).format == old(self).format,
            scale == 0 ==> final(self).buffer@ == old(self).buffer@,
            scale > 0 ==> final(self).buffer@ == old(self).painted(
                old(self).buffer@,
                scaled_all(
                    position.x as int,
                    position.y as int,
                    scale as int,
                    fb.dimensions.width as int,
                    fb.dimensions.height as int,
                    clip_bounds(*clip, old(self).dimensions.width as int, old(self).dimensions.height as int),
                    fb_source(fb.buffer@, fb.format),
                ),
            ),
    {
        if scale == 0 {
            return ;
        }
        let w = fb.dimensions.width;
        let h = fb.dimensions.height;
        let sw = self.dimensions.width as i64;
        let sh = self.dimensions.height as i64;
        let s = scale as i64;
        let ghost px = position.x as int;
        let ghost py = position.y as int;
        let ghost b = clip_bounds(*clip, sw as int, sh as int);
        let ghost src = fb_source(fb.buffer@, fb.format);
        let ghost base = self.buffer@;
        let ghost fmt = self.format;
        let ghost hh = self.dimensions.height as int;
        let x0 = if clip.min.x > 0 {
            clip.min.x
        } else {
            0
        };
        let y0 = if clip.min.y > 0 {
            clip.min.y
        } else {
            0
        };
        let x1 = if clip.max.x < sw {
            clip.max.x
        } else {
            sw
        };
        let y1 = if clip.max.y < sh {
            clip.max.y
        } else {
            sh
        };
        proof {
            lemma_scaled_moves(base, fmt, hh, px, py, s as int, w as int, h as int, b, src, 0, 0, 0);
        }
        let mut r: u32 = 0;
        let mut cy: i64 = position.y;
        while r < h && cy < y1
            invariant
                self.wf(),
                fb.wf(),
                self.dimensions == old(self).dimensions,
                self.format == old(self).format,
                fmt == self.format,
                base == old(self).buffer@,
                base.len() == self.buffer@.len(),
                hh == self.dimensions.height,
                sw == self.dimensions.width,
                sh == self.dimensions.height,
                w == fb.dimensions.width,
                h == fb.dimensions.height,
                s == scale,
                s > 0,
                b == (x0 as int, y0 as int, x1 as int, y1 as int),
                x1 <= sw,
                y1 <= sh,
                src == fb_source(fb.buffer@, fb.format),
                px == position.x,
                py == position.y,
                scaled_fits(px, py, s as int, w as int, h as int, b, fmt.stride as int, hh),
                r <= h,
                cy == py + r * s,
                self.buffer@ == self.painted(base, scaled_done(px, py, s as int, w as int, h as int, b, src, r as int, 0, 0, 0)),
            decreases h - r,
        {
            let mut c: u32 = 0;
            let mut cx: i64 = position.x;
            proof {
                assert(py + r * s + s <= hh);
            }
            while c < w && cx < x1
                invariant
                    self.wf(),
                    fb.wf(),
                    self.dimensions == old(self).dimensions,
                    self.format == old(self).format,
                    fmt == self.format,
                    base.len() == self.buffer@.len(),
                    hh == self.dimensions.height,
                    sw == self.dimensions.width,
                    sh == self.dimensions.height,
                    w == fb.dimensions.width,
                    h == fb.dimensions.height,
                    s == scale,
                    s > 0,
                    b == (x0 as int, y0 as int, x1 as int, y1 as int),
                    x1 <= sw,
                    y1 <= sh,
                    src == fb_source(fb.buffer@, fb.format),
                    px == position.x,
                    py == position.y,
                    scaled_fits(px, py, s as int, w as int, h as int, b, fmt.stride as int, hh),
                    r < h,
                    cy < y1,
                    cy == py + r * s,
                    cy + s <= hh,
                    c <= w,
                    cx == px + c * s,
                    self.buffer@ == self.painted(base, scaled_done(px, py, s as int, w as int, h as int, b, src, r as int, c as int, 0, 0)),
                decreases w - c,
            {
                let off = fb.pos_to_offset(&Position { x: c as i64, y: r as i64 });
                let flen = fb.buffer.len();
                assert(off < flen);
                let byte_offset = off as usize;
                let color = Color::new(
                    fb.buffer[byte_offset + fb.format.r_position],
                    fb.buffer[byte_offset + fb.format.g_position],
                    fb.buffer[byte_offset + fb.format.b_position],
                );
                proof {
                    assert(src(r as int, c as int) == Some(color));
                    assert(px + c * s + s <= fmt.stride);
                }
                let mut sy: i64 = 0;
                while sy < s
                    invariant
                        self.wf(),
                        self.dimensions == old(self).dimensions,
                        self.format == old(self).format,
                        fmt == self.format,
                        base.len() == self.buffer@.len(),
                        hh == self.dimensions.height,
                        w == fb.dimensions.width,
                        h == fb.dimensions.height,
                        s > 0,
                        b == (x0 as int, y0 as int, x1 as int, y1 as int),
                        px == position.x,
                        py == position.y,
                        px >= 0,
                        py >= 0,
                        r < h,
                        c < w,
                        cy < y1,
                        cx < x1,
                        cy == py + r * s,
                        cx == px + c * s,
                        cy + s <= hh,
                        cx + s <= fmt.stride,
                        src(r as int, c as int) == Some(color),
                        0 <= sy <= s,
                        self.buffer@ == self.painted(base, scaled_done(px, py, s as int, w as int, h as int, b, src, r as int, c as int, sy as int, 0)),
                    decreases s - sy,
                {
                    let mut sx: i64 = 0;
                    while sx < s
                        invariant
                            self.wf(),
                            self.dimensions == old(self).dimensions,
                            self.format == old(self).format,
                            fmt == self.format,
                            base.len() == self.buffer@.len(),
                            hh == self.dimensions.height,
                            w == fb.dimensions.width,
                            h == fb.dimensions.height,
                            s > 0,
                            b == (x0 as int, y0 as int, x1 as int, y1 as int),
                            px == position.x,
                            py == position.y,
                            px >= 0,
                            py >= 0,
                            r < h,
                            c < w,
                            cy < y1,
                            cx < x1,
                            cy == py + r * s,
                            cx == px + c * s,
                            cy + s <= hh,
                            cx + s <= fmt.stride,
                            src(r as int, c as int) == Some(color),
                            0 <= sy < s,
                            0 <= sx <= s,
                            self.buffer@ == self.painted(base, scaled_done(px, py, s as int, w as int, h as int, b, src, r as int, c as int, sy as int, sx as int)),
                        decreases s - sx,
                    {
                        proof {
                            crate::monos_gfx::framebuffer::lemma_offset_bounds(
                                fmt.stride as int,
                                hh,
                                fmt.bytes_per_pixel as int,
                                0,
                                0,
                            );
                        }
                        let pos = Position { x: cx + sx, y: cy + sy };
                        let ghost f = scaled_done(px, py, s as int, w as int, h as int, b, src, r as int, c as int, sy as int, sx as int);
                        proof {
                            assert(r * s >= 0) by (nonlinear_arith)
                                requires
                                    r >= 0,
                                    s > 0,
                            ;
                            assert(c * s >= 0) by (nonlinear_arith)
                                requires
                                    c >= 0,
                                    s > 0,
                            ;
                            lemma_scaled_pixel(base, fmt, hh, px, py, s as int, w as int, h as int, b, src, r as int, c as int, sy as int, sx as int, color);
                        }
                        let inside = pos.x >= x0 && pos.y >= y0 && pos.x < x1 && pos.y < y1;
                        if inside {
                            self.paint_over(&pos, &color, Ghost(base), Ghost(f));
                        }
                        let ghost f1 = if inside {
                            with_pixel(f, pos.x as int, pos.y as int, color)
                        } else {
                            f
                        };
                        self.paint_over(&pos, &color, Ghost(base), Ghost(f1));
                        sx = sx + 1;
                    }
                    proof {
                        lemma_scaled_moves(base, fmt, hh, px, py, s as int, w as int, h as int, b, src, r as int, c as int, sy as int);
                    }
                    sy = sy + 1;
                }
                proof {
                    lemma_scaled_moves(base, fmt, hh, px, py, s as int, w as int, h as int, b, src, r as int, c as int, sy as int);
                    assert((c + 1) * s == c * s + s) by (nonlinear_arith);
                }
                c = c + 1;
                cx = cx + s;
            }
            proof {
                lemma_scaled_moves(base, fmt, hh, px, py, s as int, w as int, h as int, b, src, r as int, c as int, 0);
                assert((r + 1) * s == r * s + s) by (nonlinear_arith);
            }
            r = r + 1;
            cy = cy + s;
        }
        proof {
            lemma_scaled_moves(base, fmt, hh, px, py, s as int, w as int, h as int, b, src, r as int, 0, 0);
        }
    }
}

/// The pixels an RGB image puts on a screen of `sw` x `sh` pixels when its top left
/// corner is at `position`: screen pixel `(sx, sy)` shows image pixel
/// `(sx - position.x, sy - position.y)`, from the image's bytes `3 * (y * width + x)..+3`,
/// unless that is the transparent color.
pub open spec fn image_pixels_at(
    data: Seq<u8>,
    width: int,
    height: int,
    alpha: Option<Color>,
    position: Position,
    sw: int,
    sh: int,
) -> spec_fn(int, int) -> Option<Color> {
    |sx: int, sy: int|
        {
            let x = sx - position.x;
            let y = sy - position.y;
            if 0 <= sx < sw && 0 <= sy < sh && 0 <= x < width && 0 <= y < height {
                let i = 3 * (y * width + x);
                let col = Color {
                    r: if 0 <= i < data.len() { data[i] } else { 0 },
                    g: if 0 <= i + 1 < data.len() { data[i + 1] } else { 0 },
                    b: if 0 <= i + 2 < data.len() { data[i + 2] } else { 0 },
                };
                if alpha == Some(col) {
                    None
                } else {
                    Some(col)
                }
            } else {
                None
            }
        }
}

/// Drawing an RGB image paints exactly the image's pixels, each at the screen pixel
/// `position + (x, y)`, and leaves every other byte of the screen alone; a bitmap image
/// changes nothing.
pub proof fn lemma_image_drawn_pixels(fb: Framebuffer, image: Image, position: Position)
    requires
        format_ok(fb.format),
    ensures
        image_drawn(fb, image, position) == match image.data {
            ImageFormat::RGB { data, alpha_val } => fb.painted(
                fb.buffer@,
                image_pixels_at(
                    data@,
                    image.dimensions.width as int,
                    image.dimensions.height as int,
                    alpha_val,
                    position,
                    fb.dimensions.width as int,
                    fb.dimensions.height as int,
                ),
            ),
            ImageFormat::Bitmap { .. } => fb.buffer@,
        },
{
    if let ImageFormat::RGB { data, alpha_val } = image.data {
        let f = blit_all(
            position.x as int,
            position.y as int,
            image.dimensions.width as int,
            image.dimensions.height as int,
            (0, 0, fb.dimensions.width as int, fb.dimensions.height as int),
            rgb_source(data@, image.dimensions.width as int, alpha_val),
        );
        let g = image_pixels_at(
            data@,
            image.dimensions.width as int,
            image.dimensions.height as int,
            alpha_val,
            position,
            fb.dimensions.width as int,
            fb.dimensions.height as int,
        );
        assert forall|x: int, y: int| 0 <= x < fb.format.stride && 0 <= y < fb.dimensions.height implies #[trigger] f(x, y) == g(x, y) by {
            let w = image.dimensions.width as int;
            let r = y - position.y;
            let c = x - position.x;
            assert((r * w + c) * 3 == 3 * (r * w + c));
        }
        lemma_apply_ext(fb.buffer@, fb.format, fb.dimensions.height as int, f, g);
    }
}

} // verus!
