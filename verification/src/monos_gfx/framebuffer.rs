use crate::monos_gfx::types::{fits_i64, Color, Dimension, Position, Rect};
use vstd::arithmetic::div_mod::lemma_fundamental_div_mod_converse;
use vstd::prelude::*;

verus! {

/// How pixels are laid out in a framebuffer's bytes.
#[derive(Debug, Clone, Copy, PartialEq, Eq, Structural)]
pub struct FramebufferFormat {
    pub bytes_per_pixel: u64,
    pub stride: u64,
    pub r_position: usize,
    pub g_position: usize,
    pub b_position: usize,
    pub a_position: Option<usize>,
}

/// The byte that painting `c` leaves at byte `k` of a pixel, if painting writes there
/// (red, green, then blue is written, so blue wins where positions coincide).
pub open spec fn byte_after(fmt: FramebufferFormat, c: Color, k: int) -> Option<u8> {
    if k == fmt.b_position {
        Some(c.b)
    } else if k == fmt.g_position {
        Some(c.g)
    } else if k == fmt.r_position {
        Some(c.r)
    } else {
        None
    }
}

/// The format has pixels of positive size, rows of positive length and its color bytes
/// inside each pixel.
pub open spec fn format_ok(fmt: FramebufferFormat) -> bool {
    &&& fmt.bytes_per_pixel > 0
    &&& fmt.stride > 0
    &&& fmt.r_position < fmt.bytes_per_pixel
    &&& fmt.g_position < fmt.bytes_per_pixel
    &&& fmt.b_position < fmt.bytes_per_pixel
    &&& (fmt.a_position matches Some(a) ==> a < fmt.bytes_per_pixel)
}

/// The first byte of the pixel at `(x, y)`.
pub open spec fn pixel_offset(fmt: FramebufferFormat, x: int, y: int) -> int {
    (y * fmt.stride + x) * fmt.bytes_per_pixel
}

/// The row-major pixel that byte `i` belongs to, and the byte's place in it.
pub open spec fn pixel_of(fmt: FramebufferFormat, i: int) -> (int, int, int) {
    let p = i / (fmt.bytes_per_pixel as int);
    (p % (fmt.stride as int), p / (fmt.stride as int), i % (fmt.bytes_per_pixel as int))
}

/// The bytes after painting each pixel `(x, y)` of the first `height` rows for which `f`
/// gives a color (a row holds `stride` pixels); other bytes are kept.
pub open spec fn apply_pixels(
    old: Seq<u8>,
    fmt: FramebufferFormat,
    height: int,
    f: spec_fn(int, int) -> Option<Color>,
) -> Seq<u8> {
    Seq::new(
        old.len(),
        |i: int|
            {
                let (x, y, k) = pixel_of(fmt, i);
                if y < height {
                    match f(x, y) {
                        Some(c) => match byte_after(fmt, c, k) {
                            Some(v) => v,
                            None => old[i],
                        },
                        None => old[i],
                    }
                } else {
                    old[i]
                }
            },
    )
}

/// Painting one pixel as the hardware layout says.
pub open spec fn paint_pixel(buf: Seq<u8>, fmt: FramebufferFormat, x: int, y: int, c: Color) -> Seq<u8> {
    let off = pixel_offset(fmt, x, y);
    buf.update(off + fmt.r_position, c.r).update(off + fmt.g_position, c.g).update(
        off + fmt.b_position,
        c.b,
    )
}

pub open spec fn with_pixel(
    f: spec_fn(int, int) -> Option<Color>,
    x: int,
    y: int,
    c: Color,
) -> spec_fn(int, int) -> Option<Color> {
    |px: int, py: int|
        if px == x && py == y {
            Some(c)
        } else {
            f(px, py)
        }
}

pub proof fn lemma_pixel_index(fmt: FramebufferFormat, x: int, y: int, k: int)
    requires
        format_ok(fmt),
        0 <= x < fmt.stride,
        0 <= y,
        0 <= k < fmt.bytes_per_pixel,
    ensures
        pixel_of(fmt, pixel_offset(fmt, x, y) + k) == (x, y, k),
        pixel_offset(fmt, x, y) >= 0,
{
    let s = fmt.stride as int;
    let b = fmt.bytes_per_pixel as int;
    let p = y * s + x;
    assert(p >= 0) by (nonlinear_arith)
        requires
            y >= 0,
            s > 0,
            x >= 0,
            p == y * s + x,
    ;
    lemma_fundamental_div_mod_converse(p * b + k, b, p, k);
    lemma_fundamental_div_mod_converse(p, s, y, x);
    assert(p * b >= 0) by (nonlinear_arith)
        requires
            p >= 0,
            b > 0,
    ;
}

pub proof fn lemma_index_pixel(fmt: FramebufferFormat, i: int)
    requires
        format_ok(fmt),
        0 <= i,
    ensures
        ({
            let (x, y, k) = pixel_of(fmt, i);
            &&& 0 <= x < fmt.stride && 0 <= y && 0 <= k < fmt.bytes_per_pixel
            &&& i == pixel_offset(fmt, x, y) + k
        }),
{
    let s = fmt.stride as int;
    let b = fmt.bytes_per_pixel as int;
    let p = i / b;
    vstd::arithmetic::div_mod::lemma_fundamental_div_mod(i, b);
    vstd::arithmetic::div_mod::lemma_fundamental_div_mod(p, s);
    assert(p >= 0) by (nonlinear_arith)
        requires
            i >= 0,
            b > 0,
            p == i / b,
    ;
    assert(p / s >= 0) by (nonlinear_arith)
        requires
            p >= 0,
            s > 0,
    ;
    assert(i % b >= 0 && i % b < b);
    assert(p % s >= 0 && p % s < s);
    assert(i == (p / s * s + p % s) * b + i % b) by (nonlinear_arith)
        requires
            i == b * p + i % b,
            p == s * (p / s) + p % s,
    ;
}

/// Painting a pixel over already painted pixels adds it to the painted ones.
pub proof fn lemma_paint_pixel(
    old: Seq<u8>,
    fmt: FramebufferFormat,
    height: int,
    f: spec_fn(int, int) -> Option<Color>,
    x: int,
    y: int,
    c: Color,
)
    requires
        format_ok(fmt),
        0 <= x < fmt.stride,
        0 <= y < height,
        pixel_offset(fmt, x, y) + fmt.bytes_per_pixel <= old.len(),
    ensures
        paint_pixel(apply_pixels(old, fmt, height, f), fmt, x, y, c) == apply_pixels(
            old,
            fmt,
            height,
            with_pixel(f, x, y, c),
        ),
{
    let off = pixel_offset(fmt, x, y);
    let lhs = paint_pixel(apply_pixels(old, fmt, height, f), fmt, x, y, c);
    let rhs = apply_pixels(old, fmt, height, with_pixel(f, x, y, c));
    lemma_pixel_index(fmt, x, y, 0);
    assert forall|i: int| 0 <= i < old.len() implies lhs[i] == rhs[i] by {
        lemma_index_pixel(fmt, i);
        let (px, py, k) = pixel_of(fmt, i);
        if px == x && py == y {
            lemma_pixel_index(fmt, x, y, k);
        } else {
            if off <= i < off + fmt.bytes_per_pixel {
                lemma_pixel_index(fmt, x, y, i - off);
            }
        }
    }
    assert(lhs =~= rhs);
}

/// Painting with two pixel maps that agree on the first `height` rows gives the same bytes.
pub proof fn lemma_apply_ext(
    old: Seq<u8>,
    fmt: FramebufferFormat,
    height: int,
    f: spec_fn(int, int) -> Option<Color>,
    g: spec_fn(int, int) -> Option<Color>,
)
    requires
        format_ok(fmt),
        forall|x: int, y: int| 0 <= x < fmt.stride && 0 <= y < height ==> #[trigger] f(x, y) == g(x, y),
    ensures
        apply_pixels(old, fmt, height, f) == apply_pixels(old, fmt, height, g),
{
    assert forall|i: int| 0 <= i < old.len() implies apply_pixels(old, fmt, height, f)[i]
        == apply_pixels(old, fmt, height, g)[i] by {
        lemma_index_pixel(fmt, i);
    }
    assert(apply_pixels(old, fmt, height, f) =~= apply_pixels(old, fmt, height, g));
}

/// Painting nothing keeps every byte.
pub proof fn lemma_apply_none(old: Seq<u8>, fmt: FramebufferFormat, height: int)
    requires
        format_ok(fmt),
    ensures
        apply_pixels(old, fmt, height, |x: int, y: int| None::<Color>) == old,
{
    assert(apply_pixels(old, fmt, height, |x: int, y: int| None::<Color>) =~= old);
}

/// The offset arithmetic of an in-range pixel stays within the rows.
pub proof fn lemma_offset_bounds(s: int, h: int, b: int, x: int, y: int)
    requires
        0 <= x < s,
        0 <= y < h,
        b > 0,
    ensures
        0 <= y * s,
        y * s + x < s * h,
        0 <= (y * s + x) * b,
        (y * s + x) * b + b <= s * h * b,
        s <= s * h * b,
        s * h <= s * h * b,
        b <= s * h * b,
        y * s <= s * h * b,
{
    assert(0 <= y * s) by (nonlinear_arith)
        requires
            0 <= y,
            0 < s,
    ;
    assert(y * s + x < s * h) by (nonlinear_arith)
        requires
            0 <= x < s,
            0 <= y < h,
    ;
    assert((y * s + x) * b + b <= s * h * b) by (nonlinear_arith)
        requires
            y * s + x < s * h,
            b > 0,
    ;
    assert(0 <= (y * s + x) * b) by (nonlinear_arith)
        requires
            0 <= y * s + x,
            b > 0,
    ;
    assert(s <= s * h * b && b <= s * h * b && y * s <= s * h * b && s * h <= s * h * b) by (nonlinear_arith)
        requires
            0 < s,
            0 < h,
            0 < b,
            0 <= y < h,
    ;
}

/// A pixel buffer with its size and byte layout.
pub struct Framebuffer {
    pub buffer: Vec<u8>,
    pub dimensions: Dimension,
    pub format: FramebufferFormat,
}

/// `v` clamped to `[0, hi]`.
pub open spec fn clamp0(v: int, hi: int) -> int {
    if v < 0 {
        0
    } else if v > hi {
        hi
    } else {
        v
    }
}

pub(crate) fn clamp_exec(v: i64, hi: i64) -> (r: i64)
    requires
        hi >= 0,
    ensures
        r == clamp0(v as int, hi as int),
{
    let m = if v > 0 {
        v
    } else {
        0
    };
    if m < hi {
        m
    } else {
        hi
    }
}

/// The pixels inside `[x0, x1) x [y0, y1)`, all painted `color`.
pub open spec fn fill(x0: int, y0: int, x1: int, y1: int, color: Color) -> spec_fn(int, int) -> Option<Color> {
    |x: int, y: int|
        if x0 <= x < x1 && y0 <= y < y1 {
            Some(color)
        } else {
            None
        }
}

/// The pixels `draw_rect` colors: the rectangle with its corners clamped to the screen.
pub open spec fn rect_on_screen(rect: Rect, w: int, h: int, color: Color) -> spec_fn(int, int) -> Option<Color> {
    fill(
        clamp0(rect.min.x as int, w),
        clamp0(rect.min.y as int, h),
        clamp0(rect.max.x as int, w),
        clamp0(rect.max.y as int, h),
        color,
    )
}

/// The pixels `draw_pixel` colors: the one at `position`, if it is on the screen.
pub open spec fn pixel_on_screen(position: Position, w: int, h: int, color: Color) -> spec_fn(int, int) -> Option<Color> {
    fill(
        position.x as int,
        position.y as int,
        if position.x < w { position.x + 1 } else { position.x as int },
        if position.y < h { position.y + 1 } else { position.y as int },
        color,
    )
}

impl Framebuffer {
    /// The buffer holds all rows of the format, pixels fit their rows, and offsets fit
    /// in 64-bit arithmetic.
    pub open spec fn wf(&self) -> bool {
        &&& format_ok(self.format)
        &&& self.dimensions.width <= self.format.stride
        &&& self.format.stride * self.dimensions.height * self.format.bytes_per_pixel <= self.buffer@.len()
        &&& self.buffer@.len() <= i64::MAX
    }

    /// The bytes after painting the pixels that `f` colors.
    pub open spec fn painted(&self, old: Seq<u8>, f: spec_fn(int, int) -> Option<Color>) -> Seq<u8> {
        apply_pixels(old, self.format, self.dimensions.height as int, f)
    }

    pub fn new(buffer: Vec<u8>, dimensions: Dimension, format: FramebufferFormat) -> (r: Framebuffer)
        ensures
            r.buffer@ == buffer@,
            r.dimensions == dimensions,
            r.format == format,
    {
        Framebuffer { buffer, dimensions, format }
    }

    pub fn format(&self) -> (r: &FramebufferFormat)
        ensures
            *r == self.format,
    {
        &self.format
    }

    pub fn buffer(&self) -> (r: &[u8])
        ensures
            r@ == self.buffer@,
    {
        self.buffer.as_slice()
    }

    pub fn dimensions(&self) -> (r: Dimension)
        ensures
            r == self.dimensions,
    {
        self.dimensions
    }

    pub fn byte_len(&self) -> (r: usize)
        ensures
            r == self.buffer@.len(),
    {
        self.buffer.len()
    }

    /// Sets every byte to zero.
    pub fn clear(&mut self)
        ensures
            final(self).buffer@ == Seq::new(old(self).buffer@.len(), |i: int| 0u8),
            final(self).dimensions == old(self).dimensions,
            final(self).format == old(self).format,
    {
        let len = self.buffer.len();
        let mut i: usize = 0;
        while i < len
            invariant
                len == self.buffer@.len(),
                self.dimensions == old(self).dimensions,
                self.format == old(self).format,
                len == old(self).buffer@.len(),
                i <= len,
                forall|j: int| 0 <= j < i ==> self.buffer@[j] == 0u8,
            decreases len - i,
        {
            self.buffer.set(i, 0);
            i = i + 1;
        }
        assert(self.buffer@ =~= Seq::new(old(self).buffer@.len(), |i: int| 0u8));
    }

    pub(crate) fn pos_to_offset(&self, pos: &Position) -> (r: i64)
        requires
            self.wf(),
            0 <= pos.x < self.format.stride,
            0 <= pos.y < self.dimensions.height,
        ensures
            r == pixel_offset(self.format, pos.x as int, pos.y as int),
            r >= 0,
            r + self.format.bytes_per_pixel <= self.buffer@.len(),
    {
        let s = self.format.stride;
        let b = self.format.bytes_per_pixel;
        let h = self.dimensions.height;
        let ghost x = pos.x as int;
        let ghost y = pos.y as int;
        proof {
            lemma_offset_bounds(s as int, h as int, b as int, x, y);
        }
        let s64 = s as i64;
        let b64 = b as i64;
        assert(s64 == s && b64 == b);
        let row = pos.y * s64;
        let p = row + pos.x;
        p * b64
    }

    /// Paints the pixel at `position`, which must be inside the buffer's rows.
    fn draw_pixel_unchecked(&mut self, position: &Position, color: &Color)
        requires
            old(self).wf(),
            0 <= position.x < old(self).format.stride,
            0 <= position.y < old(self).dimensions.height,
        ensures
            final(self).buffer@ == paint_pixel(
                old(self).buffer@,
                old(self).format,
                position.x as int,
                position.y as int,
                *color,
            ),
            final(self).dimensions == old(self).dimensions,
            final(self).format == old(self).format,
    {
        let off = self.pos_to_offset(position);
        let len = self.buffer.len();
        assert(off < len);
        let byte_offset = off as usize;
        self.buffer.set(byte_offset + self.format.r_position, color.r);
        self.buffer.set(byte_offset + self.format.g_position, color.g);
        self.buffer.set(byte_offset + self.format.b_position, color.b);
    }

    /// Paints the pixel at `position` if it lies on the screen.
    pub fn draw_pixel(&mut self, position: &Position, color: &Color)
        requires
            old(self).wf(),
        ensures
            final(self).buffer@ == old(self).painted(
                old(self).buffer@,
                pixel_on_screen(
                    *position,
                    old(self).dimensions.width as int,
                    old(self).dimensions.height as int,
                    *color,
                ),
            ),
            final(self).dimensions == old(self).dimensions,
            final(self).format == old(self).format,
    {
        let ghost f = fill(
            position.x as int,
            position.y as int,
            if position.x < self.dimensions.width { position.x + 1 } else { position.x as int },
            if position.y < self.dimensions.height { position.y + 1 } else { position.y as int },
            *color,
        );
        if position.x >= self.dimensions.width as i64 || position.y >= self.dimensions.height as i64
            || position.x < 0 || position.y < 0 {
            proof {
                lemma_apply_ext(self.buffer@, self.format, self.dimensions.height as int, f, |x: int, y: int| None::<Color>);
                lemma_apply_none(self.buffer@, self.format, self.dimensions.height as int);
            }
            return;
        }
        let ghost old_buf = self.buffer@;
        proof {
            let none = |x: int, y: int| None::<Color>;
            lemma_offset_bounds(self.format.stride as int, self.dimensions.height as int, self.format.bytes_per_pixel as int, position.x as int, position.y as int);
            lemma_apply_none(old_buf, self.format, self.dimensions.height as int);
            lemma_paint_pixel(old_buf, self.format, self.dimensions.height as int, none, position.x as int, position.y as int, *color);
            lemma_apply_ext(old_buf, self.format, self.dimensions.height as int, with_pixel(none, position.x as int, position.y as int, *color), f);
            lemma_pixel_index(self.format, position.x as int, position.y as int, 0);
        }
        self.draw_pixel_unchecked(position, color);
    }

    /// Paints an in-range pixel on top of an already painted set of pixels.
    pub(crate) fn paint_over(
        &mut self,
        position: &Position,
        color: &Color,
        Ghost(base): Ghost<Seq<u8>>,
        Ghost(f): Ghost<spec_fn(int, int) -> Option<Color>>,
    )
        requires
            old(self).wf(),
            0 <= position.x < old(self).format.stride,
            0 <= position.y < old(self).dimensions.height,
            old(self).buffer@ == old(self).painted(base, f),
            base.len() == old(self).buffer@.len(),
        ensures
            final(self).buffer@ == old(self).painted(
                base,
                with_pixel(f, position.x as int, position.y as int, *color),
            ),
            final(self).dimensions == old(self).dimensions,
            final(self).format == old(self).format,
    {
        proof {
            lemma_offset_bounds(
                self.format.stride as int,
                self.dimensions.height as int,
                self.format.bytes_per_pixel as int,
                position.x as int,
                position.y as int,
            );
            lemma_paint_pixel(
                base,
                self.format,
                self.dimensions.height as int,
                f,
                position.x as int,
                position.y as int,
                *color,
            );
        }
        self.draw_pixel_unchecked(position, color);
    }

    /// Fills the part of `rect` that lies on the screen.
    pub fn draw_rect(&mut self, rect: &Rect, color: &Color)
        requires
            old(self).wf(),
        ensures
            final(self).buffer@ == old(self).painted(
                old(self).buffer@,
                rect_on_screen(
                    *rect,
                    old(self).dimensions.width as int,
                    old(self).dimensions.height as int,
                    *color,
                ),
            ),
            final(self).dimensions == old(self).dimensions,
            final(self).format == old(self).format,
    {
        let w = self.dimensions.width as i64;
        let h = self.dimensions.height as i64;
        let x0 = clamp_exec(rect.min.x, w);
        let y0 = clamp_exec(rect.min.y, h);
        let x1 = clamp_exec(rect.max.x, w);
        let y1 = clamp_exec(rect.max.y, h);
        let ghost base = self.buffer@;
        let ghost hh = self.dimensions.height as int;
        proof {
            lemma_apply_none(base, self.format, hh);
            lemma_apply_ext(base, self.format, hh, |x: int, y: int| None::<Color>, fill(x0 as int, y0 as int, x1 as int, y0 as int, *color));
        }
        let mut y = y0;
        while y < y1
            invariant
                self.wf(),
                self.dimensions == old(self).dimensions,
                self.format == old(self).format,
                base == old(self).buffer@,
                base.len() == self.buffer@.len(),
                hh == self.dimensions.height,
                w == self.dimensions.width,
                h == self.dimensions.height,
                0 <= x0 <= w,
                0 <= x1 <= w,
                0 <= y0 <= h,
                0 <= y1 <= h,
                y0 <= y <= y1 || (y == y0 && y1 < y0),
                self.buffer@ == self.painted(base, fill(x0 as int, y0 as int, x1 as int, y as int, *color)),
            decreases y1 - y,
        {
            let mut x = x0;
            let ghost row = |px: int, py: int|
                if (x0 <= px < x1 && y0 <= py < y) || (py == y && x0 <= px < x0) {
                    Some(*color)
                } else {
                    None::<Color>
                };
            proof {
                lemma_apply_ext(base, self.format, hh, fill(x0 as int, y0 as int, x1 as int, y as int, *color), row);
            }
            while x < x1
                invariant
                    self.wf(),
                    self.dimensions == old(self).dimensions,
                    self.format == old(self).format,
                    base.len() == self.buffer@.len(),
                    hh == self.dimensions.height,
                    w == self.dimensions.width,
                    h == self.dimensions.height,
                    0 <= x0 <= w,
                    0 <= x1 <= w,
                    0 <= y0 <= y < y1 <= h,
                    x0 <= x <= x1 || (x == x0 && x1 < x0),
                    self.buffer@ == self.painted(
                        base,
                        |px: int, py: int|
                            if (x0 <= px < x1 && y0 <= py < y) || (py == y && x0 <= px < x) {
                                Some(*color)
                            } else {
                                None::<Color>
                            },
                    ),
                decreases x1 - x,
            {
                let ghost cur = |px: int, py: int|
                    if (x0 <= px < x1 && y0 <= py < y) || (py == y && x0 <= px < x) {
                        Some(*color)
                    } else {
                        None::<Color>
                    };
                let ghost next = |px: int, py: int|
                    if (x0 <= px < x1 && y0 <= py < y) || (py == y && x0 <= px < x + 1) {
                        Some(*color)
                    } else {
                        None::<Color>
                    };
                self.paint_over(&Position { x, y }, color, Ghost(base), Ghost(cur));
                proof {
                    lemma_apply_ext(base, self.format, hh, with_pixel(cur, x as int, y as int, *color), next);
                }
                x = x + 1;
            }
            proof {
                let done = |px: int, py: int|
                    if (x0 <= px < x1 && y0 <= py < y) || (py == y && x0 <= px < x) {
                        Some(*color)
                    } else {
                        None::<Color>
                    };
                lemma_apply_ext(base, self.format, hh, done, fill(x0 as int, y0 as int, x1 as int, y + 1, *color));
            }
            y = y + 1;
        }
        proof {
            lemma_apply_ext(base, self.format, hh, fill(x0 as int, y0 as int, x1 as int, y as int, *color), fill(x0 as int, y0 as int, x1 as int, y1 as int, *color));
        }
    }
}


/// A request to the kernel's framebuffer service, by the address of the framebuffer it
/// concerns: open one (filling in the framebuffer at the address), or show the frame at
/// the address.
#[derive(Debug, Clone, Copy, PartialEq, Eq, Structural)]
pub enum FramebufferRequest {
    Open(u64),
    SubmitFrame(u64),
}

/// The service's answer.
#[derive(Debug, Clone, Copy, PartialEq, Eq, Structural)]
pub enum FramebufferResponse {
    OK,
}

/// The words of a request: its kind first (0 to open, 1 to submit), the address last.
pub open spec fn request_words(r: FramebufferRequest) -> (u64, u64, u64, u64) {
    match r {
        FramebufferRequest::Open(a) => (0, 0, 0, a),
        FramebufferRequest::SubmitFrame(a) => (1, 0, 0, a),
    }
}

impl FramebufferRequest {
    pub fn into_message(self) -> (r: (u64, u64, u64, u64))
        ensures
            r == request_words(self),
    {
        match self {
            FramebufferRequest::Open(address) => (0, 0, 0, address),
            FramebufferRequest::SubmitFrame(address) => (1, 0, 0, address),
        }
    }

    /// Reads a request from a message's words; nothing for words of no request.
    pub fn from_message(data: (u64, u64, u64, u64)) -> (r: Option<FramebufferRequest>)
        ensures
            match r {
                Some(req) => request_words(req) == data,
                None => forall|req: FramebufferRequest| request_words(req) != data,
            },
    {
        match data {
            (0, 0, 0, address) => Some(FramebufferRequest::Open(address)),
            (1, 0, 0, address) => Some(FramebufferRequest::SubmitFrame(address)),
            _ => None,
        }
    }
}

impl FramebufferResponse {
    pub fn into_message(self) -> (r: (u64, u64, u64, u64))
        ensures
            r == (0u64, 0u64, 0u64, 0u64),
    {
        match self {
            FramebufferResponse::OK => (0, 0, 0, 0),
        }
    }

    /// Reads an answer from a message's words; nothing unless all are zero.
    pub fn from_message(data: (u64, u64, u64, u64)) -> (r: Option<FramebufferResponse>)
        ensures
            r == (if data == (0u64, 0u64, 0u64, 0u64) {
                Some(FramebufferResponse::OK)
            } else {
                None
            }),
    {
        match data {
            (0, 0, 0, 0) => Some(FramebufferResponse::OK),
            _ => None,
        }
    }
}

/// Reading back the words of a request gives the request.
pub proof fn lemma_request_round_trip(req: FramebufferRequest, words: (u64, u64, u64, u64))
    requires
        words == request_words(req),
    ensures
        forall|other: FramebufferRequest| request_words(other) == words ==> other == req,
{
}

/// Painting changes exactly the painted pixels: byte `k` of the pixel `(x, y)` of one of
/// the first `height` rows, which stands at `(y * stride + x) * bytes_per_pixel + k`,
/// becomes the painted color's blue, green or red byte where `k` is that color's place
/// (blue first where places coincide) and `f` colors the pixel; every other byte keeps
/// its value, and the length is unchanged.
pub proof fn lemma_painted_pixel_bytes(
    fb: Framebuffer,
    old: Seq<u8>,
    f: spec_fn(int, int) -> Option<Color>,
    x: int,
    y: int,
    k: int,
)
    requires
        format_ok(fb.format),
        0 <= x < fb.format.stride,
        0 <= y < fb.dimensions.height,
        0 <= k < fb.format.bytes_per_pixel,
        (y * fb.format.stride + x) * fb.format.bytes_per_pixel + k < old.len(),
    ensures
        fb.painted(old, f).len() == old.len(),
        ({
            let fmt = fb.format;
            let i = (y * fmt.stride + x) * fmt.bytes_per_pixel + k;
            fb.painted(old, f)[i] == match f(x, y) {
                Some(c) => if k == fmt.b_position {
                    c.b
                } else if k == fmt.g_position {
                    c.g
                } else if k == fmt.r_position {
                    c.r
                } else {
                    old[i]
                },
                None => old[i],
            }
        }),
{
    lemma_pixel_index(fb.format, x, y, k);
}

/// Only the on-screen part of a rectangle is filled: an on-screen pixel is colored by
/// the clamped fill exactly when it lies in the rectangle.
pub proof fn lemma_clamped_fill(rect: Rect, w: int, h: int, color: Color, x: int, y: int)
    requires
        0 <= x < w,
        0 <= y < h,
    ensures
        rect_on_screen(rect, w, h, color)(x, y) == if rect.min.x <= x < rect.max.x && rect.min.y <= y < rect.max.y {
            Some(color)
        } else {
            None
        },
{
}

/// Drawing a pixel colors that one pixel of the screen and no other.
pub proof fn lemma_single_pixel(position: Position, w: int, h: int, color: Color, x: int, y: int)
    requires
        0 <= x < w,
        0 <= y < h,
    ensures
        pixel_on_screen(position, w, h, color)(x, y) == if x == position.x && y == position.y {
            Some(color)
        } else {
            None
        },
{
}

} // verus!
