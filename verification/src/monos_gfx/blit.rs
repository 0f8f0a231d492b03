use crate::monos_gfx::framebuffer::{apply_pixels, format_ok, lemma_apply_ext, with_pixel, FramebufferFormat};
use crate::monos_gfx::types::{Color, Rect};
use vstd::prelude::*;

verus! {

/// The clip rectangle limited to the screen: its minimum raised to 0 and its maximum
/// lowered to the screen's size, as `(min x, min y, max x, max y)`.
pub open spec fn clip_bounds(clip: Rect, width: int, height: int) -> (int, int, int, int) {
    (
        if clip.min.x < 0 { 0 } else { clip.min.x as int },
        if clip.min.y < 0 { 0 } else { clip.min.y as int },
        if clip.max.x < width { clip.max.x as int } else { width },
        if clip.max.y < height { clip.max.y as int } else { height },
    )
}

/// The pixels of a `w` x `h` source placed with its top left corner at `(px, py)`, kept
/// inside the bounds `b`, of which the rows before `rows` and the first `cols` columns of
/// row `rows` have been drawn. `src(row, column)` is the color of a source pixel, or
/// `None` where it is transparent.
pub open spec fn blit(
    px: int,
    py: int,
    w: int,
    h: int,
    b: (int, int, int, int),
    src: spec_fn(int, int) -> Option<Color>,
    rows: int,
    cols: int,
) -> spec_fn(int, int) -> Option<Color> {
    |sx: int, sy: int|
        {
            let r = sy - py;
            let c = sx - px;
            if 0 <= r < h && 0 <= c < w && (r < rows || (r == rows && c < cols)) && b.0 <= sx < b.2
                && b.1 <= sy < b.3 {
                src(r, c)
            } else {
                None
            }
        }
}

/// The whole source drawn.
pub open spec fn blit_all(
    px: int,
    py: int,
    w: int,
    h: int,
    b: (int, int, int, int),
    src: spec_fn(int, int) -> Option<Color>,
) -> spec_fn(int, int) -> Option<Color> {
    blit(px, py, w, h, b, src, h, 0)
}

/// Drawing source pixel `(r, c)` (or leaving it, where it is transparent or clipped)
/// moves the drawn part on by one pixel.
pub proof fn lemma_blit_next(
    old: Seq<u8>,
    fmt: FramebufferFormat,
    height: int,
    px: int,
    py: int,
    w: int,
    h: int,
    b: (int, int, int, int),
    src: spec_fn(int, int) -> Option<Color>,
    r: int,
    c: int,
)
    requires
        format_ok(fmt),
        0 <= r < h,
        0 <= c < w,
    ensures
        (b.0 <= px + c < b.2 && b.1 <= py + r < b.3 && src(r, c) is Some) ==> apply_pixels(
            old,
            fmt,
            height,
            with_pixel(blit(px, py, w, h, b, src, r, c), px + c, py + r, src(r, c)->0),
        ) == apply_pixels(old, fmt, height, blit(px, py, w, h, b, src, r, c + 1)),
        !(b.0 <= px + c < b.2 && b.1 <= py + r < b.3 && src(r, c) is Some) ==> apply_pixels(
            old,
            fmt,
            height,
            blit(px, py, w, h, b, src, r, c),
        ) == apply_pixels(old, fmt, height, blit(px, py, w, h, b, src, r, c + 1)),
{
    let f = blit(px, py, w, h, b, src, r, c);
    let g = blit(px, py, w, h, b, src, r, c + 1);
    if b.0 <= px + c < b.2 && b.1 <= py + r < b.3 && src(r, c) is Some {
        let fw = with_pixel(f, px + c, py + r, src(r, c)->0);
        assert forall|x: int, y: int| 0 <= x < fmt.stride && 0 <= y < height implies #[trigger] fw(
            x,
            y,
        ) == g(x, y) by {}
        lemma_apply_ext(old, fmt, height, fw, g);
    } else {
        assert forall|x: int, y: int| 0 <= x < fmt.stride && 0 <= y < height implies #[trigger] f(
            x,
            y,
        ) == g(x, y) by {}
        lemma_apply_ext(old, fmt, height, f, g);
    }
}

/// Once a row is done or the rest of it lies right of the bounds, the next row starts.
pub proof fn lemma_blit_row_end(
    old: Seq<u8>,
    fmt: FramebufferFormat,
    height: int,
    px: int,
    py: int,
    w: int,
    h: int,
    b: (int, int, int, int),
    src: spec_fn(int, int) -> Option<Color>,
    r: int,
    c: int,
)
    requires
        format_ok(fmt),
        0 <= c,
        c >= w || px + c >= b.2,
    ensures
        apply_pixels(old, fmt, height, blit(px, py, w, h, b, src, r, c)) == apply_pixels(
            old,
            fmt,
            height,
            blit(px, py, w, h, b, src, r + 1, 0),
        ),
{
    let f = blit(px, py, w, h, b, src, r, c);
    let g = blit(px, py, w, h, b, src, r + 1, 0);
    assert forall|x: int, y: int| 0 <= x < fmt.stride && 0 <= y < height implies #[trigger] f(x, y)
        == g(x, y) by {}
    lemma_apply_ext(old, fmt, height, f, g);
}

/// Once the rows are done or the rest of them lie below the bounds, all is drawn.
pub proof fn lemma_blit_end(
    old: Seq<u8>,
    fmt: FramebufferFormat,
    height: int,
    px: int,
    py: int,
    w: int,
    h: int,
    b: (int, int, int, int),
    src: spec_fn(int, int) -> Option<Color>,
    r: int,
)
    requires
        format_ok(fmt),
        0 <= r <= h || (r == 0 && h < 0),
        r >= h || py + r >= b.3,
    ensures
        apply_pixels(old, fmt, height, blit(px, py, w, h, b, src, r, 0)) == apply_pixels(
            old,
            fmt,
            height,
            blit_all(px, py, w, h, b, src),
        ),
{
    let f = blit(px, py, w, h, b, src, r, 0);
    let g = blit_all(px, py, w, h, b, src);
    assert forall|x: int, y: int| 0 <= x < fmt.stride && 0 <= y < height implies #[trigger] f(x, y)
        == g(x, y) by {}
    lemma_apply_ext(old, fmt, height, f, g);
}

/// Before anything is drawn, no pixel is colored.
pub proof fn lemma_blit_start(
    old: Seq<u8>,
    fmt: FramebufferFormat,
    height: int,
    px: int,
    py: int,
    w: int,
    h: int,
    b: (int, int, int, int),
    src: spec_fn(int, int) -> Option<Color>,
)
    requires
        format_ok(fmt),
    ensures
        apply_pixels(old, fmt, height, blit(px, py, w, h, b, src, 0, 0)) == old,
{
    let f = blit(px, py, w, h, b, src, 0, 0);
    let none = |x: int, y: int| None::<Color>;
    assert forall|x: int, y: int| 0 <= x < fmt.stride && 0 <= y < height implies #[trigger] f(x, y)
        == none(x, y) by {}
    lemma_apply_ext(old, fmt, height, f, none);
    crate::monos_gfx::framebuffer::lemma_apply_none(old, fmt, height);
}

/// A source placed right of the bounds colors nothing.
pub proof fn lemma_blit_right_of(
    old: Seq<u8>,
    fmt: FramebufferFormat,
    height: int,
    px: int,
    py: int,
    w: int,
    h: int,
    b: (int, int, int, int),
    src: spec_fn(int, int) -> Option<Color>,
)
    requires
        format_ok(fmt),
        px >= b.2,
    ensures
        apply_pixels(old, fmt, height, blit_all(px, py, w, h, b, src)) == old,
{
    let f = blit_all(px, py, w, h, b, src);
    let none = |x: int, y: int| None::<Color>;
    assert forall|x: int, y: int| 0 <= x < fmt.stride && 0 <= y < height implies #[trigger] f(x, y)
        == none(x, y) by {}
    lemma_apply_ext(old, fmt, height, f, none);
    crate::monos_gfx::framebuffer::lemma_apply_none(old, fmt, height);
}

} // verus!
