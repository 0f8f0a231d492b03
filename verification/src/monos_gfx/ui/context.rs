use super::{
    alloc_space_fits, spec_alloc_next, spec_alloc_rects, MarginMode, PaddingMode, Placer, UIResult,
};
use crate::monos_gfx::framebuffer::Framebuffer;
use crate::monos_gfx::input::Input;
use crate::monos_gfx::draw::image_drawn;
use crate::monos_gfx::types::{Dimension, Rect};
use super::widgets::{
    ascii_event, key_steps, Button, ImageButton, Label, ScrollState, ScrollableLabel, Textbox,
    TextboxState,
};
use crate::monos_gfx::input::KeyEvent;
use crate::monos_gfx::text::lines::{char_pos_from, end_position_fits, total_len};
use crate::monos_gfx::text::width::text_width;
use vstd::utf8::is_ascii_chars;
use super::{spec_max_width, spec_room, spec_total_gap, total_gap_fits};
use crate::monos_gfx::framebuffer::{clamp0, fill};
use crate::monos_gfx::text::draw_lines::{
    clipped_maps, clipped_ok, draw_fits, draw_maps, lemma_paint_seq_len, line_color, paint_seq,
    spec_prepare,
};
use crate::monos_gfx::text::font::Font;
use crate::monos_gfx::text::lines::{
    everywhere_ends, iter_lines, iter_width, layout_ok, line_views, lines_height,
    spec_layout_lines, spec_layout_width, text_views, ColorMode, Line, Lines, TextWrap,
};
use crate::monos_gfx::types::{fits_i64, Color, Position};
use core::hash::Hasher;
use rustc_hash::FxHasher;
use vstd::prelude::*;

verus! {

/// rustc-hash's hasher.
#[verifier::external_type_specification]
#[verifier::external_body]
pub struct ExFxHasher(FxHasher);

/// `FxHasher::default`: a hasher with nothing written yet.
#[verifier::external_body]
fn fx_hasher() -> (r: FxHasher) {
    FxHasher::default()
}

/// `Hasher::write_u64` on an `FxHasher`: mixes a number into the hash. The hash's value
/// is not modelled (its constant depends on the machine's pointer width), so nothing is
/// stated of it.
#[verifier::external_body]
fn fx_write_u64(hasher: &mut FxHasher, value: u64) {
    hasher.write_u64(value)
}

/// `Hasher::write` on an `FxHasher`: mixes bytes into the hash; nothing is stated of it.
#[verifier::external_body]
fn fx_write(hasher: &mut FxHasher, bytes: &[u8]) {
    hasher.write(bytes)
}

/// `Hasher::finish` on an `FxHasher`: the hash so far; nothing is stated of it.
#[verifier::external_body]
fn fx_finish(hasher: &FxHasher) -> (r: u64) {
    hasher.finish()
}

/// What widgets are drawn with: the placer, the framebuffer (if any), the frame's input,
/// the widgets' kept state and the source of automatic ids.
pub struct UIContext<'a, S> {
    pub placer: Placer,
    pub fb: Option<&'a mut Framebuffer>,
    pub input: &'a mut Input,
    pub state: &'a mut Option<S>,
    pub auto_id_source: u32,
}

impl<'a, S> UIContext<'a, S> {
    /// A context for one frame, with automatic ids counted from zero.
    pub fn new(
        placer: Placer,
        fb: Option<&'a mut Framebuffer>,
        input: &'a mut Input,
        state: &'a mut Option<S>,
    ) -> (r: UIContext<'a, S>)
        ensures
            r.placer == placer,
            r.fb == fb,
            *r.input == *old(input),
            *r.state == *old(state),
            r.auto_id_source == 0,
    {
        UIContext { placer, fb, input, state, auto_id_source: 0 }
    }

    /// Places a widget of the desired size; it is hovered when the mouse is inside its
    /// rectangle, and clicked when it is hovered and the left button was clicked.
    pub fn alloc_space(&mut self, desired_space: Dimension) -> (r: UIResult)
        requires
            alloc_space_fits(old(self).placer, desired_space),
        ensures
            (r.rect, r.full_rect) == spec_alloc_rects(old(self).placer, desired_space),
            final(self).placer == spec_alloc_next(old(self).placer, desired_space),
            r.hovered == r.rect.spec_contains(old(self).input.mouse.position),
            r.clicked == (r.hovered && old(self).input.mouse.left_button.clicked),
            r.id is None,
            !r.submitted,
            final(self).fb == old(self).fb,
            *final(self).input == *old(self).input,
            *final(self).state == *old(self).state,
            final(self).auto_id_source == old(self).auto_id_source,
    {
        let mut result = self.placer.alloc_space(desired_space);
        if result.rect.contains(self.input.mouse.position) {
            result.set_hovered(true);
            if self.input.mouse.left_button.clicked {
                result.set_clicked(true);
            }
        }
        result
    }

    /// A new automatic id: the hash of the next number of the counter.
    pub fn next_id(&mut self) -> (r: u64)
        requires
            old(self).auto_id_source < u32::MAX,
        ensures
            final(self).auto_id_source == old(self).auto_id_source + 1,
            final(self).placer == old(self).placer,
            final(self).fb == old(self).fb,
            *final(self).input == *old(self).input,
            *final(self).state == *old(self).state,
    {
        let mut hasher = fx_hasher();
        self.auto_id_source = self.auto_id_source + 1;
        fx_write_u64(&mut hasher, self.auto_id_source as u64);
        fx_finish(&hasher)
    }

    /// An id made from a text: the hash of its bytes; the counter still moves on.
    pub fn next_id_from_string(&mut self, string: &str) -> (r: u64)
        requires
            old(self).auto_id_source < u32::MAX,
        ensures
            final(self).auto_id_source == old(self).auto_id_source + 1,
            final(self).placer == old(self).placer,
            final(self).fb == old(self).fb,
            *final(self).input == *old(self).input,
            *final(self).state == *old(self).state,
    {
        let mut hasher = fx_hasher();
        fx_write(&mut hasher, string.as_bytes());
        self.auto_id_source = self.auto_id_source + 1;
        fx_finish(&hasher)
    }

    /// Sets how much room the following widgets take.
    pub fn margin(&mut self, mode: MarginMode)
        ensures
            final(self).placer == (Placer { margin_mode: mode, ..old(self).placer }),
            final(self).fb == old(self).fb,
            *final(self).input == *old(self).input,
            *final(self).state == *old(self).state,
            final(self).auto_id_source == old(self).auto_id_source,
    {
        self.placer.margin_mode = mode;
    }

    /// Sets how the following widgets fill their room.
    pub fn padding(&mut self, mode: PaddingMode)
        ensures
            final(self).placer == (Placer { padding_mode: mode, ..old(self).placer }),
            final(self).fb == old(self).fb,
            *final(self).input == *old(self).input,
            *final(self).state == *old(self).state,
            final(self).auto_id_source == old(self).auto_id_source,
    {
        self.placer.padding_mode = mode;
    }

    /// Sets the gap around the following widgets.
    pub fn gap(&mut self, gap: u32)
        ensures
            final(self).placer == (Placer { gap, ..old(self).placer }),
            final(self).fb == old(self).fb,
            *final(self).input == *old(self).input,
            *final(self).state == *old(self).state,
            final(self).auto_id_source == old(self).auto_id_source,
    {
        self.placer.gap = gap;
    }
}

/// What the framebuffer of a context holds after drawing: for a context without one,
/// nothing; else a framebuffer of the same size and layout whose bytes are `bytes`.
pub open spec fn fb_became(before: Option<&mut Framebuffer>, after: Option<&mut Framebuffer>, bytes: Seq<u8>) -> bool {
    match before {
        Some(b) => after matches Some(a) && a.buffer@ == bytes && a.dimensions == b.dimensions
            && a.format == b.format,
        None => after is None,
    }
}

impl<'a> ImageButton<'a> {
    /// Places the button at the image's size and draws the image centered in its place.
    pub fn draw<'c, S>(self, context: &mut UIContext<'c, S>) -> (r: UIResult)
        requires
            alloc_space_fits(old(context).placer, self.image.dimensions),
            Rect::centered_in_fits(
                spec_alloc_rects(old(context).placer, self.image.dimensions).0,
                self.image.dimensions,
            ),
            old(context).fb matches Some(fb) ==> fb.wf(),
        ensures
            (r.rect, r.full_rect) == spec_alloc_rects(old(context).placer, self.image.dimensions),
            final(context).placer == spec_alloc_next(old(context).placer, self.image.dimensions),
            r.hovered == r.rect.spec_contains(old(context).input.mouse.position),
            r.clicked == (r.hovered && old(context).input.mouse.left_button.clicked),
            r.id is None,
            !r.submitted,
            fb_became(
                old(context).fb,
                final(context).fb,
                match old(context).fb {
                    Some(fb) => image_drawn(
                        *fb,
                        *self.image,
                        Rect::spec_centered_in(r.rect, self.image.dimensions).min,
                    ),
                    None => Seq::empty(),
                },
            ),
            *final(context).input == *old(context).input,
            *final(context).state == *old(context).state,
            final(context).auto_id_source == old(context).auto_id_source,
    {
        let dimensions = self.image.dimensions();
        let result = context.alloc_space(dimensions);
        let image_rect = Rect::centered_in(result.rect, dimensions);
        match &mut context.fb {
            Some(fb) => {
                fb.draw_img(self.image, &image_rect.min);
            },
            None => {},
        }
        result
    }
}

/// The bytes of a framebuffer after filling the part of `rect` on its screen.
pub open spec fn rect_filled(fb: Framebuffer, rect: Rect, color: Color) -> Seq<u8> {
    fb.painted(
        fb.buffer@,
        fill(
            clamp0(rect.min.x as int, fb.dimensions.width as int),
            clamp0(rect.min.y as int, fb.dimensions.height as int),
            clamp0(rect.max.x as int, fb.dimensions.width as int),
            clamp0(rect.max.y as int, fb.dimensions.height as int),
            color,
        ),
    )
}

/// The bytes after drawing `lines` from `position` over `bytes` on a framebuffer's screen.
pub open spec fn lines_drawn<'a, F: Font>(
    bytes: Seq<u8>,
    fb: Framebuffer,
    lines: Seq<Line<'a>>,
    position: Position,
    color: ColorMode<'a>,
) -> Seq<u8> {
    paint_seq(
        bytes,
        fb.format,
        fb.dimensions.height as int,
        draw_maps::<F>(lines, position, color, fb.dimensions.width as int, fb.dimensions.height as int),
    )
}

/// The room a placer gives a widget as wide as it may be and unbounded in height.
pub open spec fn button_room(p: Placer) -> Dimension {
    Dimension { width: spec_max_width(p), height: u32::MAX }
}

/// The lines of a button's text, laid out in its room, and their size.
pub open spec fn button_lines<F: Font>(text: &str, p: Placer) -> Seq<(Seq<char>, bool)> {
    spec_layout_lines::<F>(text@, TextWrap::Disabled, button_room(p), 0)
}

pub open spec fn button_size<F: Font>(text: &str, p: Placer) -> Dimension {
    Dimension {
        width: (spec_layout_width::<F>(text@, TextWrap::Disabled, button_room(p), 0) + 1) as u32,
        height: lines_height::<F>(button_lines::<F>(text, p).len()) as u32,
    }
}

/// The background of a button: light grey while hovered, else white.
pub open spec fn button_background(hovered: bool) -> Color {
    if hovered {
        Color { r: 200, g: 200, b: 200 }
    } else {
        Color { r: 255, g: 255, b: 255 }
    }
}

/// The placer's room can be measured without overflowing.
pub open spec fn max_width_fits(p: Placer) -> bool {
    &&& total_gap_fits(p.gap, p.padding_mode)
    &&& fits_i64(p.max_rect.max.x - p.cursor.x)
    &&& fits_i64(p.cursor.x - p.max_rect.min.x)
    &&& fits_i64(spec_room(p) - spec_total_gap(p.gap, p.padding_mode))
}

impl<'a, F: Font> Button<'a, F> {
    /// Places the button at the size of its text and draws it: its background, then the
    /// text in black, centered.
    pub fn draw<'c, S>(self, context: &mut UIContext<'c, S>) -> (r: UIResult)
        requires
            max_width_fits(old(context).placer),
            layout_ok::<F>(self.text),
            spec_layout_width::<F>(self.text@, TextWrap::Disabled, button_room(old(context).placer), 0)
                < u32::MAX,
            lines_height::<F>(button_lines::<F>(self.text, old(context).placer).len()) <= u32::MAX,
            alloc_space_fits(old(context).placer, button_size::<F>(self.text, old(context).placer)),
            Rect::centered_in_fits(
                spec_alloc_rects(old(context).placer, button_size::<F>(self.text, old(context).placer)).0,
                button_size::<F>(self.text, old(context).placer),
            ),
            old(context).fb matches Some(fb) ==> {
                &&& fb.wf()
                &&& F::CHAR_HEIGHT * 256 <= usize::MAX
                &&& (F::glyph('-') matches Some(g) ==> g[0] <= 255 && g[1] <= 255)
                &&& forall|ls: Seq<Line<'a>>|
                    line_views(ls) == button_lines::<F>(self.text, old(context).placer) ==> #[trigger] draw_fits::<F>(
                        ls,
                        Rect::spec_centered_in(
                            spec_alloc_rects(
                                old(context).placer,
                                button_size::<F>(self.text, old(context).placer),
                            ).0,
                            button_size::<F>(self.text, old(context).placer),
                        ).min,
                    )
            },
        ensures
            ({
                let size = button_size::<F>(self.text, old(context).placer);
                &&& (r.rect, r.full_rect) == spec_alloc_rects(old(context).placer, size)
                &&& final(context).placer == spec_alloc_next(old(context).placer, size)
                &&& r.hovered == r.rect.spec_contains(old(context).input.mouse.position)
                &&& r.clicked == (r.hovered && old(context).input.mouse.left_button.clicked)
                &&& r.id is None
                &&& !r.submitted
                &&& exists|ls: Seq<Line<'a>>|
                    line_views(ls) == button_lines::<F>(self.text, old(context).placer)
                        && fb_became(
                        old(context).fb,
                        final(context).fb,
                        match old(context).fb {
                            Some(fb) => lines_drawn::<F>(
                                rect_filled(*fb, r.rect, button_background(r.hovered)),
                                *fb,
                                ls,
                                Rect::spec_centered_in(r.rect, size).min,
                                ColorMode::Single(Color { r: 0, g: 0, b: 0 }),
                            ),
                            None => Seq::empty(),
                        },
                    )
            }),
            *final(context).input == *old(context).input,
            *final(context).state == *old(context).state,
            final(context).auto_id_source == old(context).auto_id_source,
    {
        let ghost p0 = context.placer;
        let max_width = context.placer.max_width();
        let lines = Lines::<F>::layout(self.text, TextWrap::Disabled, Dimension::new(max_width, u32::MAX));
        let line_dimensions = lines.dimensions();
        let result = context.alloc_space(line_dimensions);
        let lines_rect = Rect::centered_in(result.rect, line_dimensions);
        let bg_color = Button::<F>::background(result.hovered);
        match &mut context.fb {
            Some(fb) => {
                fb.draw_rect(&result.rect, &bg_color);
                proof {
                    assert(draw_fits::<F>(lines.lines@, lines_rect.min));
                }
                lines.draw(fb, lines_rect.min, ColorMode::Single(Color::new(0, 0, 0)));
            },
            None => {},
        }
        proof {
            assert(line_views(lines.lines@) == button_lines::<F>(self.text, p0));
        }
        result
    }
}

/// The room a label gets: as wide as the placer allows, as high as the screen (unbounded
/// without a framebuffer).
pub open spec fn label_room(p: Placer, fb: Option<&mut Framebuffer>) -> Dimension {
    Dimension {
        width: spec_max_width(p),
        height: match fb {
            Some(f) => f.dimensions.height,
            None => u32::MAX,
        },
    }
}

/// The texts of a label can be laid out in `room`.
pub open spec fn label_layout_ok<'a, F: Font>(texts: Seq<&'a str>, wrap: TextWrap, room: Dimension) -> bool {
    &&& forall|i: int| 0 <= i < texts.len() ==> layout_ok::<F>(#[trigger] texts[i])
    &&& forall|i: int|
        0 <= i < texts.len() ==> (wrap is Everywhere ==> everywhere_ends::<F>((#[trigger] texts[i])@, room))
    &&& forall|i: int|
        0 <= i < texts.len() ==> spec_layout_width::<F>(
            (#[trigger] texts[i])@,
            wrap,
            room,
            iter_lines::<F>(text_views(texts), i, wrap, room).len() as int,
        ) < u32::MAX
    &&& lines_height::<F>(iter_lines::<F>(text_views(texts), texts.len() as int, wrap, room).len()) <= u32::MAX
}

/// The size of a label's laid out lines.
pub open spec fn label_size<'a, F: Font>(texts: Seq<&'a str>, wrap: TextWrap, room: Dimension) -> Dimension {
    Dimension {
        width: iter_width::<F>(text_views(texts), texts.len() as int, wrap, room),
        height: lines_height::<F>(iter_lines::<F>(text_views(texts), texts.len() as int, wrap, room).len()) as u32,
    }
}

impl<'a, F: Font> Label<'a, F> {
    /// Lays the texts out in the room the placer and the screen give, places the label at
    /// the size of its lines and draws them centered in its place.
    pub fn draw<'c, S>(self, context: &mut UIContext<'c, S>) -> (r: UIResult)
        requires
            max_width_fits(old(context).placer),
            label_layout_ok::<F>(self.text@, self.wrap, label_room(old(context).placer, old(context).fb)),
            alloc_space_fits(
                old(context).placer,
                label_size::<F>(self.text@, self.wrap, label_room(old(context).placer, old(context).fb)),
            ),
            Rect::centered_in_fits(
                spec_alloc_rects(
                    old(context).placer,
                    label_size::<F>(self.text@, self.wrap, label_room(old(context).placer, old(context).fb)),
                ).0,
                label_size::<F>(self.text@, self.wrap, label_room(old(context).placer, old(context).fb)),
            ),
            old(context).fb matches Some(fb) ==> {
                let room = label_room(old(context).placer, old(context).fb);
                let size = label_size::<F>(self.text@, self.wrap, room);
                &&& fb.wf()
                &&& F::CHAR_HEIGHT * 256 <= usize::MAX
                &&& (F::glyph('-') matches Some(g) ==> g[0] <= 255 && g[1] <= 255)
                &&& forall|ls: Seq<Line<'a>>|
                    line_views(ls) == iter_lines::<F>(text_views(self.text@), self.text@.len() as int, self.wrap, room)
                        ==> #[trigger] draw_fits::<F>(
                        ls,
                        Rect::spec_centered_in(spec_alloc_rects(old(context).placer, size).0, size).min,
                    )
            },
        ensures
            ({
                let room = label_room(old(context).placer, old(context).fb);
                let size = label_size::<F>(self.text@, self.wrap, room);
                &&& (r.rect, r.full_rect) == spec_alloc_rects(old(context).placer, size)
                &&& final(context).placer == spec_alloc_next(old(context).placer, size)
                &&& r.hovered == r.rect.spec_contains(old(context).input.mouse.position)
                &&& r.clicked == (r.hovered && old(context).input.mouse.left_button.clicked)
                &&& r.id is None
                &&& !r.submitted
                &&& exists|ls: Seq<Line<'a>>|
                    line_views(ls) == iter_lines::<F>(text_views(self.text@), self.text@.len() as int, self.wrap, room)
                        && fb_became(
                        old(context).fb,
                        final(context).fb,
                        match old(context).fb {
                            Some(fb) => lines_drawn::<F>(
                                fb.buffer@,
                                *fb,
                                ls,
                                Rect::spec_centered_in(r.rect, size).min,
                                self.color,
                            ),
                            None => Seq::empty(),
                        },
                    )
            }),
            *final(context).input == *old(context).input,
            *final(context).state == *old(context).state,
            final(context).auto_id_source == old(context).auto_id_source,
    {
        let ghost room = label_room(context.placer, context.fb);
        let ghost texts = self.text@;
        let ghost wrap0 = self.wrap;
        let Label { text, wrap, color, .. } = self;
        let height = match &context.fb {
            Some(fb) => fb.dimensions().height,
            None => u32::MAX,
        };
        let max_dimensions = Dimension::new(context.placer.max_width(), height);
        assert(max_dimensions == room);
        let lines = Lines::<F>::layout_iter(text, wrap, max_dimensions);
        let line_dimensions = lines.dimensions();
        let result = context.alloc_space(line_dimensions);
        let lines_rect = Rect::centered_in(result.rect, line_dimensions);
        match &mut context.fb {
            Some(fb) => {
                proof {
                    assert(draw_fits::<F>(lines.lines@, lines_rect.min));
                }
                lines.draw(fb, lines_rect.min, color);
            },
            None => {},
        }
        proof {
            assert(line_views(lines.lines@) == iter_lines::<F>(text_views(texts), texts.len() as int, wrap0, room));
        }
        result
    }
}

/// The height of the screen, if there is one.
pub open spec fn fb_height(fb: Option<&mut Framebuffer>) -> Option<u32> {
    match fb {
        Some(f) => Some(f.dimensions.height),
        None => None,
    }
}

/// Everything a scrollable label computes before drawing fits its machine types.
pub open spec fn scroll_place_ok<'a, 'c, F: Font, S>(
    label: ScrollableLabel<'a, F>,
    context: &UIContext<'c, S>,
    state: ScrollState,
) -> bool {
    let md = label.spec_max_dimensions(spec_max_width(context.placer), fb_height(context.fb));
    let td = label.spec_text_dimensions(md);
    let rect = spec_alloc_rects(context.placer, md).0;
    let wheel = context.input.mouse.scroll;
    &&& max_width_fits(context.placer)
    &&& label_layout_ok::<F>(label.label.text@, label.label.wrap, td)
    &&& alloc_space_fits(context.placer, md)
    &&& fits_i64(rect.min.y + md.height) && fits_i64(rect.max.y - md.height)
    &&& fits_i64(state.offset.y + wheel) && fits_i64(state.offset.y - wheel)
    &&& label.spec_lines_rect(rect, md).sides_fit()
}

/// The bytes of `fb` after its scrollbar (if any) is drawn: a white vertical line one
/// pixel left of the right edge of `rect`, from `y` on for `len` pixels.
pub open spec fn scrollbar_drawn(fb: Framebuffer, rect: Rect, bar: Option<(i64, i64)>) -> Seq<u8> {
    match bar {
        Some((y, len)) => {
            let x0 = clamp0(rect.max.x - 1, fb.dimensions.width as int);
            let y0 = clamp0(y as int, fb.dimensions.height as int);
            let y1 = clamp0(y0 + len, fb.dimensions.height as int);
            fb.painted(fb.buffer@, fill(x0, y0, x0 + 1, y1, Color { r: 255, g: 255, b: 255 }))
        },
        None => fb.buffer@,
    }
}

/// The scrollbar's line can be drawn on `fb`.
pub open spec fn scrollbar_ok(fb: Framebuffer, rect: Rect, bar: Option<(i64, i64)>) -> bool {
    match bar {
        Some((y, len)) => {
            let x0 = clamp0(rect.max.x - 1, fb.dimensions.width as int);
            let y0 = clamp0(y as int, fb.dimensions.height as int);
            &&& fits_i64(rect.max.x - 1)
            &&& y0 + len <= i64::MAX && y0 + len >= i64::MIN
            &&& x0 < fb.format.stride || clamp0(y0 + len, fb.dimensions.height as int) <= y0
        },
        None => true,
    }
}

impl<'a, F: Font> ScrollableLabel<'a, F> {
    /// Lays the texts out (unbounded along an axis that scrolls), places the label at its
    /// room's size and follows the mouse wheel: gives the placement, the new scroll state,
    /// the lines and the rectangle they show in.
    pub fn place<'c, S>(&self, context: &mut UIContext<'c, S>, state: ScrollState) -> (r: (
        UIResult,
        ScrollState,
        Lines<'a, F>,
        Rect,
    ))
        requires
            scroll_place_ok::<F, S>(*self, old(context), state),
        ensures
            ({
                let md = self.spec_max_dimensions(
                    spec_max_width(old(context).placer),
                    fb_height(old(context).fb),
                );
                let td = self.spec_text_dimensions(md);
                let (res, st, lines, lines_rect) = r;
                &&& (res.rect, res.full_rect) == spec_alloc_rects(old(context).placer, md)
                &&& final(context).placer == spec_alloc_next(old(context).placer, md)
                &&& res.hovered == res.rect.spec_contains(old(context).input.mouse.position)
                &&& res.clicked == (res.hovered && old(context).input.mouse.left_button.clicked)
                &&& res.id is None
                &&& !res.submitted
                &&& lines@ == iter_lines::<F>(
                    text_views(self.label.text@),
                    self.label.text@.len() as int,
                    self.label.wrap,
                    td,
                )
                &&& lines.dimensions == label_size::<F>(self.label.text@, self.label.wrap, td)
                &&& lines.wf()
                &&& lines_rect == self.spec_lines_rect(res.rect, md)
                &&& st == self.spec_scroll(
                    state,
                    res.hovered,
                    old(context).input.mouse.scroll,
                    lines.dimensions,
                    lines_rect,
                )
            }),
            final(context).fb == old(context).fb,
            *final(context).input == *old(context).input,
            *final(context).state == *old(context).state,
            final(context).auto_id_source == old(context).auto_id_source,
    {
        let height = match &context.fb {
            Some(fb) => Some(fb.dimensions().height),
            None => None,
        };
        let max_dimensions = self.max_dimensions(context.placer.max_width(), height);
        let text_dimensions = self.text_dimensions(max_dimensions);
        let mut texts: Vec<&'a str> = Vec::new();
        let mut i: usize = 0;
        while i < self.label.text.len()
            invariant
                i <= self.label.text@.len(),
                texts@ == self.label.text@.subrange(0, i as int),
            decreases self.label.text@.len() - i,
        {
            texts.push(self.label.text[i]);
            i = i + 1;
        }
        assert(texts@ == self.label.text@);
        let lines = Lines::<F>::layout_iter(texts, self.label.wrap, text_dimensions);
        let line_dimensions = lines.dimensions();
        let result = context.alloc_space(max_dimensions);
        let lines_rect = self.lines_rect(result.rect, max_dimensions);
        let state = self.scroll(
            state,
            result.hovered,
            context.input.mouse.scroll,
            line_dimensions,
            lines_rect,
        );
        (result, state, lines, lines_rect)
    }

    /// Draws a placed label: its scrollbar first, if one is given, then the lines that
    /// show in `rect` scrolled by the state's offset.
    pub fn draw_placed(
        &self,
        fb: &mut Framebuffer,
        lines: &Lines<'a, F>,
        rect: Rect,
        state: ScrollState,
        bar: Option<(i64, i64)>,
    )
        requires
            old(fb).wf(),
            scrollbar_ok(*old(fb), rect, bar),
            clipped_ok::<F>(lines.lines@.len() as int, rect, state.offset, self.origin),
        ensures
            final(fb).dimensions == old(fb).dimensions,
            final(fb).format == old(fb).format,
            ({
                let p = spec_prepare::<F>(lines.lines@.len() as int, rect, state.offset, self.origin);
                final(fb).buffer@ == paint_seq(
                    scrollbar_drawn(*old(fb), rect, bar),
                    old(fb).format,
                    old(fb).dimensions.height as int,
                    clipped_maps::<F>(
                        lines.lines@,
                        p,
                        p.1 - p.0,
                        rect,
                        |k: int| line_color(self.label.color, k),
                        old(fb).dimensions.width as int,
                        old(fb).dimensions.height as int,
                    ),
                )
            }),
    {
        match bar {
            Some((y, len)) => {
                fb.draw_vert_line(Position::new(rect.max.x - 1, y), len, &Color::new(255, 255, 255));
            },
            None => {},
        }
        lines.draw_clipped(fb, rect, state.offset, self.origin, self.label.color);
    }
}

/// The bytes after filling the part of `rect` on a framebuffer's screen over `bytes`.
pub open spec fn rect_filled_over(bytes: Seq<u8>, fb: Framebuffer, rect: Rect, color: Color) -> Seq<u8> {
    fb.painted(
        bytes,
        fill(
            clamp0(rect.min.x as int, fb.dimensions.width as int),
            clamp0(rect.min.y as int, fb.dimensions.height as int),
            clamp0(rect.max.x as int, fb.dimensions.width as int),
            clamp0(rect.max.y as int, fb.dimensions.height as int),
            color,
        ),
    )
}

/// What a text field's keys leave: its text, its cursor and whether return was pressed.
pub open spec fn typed(text: Seq<char>, cursor: usize, events: Seq<KeyEvent>, limit: Option<usize>) -> (Seq<char>, int, bool) {
    let start = if cursor < text.len() {
        cursor as int
    } else {
        text.len() as int
    };
    key_steps((text, start, false), events, limit)
}

/// The lines of a text field's text and their size.
pub open spec fn field_lines<F: Font>(text: Seq<char>, wrap: TextWrap, room: Dimension) -> Seq<(Seq<char>, bool)> {
    spec_layout_lines::<F>(text, wrap, room, 0)
}

pub open spec fn field_size<F: Font>(text: Seq<char>, wrap: TextWrap, room: Dimension) -> Dimension {
    Dimension {
        width: (spec_layout_width::<F>(text, wrap, room, 0) + 1) as u32,
        height: lines_height::<F>(field_lines::<F>(text, wrap, room).len()) as u32,
    }
}

/// Where the cursor of a text field is drawn: one pixel wide and a line high, at the
/// position of its character in the lines drawn from `origin`.
pub open spec fn cursor_rect<F: Font>(lines: Seq<(Seq<char>, bool)>, origin: Position, cursor: int) -> Rect {
    let p = char_pos_from::<F>(lines, 0, 0, cursor);
    let x = origin.x + p.x;
    let y = origin.y + p.y;
    Rect {
        min: Position { x: x as i64, y: y as i64 },
        max: Position { x: (x + 1) as i64, y: (y + F::CHAR_HEIGHT) as i64 },
    }
}

/// A text field can be drawn: its keys keep the text ASCII and countable, the text that
/// results can be laid out, placed and drawn with its cursor.
pub open spec fn field_ok<'c, F: Font, S>(
    text: Seq<char>,
    wrap: TextWrap,
    limit: Option<usize>,
    context: &UIContext<'c, S>,
    cursor: usize,
) -> bool {
    let events = context.input.keyboard.keys@;
    let end = typed(text, cursor, events, limit);
    let room = label_room(context.placer, context.fb);
    let lines = field_lines::<F>(end.0, wrap, room);
    let size = field_size::<F>(end.0, wrap, room);
    let origin = Rect::spec_centered_in(spec_alloc_rects(context.placer, size).0, size).min;
    &&& is_ascii_chars(text)
    &&& forall|i: int| 0 <= i < events.len() ==> ascii_event(#[trigger] events[i])
    &&& text.len() + events.len() <= usize::MAX
    &&& max_width_fits(context.placer)
    &&& end.0.len() < usize::MAX
    &&& text_width::<F>(end.0) <= usize::MAX
    &&& F::CHAR_WIDTH > 0
    &&& F::CHAR_HEIGHT > 0
    &&& (wrap is Everywhere ==> everywhere_ends::<F>(end.0, room))
    &&& spec_layout_width::<F>(end.0, wrap, room, 0) < u32::MAX
    &&& lines_height::<F>(lines.len()) <= u32::MAX
    &&& alloc_space_fits(context.placer, size)
    &&& Rect::centered_in_fits(spec_alloc_rects(context.placer, size).0, size)
    &&& (context.fb matches Some(fb) ==> {
        let p = char_pos_from::<F>(lines, 0, 0, end.1);
        &&& fb.wf()
        &&& F::CHAR_HEIGHT * 256 <= usize::MAX
        &&& (F::glyph('-') matches Some(g) ==> g[0] <= 255 && g[1] <= 255)
        &&& forall|ls: Seq<Line>| line_views(ls) == lines ==> #[trigger] draw_fits::<F>(ls, origin)
        &&& total_len(lines) <= usize::MAX
        &&& end_position_fits::<F>(lines)
        &&& fits_i64(origin.x + p.x)
        &&& fits_i64(origin.y + p.y)
        &&& fits_i64(origin.x + p.x + 1)
        &&& fits_i64(origin.y + p.y + F::CHAR_HEIGHT)
    })
}

impl<'a, F: Font> Textbox<'a, F> {
    /// Draws a text field: applies the frame's key events to the text and the cursor
    /// (taking them from the input), lays the text out in the room the placer and the
    /// screen give, places it at the size of its lines, draws it centered in white and
    /// then its cursor; the result tells whether return was pressed.
    pub fn draw_text<'c, S>(
        text: &mut String,
        wrap: TextWrap,
        char_limit: Option<usize>,
        context: &mut UIContext<'c, S>,
        state: &mut TextboxState,
    ) -> (r: UIResult)
        requires
            field_ok::<F, S>(old(text)@, wrap, char_limit, old(context), old(state).cursor),
        ensures
            ({
                let events = old(context).input.keyboard.keys@;
                let end = typed(old(text)@, old(state).cursor, events, char_limit);
                let room = label_room(old(context).placer, old(context).fb);
                let lines = field_lines::<F>(end.0, wrap, room);
                let size = field_size::<F>(end.0, wrap, room);
                let origin = Rect::spec_centered_in(r.rect, size).min;
                let white = Color { r: 255, g: 255, b: 255 };
                &&& final(text)@ == end.0
                &&& final(state).cursor == end.1
                &&& final(state).selection == old(state).selection
                &&& final(context).input.keyboard.keys@.len() == 0
                &&& final(context).input.mouse == old(context).input.mouse
                &&& (r.rect, r.full_rect) == spec_alloc_rects(old(context).placer, size)
                &&& final(context).placer == spec_alloc_next(old(context).placer, size)
                &&& r.hovered == r.rect.spec_contains(old(context).input.mouse.position)
                &&& r.clicked == (r.hovered && old(context).input.mouse.left_button.clicked)
                &&& r.submitted == end.2
                &&& r.id is None
                &&& exists|ls: Seq<Line>|
                    line_views(ls) == lines && fb_became(
                        old(context).fb,
                        final(context).fb,
                        match old(context).fb {
                            Some(fb) => rect_filled_over(
                                lines_drawn::<F>(fb.buffer@, *fb, ls, origin, ColorMode::Single(white)),
                                *fb,
                                cursor_rect::<F>(lines, origin, end.1),
                                white,
                            ),
                            None => Seq::empty(),
                        },
                    )
            }),
            *final(context).state == *old(context).state,
            final(context).auto_id_source == old(context).auto_id_source,
    {
        let ghost p0 = context.placer;
        let ghost fb0 = context.fb;
        let ghost text0 = text@;
        let events = context.input.keyboard.keys.clone();
        assert(events@ == old(context).input.keyboard.keys@);
        context.input.keyboard.clear();
        let submitted = Textbox::<F>::handle_keys(text, char_limit, state, events.as_slice());
        let height = match &context.fb {
            Some(fb) => fb.dimensions().height,
            None => u32::MAX,
        };
        let max_dimensions = Dimension::new(context.placer.max_width(), height);
        let ghost room = label_room(p0, fb0);
        assert(max_dimensions == room);
        let lines = Lines::<F>::layout(text.as_str(), wrap, max_dimensions);
        let line_dimensions = lines.dimensions();
        let mut result = context.alloc_space(line_dimensions);
        result.submitted = submitted;
        let lines_rect = Rect::centered_in(result.rect, line_dimensions);
        match &mut context.fb {
            Some(fb) => {
                proof {
                    assert(draw_fits::<F>(lines.lines@, lines_rect.min));
                }
                let ghost before = fb.buffer@;
                lines.draw(fb, lines_rect.min, ColorMode::Single(Color::new(255, 255, 255)));
                proof {
                    lemma_paint_seq_len(
                        before,
                        fb.format,
                        fb.dimensions.height as int,
                        draw_maps::<F>(
                            lines.lines@,
                            lines_rect.min,
                            ColorMode::Single(Color { r: 255, g: 255, b: 255 }),
                            fb.dimensions.width as int,
                            fb.dimensions.height as int,
                        ),
                    );
                }
                let cursor = lines.char_position(state.cursor);
                let cursor_pos = Position::new(lines_rect.min.x + cursor.x, lines_rect.min.y + cursor.y);
                let cursor_rect = Rect::new(
                    cursor_pos,
                    Position::new(cursor_pos.x + 1, cursor_pos.y + F::CHAR_HEIGHT as i64),
                );
                fb.draw_rect(&cursor_rect, &Color::new(255, 255, 255));
            },
            None => {},
        }
        proof {
            assert(line_views(lines.lines@) == field_lines::<F>(text@, wrap, room));
        }
        result
    }
}

} // verus!
