use crate::monos_gfx::image::Image;
use crate::monos_gfx::input::{Key, KeyEvent, KeyState, RawKey};
use crate::monos_gfx::text::font::Font;
use crate::monos_gfx::text::lines::{ColorMode, Origin, TextWrap};
use crate::monos_gfx::types::{fits_i64, Color, Dimension, Position, Rect};
use core::marker::PhantomData;
pub use super::widget_lines::Lines;
use vstd::prelude::*;
use vstd::utf8::is_ascii_chars;

verus! {

/// `String::insert`: puts `ch` at byte `idx`. On an ASCII string byte and character
/// positions agree; this claims what the documentation says of that case.
#[verifier::external_body]
fn string_insert(s: &mut String, idx: usize, ch: char)
    requires
        is_ascii_chars(old(s)@),
        idx <= old(s)@.len(),
    ensures
        final(s)@ == old(s)@.insert(idx as int, ch),
{
    s.insert(idx, ch)
}

/// `String::remove`: takes out the character at byte `idx`. On an ASCII string byte and
/// character positions agree; this claims what the documentation says of that case.
#[verifier::external_body]
fn string_remove(s: &mut String, idx: usize) -> (r: char)
    requires
        is_ascii_chars(old(s)@),
        idx < old(s)@.len(),
    ensures
        final(s)@ == old(s)@.remove(idx as int),
        r == old(s)@[idx as int],
{
    s.remove(idx)
}

/// A text label.
pub struct Label<'a, F: Font> {
    pub text: Vec<&'a str>,
    pub wrap: TextWrap,
    pub font: PhantomData<F>,
    pub color: ColorMode<'a>,
}

impl<'a, F: Font> Label<'a, F> {
    /// A label of one text, not wrapped, in white.
    pub fn new(text: &'a str) -> (r: Label<'a, F>)
        ensures
            r.text@.len() == 1 && r.text@[0]@ == text@,
            r.wrap is Disabled,
            r.color == ColorMode::Single(Color { r: 255, g: 255, b: 255 }),
    {
        Label { text: vec![text], wrap: TextWrap::Disabled, font: PhantomData, color: ColorMode::default() }
    }

    /// A label of several texts, not wrapped, in white.
    pub fn new_iter(text: Vec<&'a str>) -> (r: Label<'a, F>)
        ensures
            r.text@ == text@,
            r.wrap is Disabled,
            r.color == ColorMode::Single(Color { r: 255, g: 255, b: 255 }),
    {
        Label { text, wrap: TextWrap::Disabled, font: PhantomData, color: ColorMode::default() }
    }

    pub fn wrap(self, wrap: TextWrap) -> (r: Label<'a, F>)
        ensures
            r.text@ == self.text@,
            r.wrap == wrap,
            r.color == self.color,
    {
        Label { wrap, ..self }
    }

    pub fn text_color(self, color: Color) -> (r: Label<'a, F>)
        ensures
            r.text@ == self.text@,
            r.wrap == self.wrap,
            r.color == ColorMode::Single(color),
    {
        Label { color: ColorMode::Single(color), ..self }
    }

    pub fn text_colors(self, colors: &'a [Color]) -> (r: Label<'a, F>)
        ensures
            r.text@ == self.text@,
            r.wrap == self.wrap,
            r.color == ColorMode::PerLine(colors),
    {
        Label { color: ColorMode::PerLine(colors), ..self }
    }
}

/// A label that scrolls when it is larger than its room.
pub struct ScrollableLabel<'a, F: Font> {
    pub label: Label<'a, F>,
    pub scroll_x: Option<u32>,
    pub scroll_y: Option<u32>,
    pub origin: Origin,
}

/// How far a scrollable label is scrolled.
#[derive(Debug, Clone, Copy)]
pub struct ScrollState {
    pub offset: Position,
}

/// `v`, but no more than `hi`, and then no less than 0.
pub open spec fn clamp_offset(v: int, hi: int) -> int {
    let m = if v < hi {
        v
    } else {
        hi
    };
    if m > 0 {
        m
    } else {
        0
    }
}

impl<'a, F: Font> ScrollableLabel<'a, F> {
    pub fn new(text: &'a str, origin: Origin) -> (r: ScrollableLabel<'a, F>)
        ensures
            r.label.text@.len() == 1 && r.label.text@[0]@ == text@,
            r.label.wrap is Disabled,
            r.scroll_x is None,
            r.scroll_y is None,
            r.origin == origin,
    {
        ScrollableLabel { label: Label::new(text), scroll_x: None, scroll_y: None, origin }
    }

    pub fn new_iter(text: Vec<&'a str>, origin: Origin) -> (r: ScrollableLabel<'a, F>)
        ensures
            r.label.text@ == text@,
            r.label.wrap is Disabled,
            r.scroll_x is None,
            r.scroll_y is None,
            r.origin == origin,
    {
        ScrollableLabel { label: Label::new_iter(text), scroll_x: None, scroll_y: None, origin }
    }

    pub fn scroll_x(self, x: u32) -> (r: ScrollableLabel<'a, F>)
        ensures
            r.label == self.label,
            r.scroll_x == Some(x),
            r.scroll_y == self.scroll_y,
            r.origin == self.origin,
    {
        ScrollableLabel { scroll_x: Some(x), ..self }
    }

    pub fn scroll_y(self, y: u32) -> (r: ScrollableLabel<'a, F>)
        ensures
            r.label == self.label,
            r.scroll_x == self.scroll_x,
            r.scroll_y == Some(y),
            r.origin == self.origin,
    {
        ScrollableLabel { scroll_y: Some(y), ..self }
    }

    pub fn wrap(self, wrap: TextWrap) -> (r: ScrollableLabel<'a, F>)
        ensures
            r.label.text@ == self.label.text@,
            r.label.wrap == wrap,
            r.label.color == self.label.color,
            r.scroll_x == self.scroll_x,
            r.scroll_y == self.scroll_y,
            r.origin == self.origin,
    {
        ScrollableLabel { label: self.label.wrap(wrap), ..self }
    }

    pub fn text_color(self, color: Color) -> (r: ScrollableLabel<'a, F>)
        ensures
            r.label.text@ == self.label.text@,
            r.label.wrap == self.label.wrap,
            r.label.color == ColorMode::Single(color),
            r.scroll_x == self.scroll_x,
            r.scroll_y == self.scroll_y,
            r.origin == self.origin,
    {
        ScrollableLabel { label: self.label.text_color(color), ..self }
    }

    pub fn text_colors(self, colors: &'a [Color]) -> (r: ScrollableLabel<'a, F>)
        ensures
            r.label.text@ == self.label.text@,
            r.label.wrap == self.label.wrap,
            r.label.color == ColorMode::PerLine(colors),
            r.scroll_x == self.scroll_x,
            r.scroll_y == self.scroll_y,
            r.origin == self.origin,
    {
        ScrollableLabel { label: self.label.text_colors(colors), ..self }
    }

    /// The room the label takes: its scroll size (or all there is) within `max_width`
    /// and the screen's height (if there is a screen).
    pub open spec fn spec_max_dimensions(self, max_width: u32, fb_height: Option<u32>) -> Dimension {
        Dimension {
            width: match self.scroll_x {
                Some(x) => if x < max_width { x } else { max_width },
                None => max_width,
            },
            height: match (self.scroll_y, fb_height) {
                (Some(y), Some(h)) => if y < h { y } else { h },
                (Some(y), None) => y,
                (None, Some(h)) => h,
                (None, None) => u32::MAX,
            },
        }
    }

    /// The room the text is laid out in: unbounded along an axis that scrolls.
    pub open spec fn spec_text_dimensions(self, max_dimensions: Dimension) -> Dimension {
        Dimension {
            width: if self.scroll_x is None { max_dimensions.width } else { u32::MAX },
            height: if self.scroll_y is None { max_dimensions.height } else { u32::MAX },
        }
    }

    /// Where the lines show: the full width of `rect`, and the room's height from the
    /// top or from the bottom.
    pub open spec fn spec_lines_rect(self, rect: Rect, max_dimensions: Dimension) -> Rect {
        match self.origin {
            Origin::Top => Rect {
                min: rect.min,
                max: Position { x: rect.max.x, y: (rect.min.y + max_dimensions.height) as i64 },
            },
            Origin::Bottom => Rect {
                min: Position { x: rect.min.x, y: (rect.max.y - max_dimensions.height) as i64 },
                max: rect.max,
            },
        }
    }

    /// The offset after a frame: moved by the wheel while hovered (down for text at the
    /// top, up for text at the bottom), then kept between 0 and how far the text reaches
    /// past `lines_rect`.
    pub open spec fn spec_scroll(
        self,
        state: ScrollState,
        hovered: bool,
        wheel: i64,
        line_dimensions: Dimension,
        lines_rect: Rect,
    ) -> ScrollState {
        let y = if hovered {
            match self.origin {
                Origin::Top => state.offset.y + wheel,
                Origin::Bottom => state.offset.y - wheel,
            }
        } else {
            state.offset.y as int
        };
        ScrollState {
            offset: Position {
                x: clamp_offset(state.offset.x as int, line_dimensions.width - lines_rect.spec_width()) as i64,
                y: clamp_offset(y, line_dimensions.height - lines_rect.spec_height()) as i64,
            },
        }
    }

    /// The room the label takes: its scroll size (or all there is) within the room left
    /// in the layout and the screen's height (if there is a screen).
    pub fn max_dimensions(&self, max_width: u32, fb_height: Option<u32>) -> (r: Dimension)
        ensures
            r == self.spec_max_dimensions(max_width, fb_height),
    {
        let x = match self.scroll_x {
            Some(x) => x,
            None => u32::MAX,
        };
        let y = match self.scroll_y {
            Some(y) => y,
            None => u32::MAX,
        };
        let h = match fb_height {
            Some(h) => h,
            None => u32::MAX,
        };
        Dimension::new(
            if x < max_width {
                x
            } else {
                max_width
            },
            if y < h {
                y
            } else {
                h
            },
        )
    }

    /// The room the text is laid out in: unbounded along an axis that scrolls.
    pub fn text_dimensions(&self, max_dimensions: Dimension) -> (r: Dimension)
        ensures
            r == self.spec_text_dimensions(max_dimensions),
    {
        Dimension::new(
            if self.scroll_x.is_none() {
                max_dimensions.width
            } else {
                u32::MAX
            },
            if self.scroll_y.is_none() {
                max_dimensions.height
            } else {
                u32::MAX
            },
        )
    }

    /// Where the lines show: the full width of the widget's rectangle, and its room's
    /// height from the top or the bottom.
    pub fn lines_rect(&self, rect: Rect, max_dimensions: Dimension) -> (r: Rect)
        requires
            fits_i64(rect.min.y + max_dimensions.height),
            fits_i64(rect.max.y - max_dimensions.height),
        ensures
            r == self.spec_lines_rect(rect, max_dimensions),
    {
        match self.origin {
            Origin::Top => Rect::new(
                rect.min,
                Position::new(rect.max.x, rect.min.y + max_dimensions.height as i64),
            ),
            Origin::Bottom => Rect::new(
                Position::new(rect.min.x, rect.max.y - max_dimensions.height as i64),
                rect.max,
            ),
        }
    }

    /// The offset after a frame: scrolled by the mouse wheel while hovered (down for text
    /// at the top, up for text at the bottom), then kept between 0 and how far the text
    /// reaches past the rectangle.
    pub fn scroll(
        &self,
        state: ScrollState,
        hovered: bool,
        wheel: i64,
        line_dimensions: Dimension,
        lines_rect: Rect,
    ) -> (r: ScrollState)
        requires
            fits_i64(state.offset.y + wheel),
            fits_i64(state.offset.y - wheel),
            lines_rect.sides_fit(),
        ensures
            r == self.spec_scroll(state, hovered, wheel, line_dimensions, lines_rect),
    {
        let mut offset = state.offset;
        if hovered {
            match self.origin {
                Origin::Top => {
                    offset.y = offset.y + wheel;
                },
                Origin::Bottom => {
                    offset.y = offset.y - wheel;
                },
            }
        }
        let max_x = line_dimensions.width as i64 - lines_rect.width() as i64;
        let max_y = line_dimensions.height as i64 - lines_rect.height() as i64;
        let x = if offset.x < max_x {
            offset.x
        } else {
            max_x
        };
        let y = if offset.y < max_y {
            offset.y
        } else {
            max_y
        };
        ScrollState {
            offset: Position::new(
                if x > 0 {
                    x
                } else {
                    0
                },
                if y > 0 {
                    y
                } else {
                    0
                },
            ),
        }
    }
}

/// A button with a text on it.
pub struct Button<'a, F: Font> {
    pub text: &'a str,
    pub font: PhantomData<F>,
}

impl<'a, F: Font> Button<'a, F> {
    pub fn new(text: &'a str) -> (r: Button<'a, F>)
        ensures
            r.text@ == text@,
    {
        Button { text, font: PhantomData }
    }

    /// The button's background: lighter grey while hovered, else white.
    pub fn background(hovered: bool) -> (r: Color)
        ensures
            hovered ==> r == (Color { r: 200, g: 200, b: 200 }),
            !hovered ==> r == (Color { r: 255, g: 255, b: 255 }),
    {
        if hovered {
            Color::new(200, 200, 200)
        } else {
            Color::new(255, 255, 255)
        }
    }
}

/// A button showing an image.
pub struct ImageButton<'a> {
    pub image: &'a Image,
}

impl<'a> ImageButton<'a> {
    pub fn new(image: &'a Image) -> (r: ImageButton<'a>)
        ensures
            r.image == image,
    {
        ImageButton { image }
    }
}

/// A text field editing a string.
pub struct Textbox<'a, F: Font> {
    pub text: &'a mut String,
    pub wrap: TextWrap,
    pub char_limit: Option<usize>,
    pub font: PhantomData<F>,
}

/// Where the cursor of a text field is.
#[derive(Debug, Clone, Copy)]
pub struct TextboxState {
    pub cursor: usize,
    pub selection: Option<usize>,
}

/// A key event leaves the text ASCII.
pub open spec fn ascii_event(e: KeyEvent) -> bool {
    e.key matches Key::Unicode(c) ==> '\0' <= c <= '\u{7f}'
}

/// One key event applied to a text, its cursor and whether it was submitted: released
/// keys do nothing; a character is inserted at the cursor (unless the limit is reached);
/// the arrows move the cursor; return submits; backspace and delete remove the character
/// before and at the cursor.
pub open spec fn key_step(
    s: (Seq<char>, int, bool),
    e: KeyEvent,
    limit: Option<usize>,
) -> (Seq<char>, int, bool) {
    let (text, cursor, submitted) = s;
    if e.state == KeyState::Up {
        s
    } else {
        match e.key {
            Key::Unicode(c) => if limit matches Some(l) && text.len() >= l {
                s
            } else {
                (text.insert(cursor, c), cursor + 1, submitted)
            },
            Key::RawKey(RawKey::ArrowLeft) => if cursor > 0 {
                (text, cursor - 1, submitted)
            } else {
                s
            },
            Key::RawKey(RawKey::ArrowRight) => if cursor < text.len() {
                (text, cursor + 1, submitted)
            } else {
                s
            },
            Key::RawKey(RawKey::Return) => (text, cursor, true),
            Key::RawKey(RawKey::Backspace) => if cursor > 0 {
                (text.remove(cursor - 1), cursor - 1, submitted)
            } else {
                s
            },
            Key::RawKey(RawKey::Delete) => if cursor < text.len() {
                (text.remove(cursor), cursor, submitted)
            } else {
                s
            },
            _ => s,
        }
    }
}

/// The events applied in order.
pub open spec fn key_steps(
    s: (Seq<char>, int, bool),
    events: Seq<KeyEvent>,
    limit: Option<usize>,
) -> (Seq<char>, int, bool)
    decreases events.len(),
{
    if events.len() == 0 {
        s
    } else {
        key_step(key_steps(s, events.drop_last(), limit), events.last(), limit)
    }
}

impl<'a, F: Font> Textbox<'a, F> {
    pub fn new(text: &'a mut String) -> (r: Textbox<'a, F>)
        ensures
            r.wrap is Disabled,
            r.char_limit is None,
    {
        Textbox { text, wrap: TextWrap::Disabled, char_limit: None, font: PhantomData }
    }

    pub fn wrap(self, wrap: TextWrap) -> (r: Textbox<'a, F>)
        ensures
            r.wrap == wrap,
            r.char_limit == self.char_limit,
    {
        Textbox { wrap, ..self }
    }

    pub fn char_limit(self, limit: usize) -> (r: Textbox<'a, F>)
        ensures
            r.wrap == self.wrap,
            r.char_limit == Some(limit),
    {
        Textbox { char_limit: Some(limit), ..self }
    }

    /// Applies the key events of a frame to the text and the cursor (first kept within
    /// the text); gives whether return was pressed.
    pub fn handle_keys(text: &mut String, limit: Option<usize>, state: &mut TextboxState, events: &[KeyEvent]) -> (submitted: bool)
        requires
            is_ascii_chars(old(text)@),
            forall|i: int| 0 <= i < events@.len() ==> ascii_event(#[trigger] events@[i]),
            old(text)@.len() + events@.len() <= usize::MAX,
        ensures
            ({
                let start_cursor = if old(state).cursor < old(text)@.len() {
                    old(state).cursor as int
                } else {
                    old(text)@.len() as int
                };
                let end = key_steps((old(text)@, start_cursor, false), events@, limit);
                &&& final(text)@ == end.0
                &&& is_ascii_chars(end.0)
                &&& final(state).cursor == end.1
                &&& submitted == end.2
                &&& final(state).selection == old(state).selection
            }),
    {
        let len = text.as_str().unicode_len();
        if state.cursor > len {
            state.cursor = len;
        }
        let mut submitted = false;
        let mut i: usize = 0;
        while i < events.len()
            invariant
                i <= events@.len(),
                is_ascii_chars(text@),
                forall|k: int| 0 <= k < events@.len() ==> ascii_event(#[trigger] events@[k]),
                text@.len() <= old(text)@.len() + i,
                old(text)@.len() + events@.len() <= usize::MAX,
                state.cursor <= text@.len(),
                state.selection == old(state).selection,
                (text@, state.cursor as int, submitted) == key_steps(
                    (
                        old(text)@,
                        if old(state).cursor < old(text)@.len() {
                            old(state).cursor as int
                        } else {
                            old(text)@.len() as int
                        },
                        false,
                    ),
                    events@.take(i as int),
                    limit,
                ),
            decreases events@.len() - i,
        {
            let event = events[i];
            proof {
                assert(events@.take(i + 1).drop_last() =~= events@.take(i as int));
                assert(ascii_event(events@[i as int]));
            }
            let len = text.as_str().unicode_len();
            if event.state != KeyState::Up {
                match event.key {
                    Key::Unicode(c) => {
                        let blocked = match limit {
                            Some(l) => len >= l,
                            None => false,
                        };
                        if !blocked {
                            string_insert(text, state.cursor, c);
                            state.cursor = state.cursor + 1;
                            proof {
                                assert forall|k: int| 0 <= k < text@.len() implies '\0' <= #[trigger] text@[k] <= '\u{7f}' by {}
                            }
                        }
                    },
                    Key::RawKey(RawKey::ArrowLeft) => {
                        if state.cursor > 0 {
                            state.cursor = state.cursor - 1;
                        }
                    },
                    Key::RawKey(RawKey::ArrowRight) => {
                        if state.cursor < len {
                            state.cursor = state.cursor + 1;
                        }
                    },
                    Key::RawKey(RawKey::Return) => {
                        submitted = true;
                    },
                    Key::RawKey(RawKey::Backspace) => {
                        if state.cursor > 0 {
                            string_remove(text, state.cursor - 1);
                            state.cursor = state.cursor - 1;
                            proof {
                                assert forall|k: int| 0 <= k < text@.len() implies '\0' <= #[trigger] text@[k] <= '\u{7f}' by {}
                            }
                        }
                    },
                    Key::RawKey(RawKey::Delete) => {
                        if state.cursor < len {
                            string_remove(text, state.cursor);
                            proof {
                                assert forall|k: int| 0 <= k < text@.len() implies '\0' <= #[trigger] text@[k] <= '\u{7f}' by {}
                            }
                        }
                    },
                    _ => {},
                }
            }
            i = i + 1;
        }
        proof {
            assert(events@.take(events@.len() as int) =~= events@);
        }
        submitted
    }
}

} // verus!
