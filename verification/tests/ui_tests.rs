use monos::monos_gfx::framebuffer::{Framebuffer, FramebufferFormat};
use monos::monos_gfx::image::{Image, ImageFormat};
use monos::monos_gfx::input::{Input, Key, KeyEvent, KeyState, RawKey};
use monos::monos_gfx::paint::{PaintFramebuffer, SplatSeed};
use monos::monos_gfx::text::font::Glean;
use monos::monos_gfx::types::{Color, Dimension, Position, Rect};
use monos::monos_gfx::ui::context::UIContext;
use monos::monos_gfx::ui::widgets::{Button, ImageButton, Label, ScrollState, ScrollableLabel, Textbox, TextboxState};
use monos::monos_gfx::text::lines::{Origin, TextWrap};
use monos::monos_gfx::ui::{Direction, MarginMode, Placer};
use monos::monos_gfx::ui::widgets::Lines as MonoLines;

fn blank(width: u32, height: u32) -> Framebuffer {
    Framebuffer::new(
        vec![0u8; (width * height * 3) as usize],
        Dimension::new(width, height),
        FramebufferFormat {
            bytes_per_pixel: 3,
            stride: width as u64,
            r_position: 0,
            g_position: 1,
            b_position: 2,
            a_position: None,
        },
    )
}

fn pixel(fb: &Framebuffer, x: usize, y: usize) -> (u8, u8, u8) {
    let o = (y * fb.dimensions().width as usize + x) * 3;
    let b = fb.buffer();
    (b[o], b[o + 1], b[o + 2])
}

#[test]
fn splat_draws_the_chosen_splash() {
    let splash = Image::new(
        Dimension::new(1, 1),
        ImageFormat::RGB { data: vec![5, 6, 7], alpha_val: None },
    );
    let mut paint = PaintFramebuffer::new(blank(2, 2), vec![splash]);
    let seed = paint.splat(Position::new(1, 0), Color::new(1, 2, 3));
    assert_eq!(seed, SplatSeed(100));
    assert_eq!(paint.seed, SplatSeed(101));
    assert_eq!(pixel(paint.framebuffer(), 1, 0), (5, 6, 7));
    assert_eq!(pixel(paint.framebuffer(), 0, 0), (0, 0, 0));
}

#[test]
fn splat_recolors_a_bitmap_splash() {
    let splash = Image::new(
        Dimension::new(8, 1),
        ImageFormat::Bitmap { data: vec![0xFF], color: Color::new(0, 0, 0) },
    );
    let mut paint = PaintFramebuffer::new(blank(2, 2), vec![splash]);
    paint.splat_seeded(Position::new(0, 0), Color::new(9, 8, 7), SplatSeed(42));
    match &paint.splashes[0].data {
        ImageFormat::Bitmap { color, .. } => assert_eq!(*color, Color::new(9, 8, 7)),
        _ => panic!("splash changed its format"),
    }
    // bitmaps are not drawn
    assert!(paint.framebuffer().buffer().iter().all(|b| *b == 0));
}

fn bounds() -> Rect {
    Rect::new(Position::new(0, 0), Position::new(60, 40))
}

#[test]
fn alloc_space_hovers_and_clicks() {
    let mut input = Input::default();
    input.mouse.position = Position::new(3, 3);
    input.mouse.left_button.clicked = true;
    let mut state: Option<()> = None;
    let mut ctx = UIContext::new(Placer::new(bounds(), Direction::TopToBottom), None, &mut input, &mut state);
    let r = ctx.alloc_space(Dimension::new(10, 10));
    assert!(r.rect.contains(Position::new(3, 3)));
    assert!(r.hovered && r.clicked);
    let below = ctx.alloc_space(Dimension::new(10, 10));
    assert!(!below.hovered && !below.clicked);
    assert!(below.rect.min.y >= r.rect.max.y);
}

#[test]
fn ids_count_up() {
    let mut input = Input::default();
    let mut state: Option<()> = None;
    let mut ctx = UIContext::new(Placer::new(bounds(), Direction::TopToBottom), None, &mut input, &mut state);
    let a = ctx.next_id();
    let b = ctx.next_id();
    assert_ne!(a, b);
    assert_eq!(ctx.auto_id_source, 2);
    let c = ctx.next_id_from_string("ok");
    let d = ctx.next_id_from_string("ok");
    assert_eq!(c, d);
    assert_eq!(ctx.auto_id_source, 4);
}

#[test]
fn image_button_draws_its_image() {
    let img = Image::new(
        Dimension::new(2, 2),
        ImageFormat::RGB { data: vec![50; 12], alpha_val: None },
    );
    let mut fb = blank(60, 40);
    let mut input = Input::default();
    let mut state: Option<()> = None;
    let r = {
        let mut ctx = UIContext::new(Placer::new(bounds(), Direction::TopToBottom), Some(&mut fb), &mut input, &mut state);
        ImageButton::new(&img).draw(&mut ctx)
    };
    let at = Rect::centered_in(r.rect, Dimension::new(2, 2)).min;
    assert_eq!(pixel(&fb, at.x as usize, at.y as usize), (50, 50, 50));
    assert_eq!(pixel(&fb, at.x as usize + 1, at.y as usize + 1), (50, 50, 50));
    assert!(!r.hovered);
}

#[test]
fn button_paints_its_background() {
    let mut fb = blank(60, 40);
    let mut input = Input::default();
    input.mouse.position = Position::new(59, 39);
    let mut state: Option<()> = None;
    let r = {
        let mut ctx = UIContext::new(Placer::new(bounds(), Direction::TopToBottom), Some(&mut fb), &mut input, &mut state);
        Button::<Glean>::new("ok").draw(&mut ctx)
    };
    assert!(!r.hovered);
    let mut white = 0;
    let mut black = 0;
    for y in r.rect.min.y..r.rect.max.y {
        for x in r.rect.min.x..r.rect.max.x {
            match pixel(&fb, x as usize, y as usize) {
                (255, 255, 255) => white += 1,
                (0, 0, 0) => black += 1,
                _ => {}
            }
        }
    }
    assert!(white > 0 && black > 0);
}

#[test]
fn label_draws_white_text() {
    let mut fb = blank(60, 40);
    let mut input = Input::default();
    let mut state: Option<()> = None;
    let r = {
        let mut ctx = UIContext::new(Placer::new(bounds(), Direction::TopToBottom), Some(&mut fb), &mut input, &mut state);
        Label::<Glean>::new("hi").draw(&mut ctx)
    };
    assert_eq!(r.rect.max.x - r.rect.min.x >= 11, true);
    let lit = fb.buffer().chunks(3).filter(|p| p == &[255, 255, 255]).count();
    assert!(lit > 0);
}

#[test]
fn text_field_types_and_draws_its_cursor() {
    let mut fb = blank(60, 40);
    let mut input = Input::default();
    input.keyboard.keys.push(KeyEvent { key: Key::Unicode('h'), state: KeyState::Down });
    input.keyboard.keys.push(KeyEvent { key: Key::Unicode('i'), state: KeyState::Down });
    input.keyboard.keys.push(KeyEvent { key: Key::RawKey(RawKey::Return), state: KeyState::Down });
    let mut state: Option<()> = None;
    let mut text = String::new();
    let mut field = TextboxState { cursor: 0, selection: None };
    let r = {
        let mut ctx = UIContext::new(Placer::new(bounds(), Direction::TopToBottom), Some(&mut fb), &mut input, &mut state);
        let r = Textbox::<Glean>::draw_text(&mut text, TextWrap::Disabled, None, &mut ctx, &mut field);
        assert!(ctx.input.keyboard.keys.is_empty());
        r
    };
    assert_eq!(text, "hi");
    assert_eq!(field.cursor, 2);
    assert!(r.submitted);
    // the cursor stands after the text: a white column at the end of the line
    let origin = Rect::centered_in(r.rect, Dimension::new(11, 10)).min;
    let x = (origin.x + 10) as usize;
    assert_eq!(pixel(&fb, x, origin.y as usize), (255, 255, 255));
    assert_eq!(pixel(&fb, x, origin.y as usize + 9), (255, 255, 255));
}

#[test]
fn grow_fills_cross_axis_both_ways() {
    let area = Rect::new(Position::new(0, 0), Position::new(100, 100));
    for direction in [Direction::LeftToRight, Direction::RightToLeft] {
        let mut p = Placer::new(area, direction);
        p.margin_mode = MarginMode::Grow;
        let r = p.alloc_space(Dimension::new(10, 10));
        assert_eq!(r.full_rect.height(), 100);
    }
    for direction in [Direction::TopToBottom, Direction::BottomToTop] {
        let mut p = Placer::new(area, direction);
        p.margin_mode = MarginMode::Grow;
        let r = p.alloc_space(Dimension::new(10, 10));
        assert_eq!(r.full_rect.max.x, 100);
    }
}

#[test]
fn scrollable_label_scrolls_within_its_text() {
    let mut input = Input::default();
    input.mouse.position = Position::new(5, 5);
    input.mouse.scroll = 100;
    let mut state: Option<()> = None;
    let mut ctx = UIContext::new(Placer::new(bounds(), Direction::TopToBottom), None, &mut input, &mut state);
    let label = ScrollableLabel::<Glean>::new_iter(vec!["a", "b", "c", "d"], Origin::Top).scroll_y(15);
    let start = ScrollState { offset: Position::new(0, 0) };
    let (result, st, lines, lines_rect) = label.place(&mut ctx, start);
    assert!(result.hovered);
    assert_eq!(lines.lines.len(), 4);
    assert_eq!(lines.dimensions.height, 40);
    assert_eq!((lines_rect.min.x, lines_rect.min.y), (result.rect.min.x, result.rect.min.y));
    assert_eq!(lines_rect.height(), 15);
    // scrolled by the wheel, but no further than the text reaches past the rectangle
    assert_eq!(st.offset.y, 25);
    assert_eq!(st.offset.x, 0);
}

#[test]
fn scrollable_label_draws_bar_and_lines() {
    let mut fb = blank(60, 40);
    let label = ScrollableLabel::<Glean>::new("ab", Origin::Top).scroll_y(20).text_color(Color::new(255, 0, 0));
    let mut input = Input::default();
    let mut state: Option<()> = None;
    let (lines, rect) = {
        let mut ctx = UIContext::new(Placer::new(bounds(), Direction::TopToBottom), None, &mut input, &mut state);
        let (_, _, lines, rect) = label.place(&mut ctx, ScrollState { offset: Position::new(0, 0) });
        (lines, rect)
    };
    let st = ScrollState { offset: Position::new(0, 0) };
    label.draw_placed(&mut fb, &lines, rect, st, Some((rect.min.y, 3)));
    let x = (rect.max.x - 1) as usize;
    let y = rect.min.y as usize;
    assert_eq!(pixel(&fb, x, y), (255, 255, 255));
    assert_eq!(pixel(&fb, x, y + 2), (255, 255, 255));
    assert_eq!(pixel(&fb, x, y + 3), (0, 0, 0));
    // some of the text is drawn in red
    let red = (0..40).any(|yy| (0..60).any(|xx| pixel(&fb, xx, yy) == (255, 0, 0)));
    assert!(red);
}

#[test]
fn mono_single_line_is_cut_to_the_width() {
    let l = MonoLines::<Glean>::layout_single_line("hello", 12);
    assert_eq!(l.lines.len(), 1);
    assert_eq!(l.lines[0].text, "he");
    assert_eq!((l.dimensions.width, l.dimensions.height), (10, 10));
    let none = MonoLines::<Glean>::layout_single_line("hello", 3);
    assert!(none.lines.is_empty());
    assert_eq!((none.dimensions.width, none.dimensions.height), (0, 0));
}

#[test]
fn mono_everywhere_counts_full_lines() {
    let l = MonoLines::<Glean>::layout_wrapped_everywhere("abcdefg\nxy", Dimension::new(10, 100));
    let texts: Vec<&str> = l.lines.iter().map(|l| l.text).collect();
    assert_eq!(texts, vec!["ab", "cd", "ef", "g", "xy"]);
    assert_eq!((l.dimensions.width, l.dimensions.height), (10, 40));
}

#[test]
fn mono_wrapped_counts_last_piece_one_more() {
    let l = MonoLines::<Glean>::layout_wrapped("hello world foo", false, Dimension::new(50, 100));
    let texts: Vec<&str> = l.lines.iter().map(|l| l.text).collect();
    assert_eq!(texts, vec!["hello ", "world foo"]);
    assert_eq!((l.dimensions.width, l.dimensions.height), (50, 20));
    let same = MonoLines::<Glean>::layout("hello world foo", TextWrap::Enabled { hyphenate: false }, Dimension::new(50, 100));
    assert_eq!(same.lines.len(), 2);
    let narrow = MonoLines::<Glean>::layout_wrapped("abcdefgh", true, Dimension::new(15, 100));
    let texts: Vec<(&str, bool)> = narrow.lines.iter().map(|l| (l.text, l.hyphenated)).collect();
    assert_eq!(texts, vec![("abc", true), ("def", true), ("gh", false)]);
    assert!(MonoLines::<Glean>::layout_wrapped("abc", false, Dimension::new(4, 100)).lines.is_empty());
}

#[test]
fn mono_char_positions() {
    let l = MonoLines::<Glean>::layout_wrapped("hello world foo", false, Dimension::new(50, 100));
    let p = l.char_position(0);
    assert_eq!((p.x, p.y), (0, 0));
    let p = l.char_position(8);
    assert_eq!((p.x, p.y), (10, 10));
    let p = l.char_position(100);
    assert_eq!((p.x, p.y), (45, 20));
}

#[test]
fn mono_draw_paints_the_text() {
    let mut fb = blank(60, 40);
    let l = MonoLines::<Glean>::layout_wrapped("abcdefgh", true, Dimension::new(15, 100));
    l.draw(&mut fb, Position::new(0, 0), Color::new(255, 0, 0));
    let red = (0..40).any(|y| (0..60).any(|x| pixel(&fb, x, y) == (255, 0, 0)));
    assert!(red);
    // nothing below the three lines
    assert!((30..40).all(|y| (0..60).all(|x| pixel(&fb, x, y) == (0, 0, 0))));
}
