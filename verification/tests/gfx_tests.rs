use monos::monos_gfx::framebuffer::{Framebuffer, FramebufferFormat};
use monos::monos_gfx::image::netpbm::{parse_header, read_number, PBMLoader, PPMLoader};
use monos::monos_gfx::image::{Image, ImageFormat};
use monos::monos_gfx::input::{
    Key, KeyEvent, KeyState, KeyboardInput, MouseButtonState, MouseFlags, MouseInput, MouseState,
    RawKey,
};
use monos::monos_gfx::paint::SplatSeed;
use monos::monos_gfx::text::font::Glean;
use monos::monos_gfx::text::lines::{char_width, Line, Lines, TextWrap};
use monos::monos_gfx::text::split::text_lines;
use monos::monos_gfx::types::{Color, Dimension, Edge, Position, Rect};
use monos::monos_gfx::ui::widgets::{Button, Textbox, TextboxState};

fn rgb_format(width: u64) -> FramebufferFormat {
    FramebufferFormat {
        bytes_per_pixel: 3,
        stride: width,
        r_position: 0,
        g_position: 1,
        b_position: 2,
        a_position: None,
    }
}

fn blank(width: u32, height: u32) -> Framebuffer {
    Framebuffer::new(
        vec![0u8; (width * height * 3) as usize],
        Dimension::new(width, height),
        rgb_format(width as u64),
    )
}

fn pixel(fb: &Framebuffer, x: usize, y: usize) -> (u8, u8, u8) {
    let w = fb.dimensions().width as usize;
    let o = (y * w + x) * 3;
    let b = fb.buffer();
    (b[o], b[o + 1], b[o + 2])
}

#[test]
fn rect_geometry() {
    let r = Rect::new(Position::new(2, 3), Position::new(12, 9));
    assert_eq!(r.width(), 10);
    assert_eq!(r.height(), 6);
    assert_eq!(r.dimensions(), Dimension::new(10, 6));
    assert!(r.contains(Position::new(2, 3)));
    assert!(!r.contains(Position::new(12, 3)));
    let c = r.center();
    assert_eq!((c.x, c.y), (7, 6));
    let s = r.shrink(1);
    assert_eq!((s.min.x, s.min.y, s.max.x, s.max.y), (3, 4, 11, 8));
    let t = r.translate(Position::new(-2, 1));
    assert_eq!((t.min.x, t.min.y, t.max.x, t.max.y), (0, 4, 10, 10));
}

#[test]
fn rect_centered_rounds_down() {
    let parent = Rect::from_dimensions(Dimension::new(11, 10));
    let r = Rect::centered_in(parent, Dimension::new(4, 4));
    assert_eq!((r.min.x, r.min.y, r.max.x, r.max.y), (3, 3, 7, 7));
}

#[test]
fn rect_intersections_and_edges() {
    let a = Rect::new(Position::new(0, 0), Position::new(10, 10));
    let b = Rect::new(Position::new(5, -5), Position::new(8, 2));
    assert!(b.intersects(&a));
    assert_eq!(b.intersects_edge(&a), Some(Edge::Top));
    let c = Rect::new(Position::new(8, 3), Position::new(12, 5));
    assert_eq!(c.intersects_edge(&a), Some(Edge::Right));
    let far = Rect::new(Position::new(20, 20), Position::new(30, 30));
    assert!(!far.intersects(&a));
    assert_eq!(far.intersects_edge(&a), None);
    // touching edges do not intersect
    let touching = Rect::new(Position::new(10, 0), Position::new(20, 10));
    assert!(!touching.intersects(&a));
}

#[test]
fn draw_pixel_paints_one_pixel() {
    let mut fb = blank(4, 3);
    fb.draw_pixel(&Position::new(1, 2), &Color::new(10, 20, 30));
    assert_eq!(pixel(&fb, 1, 2), (10, 20, 30));
    assert_eq!(pixel(&fb, 0, 2), (0, 0, 0));
    assert_eq!(pixel(&fb, 1, 1), (0, 0, 0));
    // off screen: nothing changes
    let before = fb.buffer().to_vec();
    fb.draw_pixel(&Position::new(4, 0), &Color::new(1, 1, 1));
    fb.draw_pixel(&Position::new(-1, 0), &Color::new(1, 1, 1));
    assert_eq!(fb.buffer(), before.as_slice());
}

#[test]
fn draw_rect_is_clipped_to_the_screen() {
    let mut fb = blank(4, 4);
    fb.draw_rect(&Rect::new(Position::new(-2, 2), Position::new(2, 9)), &Color::new(255, 0, 0));
    for y in 0..4 {
        for x in 0..4 {
            let expect = if x < 2 && y >= 2 { (255, 0, 0) } else { (0, 0, 0) };
            assert_eq!(pixel(&fb, x, y), expect);
        }
    }
}

#[test]
fn framebuffer_clear_zeroes() {
    let mut fb = Framebuffer::new(vec![7u8; 12], Dimension::new(2, 2), rgb_format(2));
    fb.clear();
    assert!(fb.buffer().iter().all(|b| *b == 0));
    assert_eq!(fb.byte_len(), 12);
}

#[test]
fn draw_box_outlines() {
    let mut fb = blank(5, 5);
    fb.draw_box(&Rect::new(Position::new(0, 0), Position::new(5, 5)), &Color::new(9, 9, 9));
    assert_eq!(pixel(&fb, 0, 0), (9, 9, 9));
    assert_eq!(pixel(&fb, 4, 4), (9, 9, 9));
    assert_eq!(pixel(&fb, 2, 0), (9, 9, 9));
    assert_eq!(pixel(&fb, 0, 2), (9, 9, 9));
    assert_eq!(pixel(&fb, 2, 2), (0, 0, 0));
}

#[test]
fn draw_vert_line_stops_at_the_edge() {
    let mut fb = blank(3, 4);
    fb.draw_vert_line(Position::new(1, 2), 5, &Color::new(1, 2, 3));
    assert_eq!(pixel(&fb, 1, 1), (0, 0, 0));
    assert_eq!(pixel(&fb, 1, 2), (1, 2, 3));
    assert_eq!(pixel(&fb, 1, 3), (1, 2, 3));
    assert_eq!(pixel(&fb, 0, 3), (0, 0, 0));
}

#[test]
fn rgb_image_pixels_and_transparency() {
    let data = vec![1, 2, 3, 0, 0, 0, 7, 8, 9, 10, 11, 12];
    let img = Image::new(
        Dimension::new(2, 2),
        ImageFormat::RGB { data, alpha_val: Some(Color::new(0, 0, 0)) },
    );
    assert_eq!(img.get_pixel(Position::new(0, 0)), Color::new(1, 2, 3));
    assert_eq!(img.get_pixel(Position::new(1, 1)), Color::new(10, 11, 12));
    let mut fb = Framebuffer::new(vec![5u8; 27], Dimension::new(3, 3), rgb_format(3));
    fb.draw_img(&img, &Position::new(1, 1));
    assert_eq!(pixel(&fb, 1, 1), (1, 2, 3));
    // the transparent pixel leaves the screen as it was
    assert_eq!(pixel(&fb, 2, 1), (5, 5, 5));
    assert_eq!(pixel(&fb, 1, 2), (7, 8, 9));
    assert_eq!(pixel(&fb, 2, 2), (10, 11, 12));
    assert_eq!(pixel(&fb, 0, 0), (5, 5, 5));
}

#[test]
fn bitmap_image_pixels() {
    let img = Image::new(
        Dimension::new(10, 1),
        ImageFormat::Bitmap { data: vec![0b1000_0001, 0b0100_0000], color: Color::new(4, 5, 6) },
    );
    assert_eq!(img.get_pixel(Position::new(0, 0)), Color::new(4, 5, 6));
    assert_eq!(img.get_pixel(Position::new(1, 0)), Color::new(0, 0, 0));
    assert_eq!(img.get_pixel(Position::new(7, 0)), Color::new(4, 5, 6));
    assert_eq!(img.get_pixel(Position::new(9, 0)), Color::new(4, 5, 6));
    assert_eq!(img.get_pixel(Position::new(8, 0)), Color::new(0, 0, 0));
}

#[test]
fn set_transparent_color_changes_alpha() {
    let mut img = Image::new(
        Dimension::new(1, 1),
        ImageFormat::RGB { data: vec![1, 1, 1], alpha_val: None },
    );
    img.set_transparent_color(Color::new(1, 1, 1));
    match &img.data {
        ImageFormat::RGB { alpha_val, .. } => assert_eq!(*alpha_val, Some(Color::new(1, 1, 1))),
        _ => panic!("format changed"),
    }
}

#[test]
fn draw_fb_copies_and_scales() {
    let mut src = blank(2, 1);
    src.draw_pixel(&Position::new(0, 0), &Color::new(3, 3, 3));
    src.draw_pixel(&Position::new(1, 0), &Color::new(4, 4, 4));
    let mut dst = blank(4, 2);
    dst.draw_fb(&src, &Position::new(1, 1));
    assert_eq!(pixel(&dst, 1, 1), (3, 3, 3));
    assert_eq!(pixel(&dst, 2, 1), (4, 4, 4));
    assert_eq!(pixel(&dst, 0, 1), (0, 0, 0));
    let mut big = blank(4, 2);
    big.draw_fb_scaled(&src, &Position::new(0, 0), 2);
    assert_eq!(pixel(&big, 0, 0), (3, 3, 3));
    assert_eq!(pixel(&big, 1, 1), (3, 3, 3));
    assert_eq!(pixel(&big, 2, 0), (4, 4, 4));
    assert_eq!(pixel(&big, 3, 1), (4, 4, 4));
}

#[test]
fn read_number_splits_digits() {
    let (n, rest) = read_number(b"123 45");
    assert_eq!(n, 123);
    assert_eq!(rest, b" 45");
    let (n, rest) = read_number(b"x9");
    assert_eq!(n, 0);
    assert_eq!(rest, b"x9");
}

#[test]
fn parse_header_reads_size() {
    let data = b"P6\n2 1\n255\nabcdef";
    let (dim, rest) = parse_header(data, b"P6").unwrap();
    assert_eq!(dim, Dimension::new(2, 1));
    assert_eq!(&rest[..4], b"255\n");
    assert!(parse_header(data, b"P4").is_none());
}

#[test]
fn ppm_image_loads() {
    let data = b"P6\n2 2\n255\n\x01\x02\x03\x04\x05\x06\x07\x08\x09\x0a\x0b\x0c";
    let img = PPMLoader.load_image(data).unwrap();
    assert_eq!(img.dimensions(), Dimension::new(2, 2));
    assert_eq!(img.get_pixel(Position::new(0, 0)), Color::new(1, 2, 3));
    assert_eq!(img.get_pixel(Position::new(1, 0)), Color::new(4, 5, 6));
    assert_eq!(img.get_pixel(Position::new(0, 1)), Color::new(7, 8, 9));
    assert_eq!(img.get_pixel(Position::new(1, 1)), Color::new(10, 11, 12));
    assert!(PBMLoader.load_image(data).is_none());
    assert!(Image::detect_format(b"GIF89a").is_none());
    assert!(Image::from_ppm(data).is_some());
    assert!(Image::detect_format(data).is_some());
}

#[test]
fn pbm_image_loads() {
    let mut data = b"P4\n16 8\n".to_vec();
    let mut pixels = [0u8; 16];
    pixels[0] = 0xF0;
    pixels[15] = 0x01;
    data.extend_from_slice(&pixels);
    let img = Image::from_pbm(&data).unwrap();
    assert_eq!(img.dimensions(), Dimension::new(16, 8));
    assert_eq!(img.get_pixel(Position::new(0, 0)), Color::new(255, 255, 255));
    assert_eq!(img.get_pixel(Position::new(3, 0)), Color::new(255, 255, 255));
    assert_eq!(img.get_pixel(Position::new(4, 0)), Color::new(0, 0, 0));
    assert_eq!(img.get_pixel(Position::new(15, 7)), Color::new(255, 255, 255));
    assert_eq!(img.get_pixel(Position::new(14, 7)), Color::new(0, 0, 0));
    assert!(PPMLoader.load_image(&data).is_none());
}

#[test]
fn glean_widths() {
    assert_eq!(char_width::<Glean>('a'), 5);
    assert_eq!(char_width::<Glean>('!'), 3);
    assert_eq!(char_width::<Glean>(' '), 5);
}

#[test]
fn layout_without_wrapping_cuts_the_line() {
    let lines = Lines::<Glean>::layout("hello", TextWrap::Disabled, Dimension::new(12, 100));
    let l = lines.iter();
    assert_eq!(l.len(), 1);
    assert_eq!(l[0].text, "he");
    assert!(!l[0].hyphenated);
    assert_eq!(lines.dimensions(), Dimension::new(11, 10));
}

#[test]
fn layout_iter_one_line_per_text() {
    let lines = Lines::<Glean>::layout_iter(vec!["hi", "ab"], TextWrap::Disabled, Dimension::new(100, 100));
    let l = lines.iter();
    assert_eq!(l.len(), 2);
    assert_eq!(l[0].text, "hi");
    assert_eq!(l[1].text, "ab");
    assert_eq!(lines.dimensions(), Dimension::new(11, 20));
}

#[test]
fn layout_wraps_long_words() {
    let lines = Lines::<Glean>::layout("abab", TextWrap::Everywhere, Dimension::new(10, 100));
    let l = lines.iter();
    assert_eq!(l.len(), 2);
    assert_eq!(l[0].text, "ab");
    assert_eq!(l[1].text, "ab");
}

#[test]
fn layout_of_empty_text_is_one_line_high() {
    let lines = Lines::<Glean>::layout("", TextWrap::Disabled, Dimension::new(10, 10));
    assert_eq!(lines.dimensions().height, 10);
}

#[test]
fn text_lines_splits_on_newlines() {
    let v = text_lines("a\nbc\n");
    assert_eq!(v, vec!["a", "bc"]);
}

#[test]
fn draw_str_paints_a_hyphen() {
    let mut fb = blank(8, 12);
    fb.draw_str::<Glean>(&Color::new(200, 200, 200), "-", &Position::new(1, 1));
    // the hyphen glyph covers x = 1..4 on its row 5
    assert_eq!(pixel(&fb, 2, 6), (200, 200, 200));
    assert_eq!(pixel(&fb, 4, 6), (200, 200, 200));
    assert_eq!(pixel(&fb, 1, 6), (0, 0, 0));
    assert_eq!(pixel(&fb, 2, 2), (0, 0, 0));
}

#[test]
fn splat_seed_counts_up_and_wraps() {
    let mut s = SplatSeed(5);
    assert_eq!(s.next(), SplatSeed(5));
    assert_eq!(s, SplatSeed(6));
    let mut m = SplatSeed(u64::MAX);
    assert_eq!(m.next(), SplatSeed(u64::MAX));
    assert_eq!(m, SplatSeed(0));
}

#[test]
fn mouse_flags_bits() {
    let f = MouseFlags::new(0b0000_1101);
    assert!(f.left_button());
    assert!(!f.right_button());
    assert!(f.middle_button());
    assert!(f.is_valid());
    assert_eq!(f.as_u8(), 0b1101);
}

#[test]
fn mouse_button_click_only_on_press() {
    let mut b = MouseButtonState::default();
    b.update(true);
    assert!(b.clicked && b.pressed);
    b.update(true);
    assert!(!b.clicked && b.pressed);
    b.update(false);
    assert!(!b.clicked && !b.pressed);
}

#[test]
fn mouse_moves_within_bounds() {
    let mut m = MouseInput::default();
    let bounds = Rect::new(Position::new(0, 0), Position::new(100, 50));
    m.update_new(MouseState { x: 30, y: -20, scroll: 1, flags: MouseFlags::new(0b1001) }, bounds);
    assert_eq!((m.position.x, m.position.y), (30, 20));
    assert!(m.left_button.clicked);
    assert!(m.moved());
    m.update_new(MouseState { x: 200, y: -200, scroll: 0, flags: MouseFlags::new(0b1000) }, bounds);
    assert_eq!((m.position.x, m.position.y), (100, 50));
    assert!(!m.left_button.pressed);
    assert_eq!(m.scroll, 1);
    m.clear();
    assert!(!m.moved());
    assert_eq!(m.scroll, 0);
    assert_eq!((m.position.x, m.position.y), (100, 50));
}

fn down(key: Key) -> KeyEvent {
    KeyEvent { key, state: KeyState::Down }
}

#[test]
fn keyboard_consume_key() {
    let mut k = KeyboardInput { keys: vec![down(Key::Unicode('a')), down(Key::RawKey(RawKey::Return))] };
    assert!(k.pressed(Key::Unicode('a')));
    assert!(!k.pressed(Key::Unicode('b')));
    assert_eq!(k.consume_key(Key::RawKey(RawKey::Return)), Some(KeyState::Down));
    assert!(!k.pressed(Key::RawKey(RawKey::Return)));
    assert_eq!(k.consume_key(Key::RawKey(RawKey::Return)), None);
    assert_eq!(k.consume(), Some(down(Key::Unicode('a'))));
    assert_eq!(k.consume(), None);
}

#[test]
fn textbox_edits_text() {
    let mut text = String::from("ac");
    let mut state = TextboxState { cursor: 1, selection: None };
    let events = [
        down(Key::Unicode('b')),
        KeyEvent { key: Key::Unicode('x'), state: KeyState::Up },
        down(Key::RawKey(RawKey::ArrowRight)),
        down(Key::RawKey(RawKey::Backspace)),
        down(Key::RawKey(RawKey::Return)),
    ];
    let submitted = Textbox::<Glean>::handle_keys(&mut text, None, &mut state, &events);
    assert_eq!(text, "ab");
    assert_eq!(state.cursor, 2);
    assert!(submitted);
}

#[test]
fn textbox_respects_char_limit() {
    let mut text = String::from("ab");
    let mut state = TextboxState { cursor: 9, selection: None };
    let events = [down(Key::Unicode('c')), down(Key::RawKey(RawKey::ArrowLeft)), down(Key::RawKey(RawKey::Delete))];
    let submitted = Textbox::<Glean>::handle_keys(&mut text, Some(2), &mut state, &events);
    assert_eq!(text, "a");
    assert_eq!(state.cursor, 1);
    assert!(!submitted);
}

#[test]
fn button_background_follows_hover() {
    assert_ne!(Button::<Glean>::background(true), Button::<Glean>::background(false));
}

#[test]
fn draw_line_leaves_out_the_end() {
    let mut fb = blank(5, 4);
    fb.draw_line(&Position::new(0, 0), &Position::new(3, 0), &Color::new(1, 1, 1));
    assert_eq!(pixel(&fb, 0, 0), (1, 1, 1));
    assert_eq!(pixel(&fb, 2, 0), (1, 1, 1));
    assert_eq!(pixel(&fb, 3, 0), (0, 0, 0));
    fb.draw_line(&Position::new(0, 0), &Position::new(1, 3), &Color::new(2, 2, 2));
    assert_eq!(pixel(&fb, 0, 1), (2, 2, 2));
    assert_eq!(pixel(&fb, 1, 2), (2, 2, 2));
    assert_eq!(pixel(&fb, 1, 1), (0, 0, 0));
    assert_eq!(pixel(&fb, 1, 3), (0, 0, 0));
    // a line to itself draws nothing
    let before = fb.buffer().to_vec();
    fb.draw_line(&Position::new(4, 3), &Position::new(4, 3), &Color::new(7, 7, 7));
    assert_eq!(fb.buffer(), before.as_slice());
}

#[test]
fn draw_line_clips_to_the_screen() {
    let mut fb = blank(3, 3);
    fb.draw_line(&Position::new(-2, 1), &Position::new(5, 1), &Color::new(4, 4, 4));
    for x in 0..3 {
        assert_eq!(pixel(&fb, x, 1), (4, 4, 4));
        assert_eq!(pixel(&fb, x, 0), (0, 0, 0));
    }
}

#[test]
fn clear_region_copies_the_rect() {
    let src = Framebuffer::new(vec![9u8; 48], Dimension::new(4, 4), rgb_format(4));
    let mut fb = blank(4, 4);
    fb.clear_region(&Rect::new(Position::new(1, 1), Position::new(3, 3)), &src);
    for y in 0..4 {
        for x in 0..4 {
            let inside = (1..3).contains(&x) && (1..3).contains(&y);
            assert_eq!(pixel(&fb, x, y), if inside { (9, 9, 9) } else { (0, 0, 0) });
        }
    }
}

#[test]
fn width_at_grows_with_the_prefix() {
    let line = Line { text: "abc", hyphenated: false };
    assert_eq!(line.width_at::<Glean>(1), 5);
    let widths: Vec<u32> = (0..6).map(|i| line.width_at::<Glean>(i)).collect();
    for w in widths.windows(2) {
        assert!(w[0] <= w[1]);
    }
    assert_eq!(line.width_at::<Glean>(3), line.width::<Glean>());
    assert_eq!(line.width_at::<Glean>(100), line.width::<Glean>());
    assert_eq!(line.width_at::<Glean>(0), 0);
}

#[test]
fn width_at_counts_bytes_of_non_ascii_text() {
    let line = Line { text: "aéb", hyphenated: false };
    let a = Line { text: "a", hyphenated: false }.width::<Glean>();
    let ae = Line { text: "aé", hyphenated: false }.width::<Glean>();
    assert_eq!(line.width_at::<Glean>(1), a);
    assert_eq!(line.width_at::<Glean>(3), ae);
    assert!(line.width_at::<Glean>(1) <= line.width_at::<Glean>(3));
    assert_eq!(line.width_at::<Glean>(4), line.width::<Glean>());
    assert_eq!(line.width_at::<Glean>(50), line.width::<Glean>());
}
