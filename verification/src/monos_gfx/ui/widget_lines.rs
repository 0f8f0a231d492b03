use crate::monos_gfx::text::font::Font;
use crate::monos_gfx::text::lines::{
    chars_per_line, everywhere_ends, layout_ok, line_views, piece_is_piece, spec_everywhere,
    spec_layout_lines, spec_single_line, spec_wrapped, wrap_words, Line, TextWrap,
    lemma_scan_words_bounds,
};
use crate::monos_gfx::text::split::{is_piece_of, split_lines, text_lines};
use crate::monos_gfx::text::wrap::{
    scan_words, chunk_upto, chunks, lemma_wrap_stopped, line_state, seg_lines, wrap_upto,
};
use crate::monos_gfx::text::lines::plain_lines;
use crate::monos_gfx::blit::blit_all;
use crate::monos_gfx::draw_text::{glyph_source, glyphs_of, str_source, widths};
use crate::monos_gfx::framebuffer::Framebuffer;
use crate::monos_gfx::types::{Color, Dimension, Position};
use vstd::string::*;
use core::marker::PhantomData;
use vstd::prelude::*;

verus! {

broadcast use vstd::string::group_string_axioms;

/// Lines laid out for a font whose characters are all `CHAR_WIDTH` wide: sizes are
/// counted in characters and multiplied by the font's cell size.
pub struct Lines<'a, F: Font> {
    pub lines: Vec<Line<'a>>,
    pub dimensions: Dimension,
    pub font: PhantomData<F>,
}

/// The longest of the pieces' lengths, starting from `acc`.
pub open spec fn max_len(acc: int, v: Seq<(Seq<char>, bool)>) -> int
    decreases v.len(),
{
    if v.len() == 0 {
        acc
    } else {
        let m = max_len(acc, v.drop_last());
        if v.last().0.len() > m {
            v.last().0.len() as int
        } else {
            m
        }
    }
}

proof fn lemma_max_len_concat(acc: int, a: Seq<(Seq<char>, bool)>, b: Seq<(Seq<char>, bool)>)
    ensures
        max_len(acc, a + b) == max_len(max_len(acc, a), b),
    decreases b.len(),
{
    if b.len() == 0 {
        assert(a + b =~= a);
    } else {
        lemma_max_len_concat(acc, a, b.drop_last());
        assert((a + b).drop_last() =~= a + b.drop_last());
    }
}

proof fn lemma_max_len_ge(acc: int, v: Seq<(Seq<char>, bool)>)
    ensures
        max_len(acc, v) >= acc,
        forall|i: int| 0 <= i < v.len() ==> max_len(acc, v) >= (#[trigger] v[i]).0.len(),
    decreases v.len(),
{
    if v.len() > 0 {
        lemma_max_len_ge(acc, v.drop_last());
        assert forall|i: int| 0 <= i < v.len() implies max_len(acc, v) >= (#[trigger] v[i]).0.len() by {
            if i < v.len() - 1 {
                assert(v[i] == v.drop_last()[i]);
            }
        }
    }
}

proof fn lemma_max_len_bound(acc: int, v: Seq<(Seq<char>, bool)>, b: int)
    requires
        0 <= acc <= b,
        forall|i: int| 0 <= i < v.len() ==> (#[trigger] v[i]).0.len() <= b,
    ensures
        max_len(acc, v) <= b,
    decreases v.len(),
{
    if v.len() > 0 {
        assert forall|i: int| 0 <= i < v.len() - 1 implies (#[trigger] v.drop_last()[i]).0.len() <= b by {
            assert(v.drop_last()[i] == v[i]);
        }
        lemma_max_len_bound(acc, v.drop_last(), b);
    }
}

proof fn lemma_chunks_short(s: Seq<char>, cpl: int)
    requires
        cpl > 0,
    ensures
        forall|i: int| 0 <= i < chunks(s, cpl).len() ==> (#[trigger] chunks(s, cpl)[i]).len() <= cpl,
    decreases s.len(),
{
    if s.len() > 0 && s.len() > cpl {
        lemma_chunks_short(s.skip(cpl), cpl);
        let c = chunks(s, cpl);
        assert forall|i: int| 0 <= i < c.len() implies (#[trigger] c[i]).len() <= cpl by {
            if i > 0 {
                assert(c[i] == chunks(s.skip(cpl), cpl)[i - 1]);
            }
        }
    }
}

proof fn lemma_chunk_upto_short(src: Seq<Seq<char>>, k: int, cpl: int)
    requires
        cpl > 0,
    ensures
        forall|i: int| 0 <= i < chunk_upto(src, k, cpl).len() ==> (#[trigger] chunk_upto(src, k, cpl)[i]).len() <= cpl,
    decreases k,
{
    if k > 0 {
        lemma_chunk_upto_short(src, k - 1, cpl);
        lemma_chunks_short(src[k - 1], cpl);
        let a = chunk_upto(src, k - 1, cpl);
        let b = chunks(src[k - 1], cpl);
        assert forall|i: int| 0 <= i < (a + b).len() implies (#[trigger] (a + b)[i]).len() <= cpl by {
            if i >= a.len() {
                assert((a + b)[i] == b[i - a.len()]);
            }
        }
    }
}

proof fn lemma_chunks_empty(s: Seq<char>, cpl: int)
    requires
        s.len() == 0,
    ensures
        chunks(s, cpl).len() == 0,
{
}

proof fn lemma_chunk_upto_empty(src: Seq<Seq<char>>, k: int, cpl: int)
    requires
        k <= src.len(),
        forall|i: int| 0 <= i < src.len() ==> (#[trigger] src[i]).len() == 0,
    ensures
        chunk_upto(src, k, cpl).len() == 0,
    decreases k,
{
    if k > 0 {
        lemma_chunk_upto_empty(src, k - 1, cpl);
        lemma_chunks_empty(src[k - 1], cpl);
    }
}

/// Every piece of text cut everywhere is at most a line's characters long.
proof fn lemma_everywhere_short<F: Font>(text: Seq<char>, max_dimensions: Dimension)
    requires
        everywhere_ends::<F>(text, max_dimensions),
    ensures
        ({
            let v = spec_everywhere::<F>(text, max_dimensions);
            let cpl = chars_per_line::<F>(max_dimensions.width);
            &&& cpl == 0 ==> v.len() == 0
            &&& forall|i: int| 0 <= i < v.len() ==> (#[trigger] v[i]).0.len() <= cpl
        }),
{
    let src = split_lines(text);
    let cpl = chars_per_line::<F>(max_dimensions.width);
    let c = chunk_upto(src, src.len() as int, cpl);
    if cpl > 0 {
        lemma_chunk_upto_short(src, src.len() as int, cpl);
    } else {
        lemma_chunk_upto_empty(src, src.len() as int, cpl);
    }
    let v = plain_lines(c);
    assert forall|i: int| 0 <= i < v.len() implies (#[trigger] v[i]).0.len() <= cpl by {
        assert(v[i].0 == c[i]);
    }
}

/// The size of a single line: its characters times the cell width, one cell high; nothing
/// when not even one character fits.
pub open spec fn mono_single_size<F: Font>(text: Seq<char>, max_width: u32) -> Dimension {
    if max_width < F::CHAR_WIDTH {
        Dimension { width: 0, height: 0 }
    } else {
        let cpl = chars_per_line::<F>(max_width);
        let n = if cpl < text.len() { cpl } else { text.len() as int };
        Dimension { width: (F::CHAR_WIDTH * n) as u32, height: F::CHAR_HEIGHT }
    }
}

/// How many full lines of `cpl` characters the first `k` source lines give before their
/// last piece: `(n - 1) / cpl` for a line of `n > 0` characters.
pub open spec fn full_lines_upto(src: Seq<Seq<char>>, k: int, cpl: int) -> int
    decreases k,
{
    if k <= 0 {
        0
    } else {
        full_lines_upto(src, k - 1, cpl) + if src[k - 1].len() > 0 && cpl > 0 {
            (src[k - 1].len() - 1) / cpl
        } else {
            0
        }
    }
}

proof fn lemma_full_lines_grow(src: Seq<Seq<char>>, k: int, j: int, cpl: int)
    requires
        0 <= k <= j,
    ensures
        0 <= full_lines_upto(src, k, cpl) <= full_lines_upto(src, j, cpl),
    decreases j,
{
    if j > k {
        lemma_full_lines_grow(src, k, j - 1, cpl);
        if src[j - 1].len() > 0 && cpl > 0 {
            assert((src[j - 1].len() - 1) / cpl >= 0) by (nonlinear_arith)
                requires
                    src[j - 1].len() > 0,
                    cpl > 0,
            ;
        }
    } else if k > 0 {
        lemma_full_lines_grow(src, k - 1, k - 1, cpl);
        if src[k - 1].len() > 0 && cpl > 0 {
            assert((src[k - 1].len() - 1) / cpl >= 0) by (nonlinear_arith)
                requires
                    src[k - 1].len() > 0,
                    cpl > 0,
            ;
        }
    }
}

/// The size of text cut everywhere: its longest piece in cells, and one cell high plus
/// one more for every full line.
pub open spec fn mono_everywhere_size<F: Font>(text: Seq<char>, max_dimensions: Dimension) -> Dimension {
    let src = split_lines(text);
    let cpl = chars_per_line::<F>(max_dimensions.width);
    Dimension {
        width: (F::CHAR_WIDTH * max_len(0, spec_everywhere::<F>(text, max_dimensions))) as u32,
        height: (F::CHAR_HEIGHT * (1 + full_lines_upto(src, src.len() as int, cpl))) as u32,
    }
}

/// The longest line of word-wrapped text in characters, as the first `k` source lines
/// leave it: each piece counts its length, except the last piece of a source line, which
/// counts the characters after the line's last cut and one more.
pub open spec fn mono_longest_upto(
    src: Seq<Seq<char>>,
    k: int,
    cpl: int,
    hyphenate: bool,
    max_lines: int,
) -> int
    decreases k,
{
    if k <= 0 {
        0
    } else {
        let prev = mono_longest_upto(src, k - 1, cpl, hyphenate, max_lines);
        let (out, stopped) = wrap_upto(src, k - 1, cpl, hyphenate, max_lines, 0);
        if stopped {
            prev
        } else {
            let l = src[k - 1];
            let (segs, ls, lp) = line_state(l, cpl, hyphenate);
            let m = max_len(prev, seg_lines(l, segs));
            if (out + seg_lines(l, segs)).len() >= max_lines {
                m
            } else if ls < l.len() {
                if lp > m {
                    lp
                } else {
                    m
                }
            } else {
                m
            }
        }
    }
}

proof fn lemma_mono_longest_stopped(
    src: Seq<Seq<char>>,
    k: int,
    j: int,
    cpl: int,
    hyphenate: bool,
    max_lines: int,
)
    requires
        0 <= k <= j,
        wrap_upto(src, k, cpl, hyphenate, max_lines, 0).1,
    ensures
        mono_longest_upto(src, j, cpl, hyphenate, max_lines) == mono_longest_upto(src, k, cpl, hyphenate, max_lines),
    decreases j - k,
{
    if j > k {
        lemma_mono_longest_stopped(src, k, j - 1, cpl, hyphenate, max_lines);
        lemma_wrap_stopped(src, k, j - 1, cpl, hyphenate, max_lines, 0);
    }
}

/// The lines of word-wrapped text: the longest in cells wide, and a cell high each.
pub open spec fn mono_wrapped_size<F: Font>(text: Seq<char>, hyphenate: bool, max_dimensions: Dimension) -> Dimension {
    let cpl = chars_per_line::<F>(max_dimensions.width);
    if cpl == 0 {
        Dimension { width: 0, height: 0 }
    } else {
        let src = split_lines(text);
        let longest = mono_longest_upto(
            src,
            src.len() as int,
            cpl,
            hyphenate,
            (max_dimensions.height / F::CHAR_HEIGHT) as int,
        );
        Dimension {
            width: (F::CHAR_WIDTH * longest) as u32,
            height: (F::CHAR_HEIGHT * spec_wrapped::<F>(text, hyphenate, max_dimensions, 0).len()) as u32,
        }
    }
}


/// How many bytes a line's text takes.
pub open spec fn byte_len(l: Line) -> int {
    l.text.spec_bytes().len() as int
}

/// How many bytes the lines take together.
pub open spec fn byte_total(v: Seq<Line>) -> int
    decreases v.len(),
{
    if v.len() == 0 {
        0
    } else {
        byte_total(v.drop_last()) + byte_len(v.last())
    }
}

proof fn lemma_byte_total_prefix(v: Seq<Line>, i: int)
    requires
        0 <= i <= v.len(),
    ensures
        0 <= byte_total(v.take(i)) <= byte_total(v),
    decreases v.len() - i,
{
    if i < v.len() {
        lemma_byte_total_prefix(v, i + 1);
        assert(v.take(i + 1).drop_last() =~= v.take(i));
    } else {
        assert(v.take(i) =~= v);
    }
    lemma_byte_total_nonneg(v.take(i));
}

proof fn lemma_byte_total_nonneg(v: Seq<Line>)
    ensures
        byte_total(v) >= 0,
    decreases v.len(),
{
    if v.len() > 0 {
        lemma_byte_total_nonneg(v.drop_last());
    }
}

/// The cell of the character at byte `index`, searching from line `i` whose first byte has
/// index `curr`: on the first line that reaches `index`, the cells before it; past the
/// end, the end of the last line one line below the text.
pub open spec fn mono_char_pos<F: Font>(v: Seq<Line>, i: int, curr: int, index: int) -> Position
    decreases v.len() - i,
{
    if i >= v.len() || i < 0 {
        Position {
            x: ((if v.len() == 0 { 0 } else { byte_len(v.last()) }) * F::CHAR_WIDTH) as i64,
            y: (v.len() * F::CHAR_HEIGHT) as i64,
        }
    } else if curr + byte_len(v[i]) >= index {
        Position { x: ((index - curr) * F::CHAR_WIDTH) as i64, y: (i * F::CHAR_HEIGHT) as i64 }
    } else {
        mono_char_pos::<F>(v, i + 1, curr + byte_len(v[i]), index)
    }
}

/// Positions in the lines fit their machine types.
pub open spec fn mono_positions_fit<F: Font>(v: Seq<Line>) -> bool {
    &&& byte_total(v) <= usize::MAX
    &&& forall|i: int| 0 <= i < v.len() ==> byte_len(#[trigger] v[i]) * F::CHAR_WIDTH <= i64::MAX
    &&& v.len() * F::CHAR_HEIGHT <= i64::MAX
}

/// The bytes after drawing the first `k` lines over `bytes`, one cell row apart from
/// `position`: each line's text, then a hyphen right after it if it is hyphenated.
pub open spec fn mono_drawn<F: Font>(
    fb: Framebuffer,
    bytes: Seq<u8>,
    v: Seq<Line>,
    k: int,
    position: Position,
    color: Color,
) -> Seq<u8>
    decreases k,
{
    if k <= 0 {
        bytes
    } else {
        let b = mono_drawn::<F>(fb, bytes, v, k - 1, position, color);
        let line = v[k - 1];
        let y = position.y + (k - 1) * F::CHAR_HEIGHT;
        let gs = glyphs_of::<F>(line.text@);
        let b2 = fb.painted(
            b,
            blit_all(
                position.x as int,
                y,
                widths(gs, gs.len() as int),
                F::CHAR_HEIGHT as int,
                (1, 1, fb.dimensions.width as int, fb.dimensions.height as int),
                str_source(gs, color),
            ),
        );
        if line.hyphenated {
            match F::glyph('-') {
                Some(g) => fb.painted(
                    b2,
                    blit_all(
                        position.x + byte_len(line) * F::CHAR_WIDTH,
                        y,
                        g[0] as int,
                        g[1] as int,
                        (0, 0, fb.dimensions.width as int, fb.dimensions.height as int),
                        glyph_source(g, color),
                    ),
                ),
                None => b2,
            }
        } else {
            b2
        }
    }
}

/// Every line can be drawn from `position`: the place after its text, where a hyphen
/// goes, and the row below the last line fit in 64 bits.
pub open spec fn mono_draw_fits<F: Font>(v: Seq<Line>, position: Position) -> bool {
    &&& forall|i: int| 0 <= i < v.len() ==> {
        let x = position.x + byte_len(#[trigger] v[i]) * F::CHAR_WIDTH;
        &&& x <= i64::MAX
        &&& (F::glyph('-') matches Some(g) ==> x + g[0] <= i64::MAX + 1)
    }
    &&& forall|i: int| 0 <= i < v.len() ==> byte_len(#[trigger] v[i]) * F::CHAR_WIDTH <= i64::MAX
        && byte_len(v[i]) <= usize::MAX
    &&& position.y + v.len() * F::CHAR_HEIGHT <= i64::MAX
    &&& (F::glyph('-') matches Some(g) ==> position.y + v.len() * F::CHAR_HEIGHT + g[1] <= i64::MAX + 1)
}

impl<'a, F: Font> Lines<'a, F> {
    pub fn dimensions(&self) -> (r: Dimension)
        ensures
            r == self.dimensions,
    {
        self.dimensions
    }

    pub fn iter(&self) -> (r: &[Line<'a>])
        ensures
            r@ == self.lines@,
    {
        self.lines.as_slice()
    }

    /// The text on one line, cut off after as many characters as fit.
    pub fn layout_single_line(text: &'a str, max_width: u32) -> (r: Self)
        requires
            layout_ok::<F>(text),
        ensures
            line_views(r.lines@) == spec_single_line::<F>(text@, max_width),
            r.dimensions == mono_single_size::<F>(text@, max_width),
    {
        let mut lines: Vec<Line<'a>> = Vec::new();
        crate::monos_gfx::text::lines::Lines::<F>::layout_into(text, &mut lines, TextWrap::Disabled, Dimension::new(max_width, 0));
        if max_width < F::CHAR_WIDTH {
            return Lines { lines, dimensions: Dimension::new(0, 0), font: PhantomData };
        }
        let cpl = (max_width / F::CHAR_WIDTH) as usize;
        let len = text.unicode_len();
        let n = if cpl < len {
            cpl
        } else {
            len
        };
        assert(F::CHAR_WIDTH * n <= max_width) by (nonlinear_arith)
            requires
                n <= max_width / F::CHAR_WIDTH,
                F::CHAR_WIDTH > 0,
        ;
        let width = F::CHAR_WIDTH * n as u32;
        Lines { lines, dimensions: Dimension::new(width, F::CHAR_HEIGHT), font: PhantomData }
    }

    /// Every source line cut into pieces as long as a line holds.
    pub fn layout_wrapped_everywhere(text: &'a str, max_dimensions: Dimension) -> (r: Self)
        requires
            layout_ok::<F>(text),
            everywhere_ends::<F>(text@, max_dimensions),
            F::CHAR_HEIGHT * (1 + full_lines_upto(
                split_lines(text@),
                split_lines(text@).len() as int,
                chars_per_line::<F>(max_dimensions.width),
            )) <= u32::MAX,
        ensures
            line_views(r.lines@) == spec_everywhere::<F>(text@, max_dimensions),
            r.dimensions == mono_everywhere_size::<F>(text@, max_dimensions),
    {
        let mut lines: Vec<Line<'a>> = Vec::new();
        crate::monos_gfx::text::lines::Lines::<F>::layout_into(text, &mut lines, TextWrap::Everywhere, max_dimensions);
        assert(line_views(lines@) =~= spec_everywhere::<F>(text@, max_dimensions));
        let ghost views = line_views(lines@);
        // the longest piece
        let mut longest: usize = 0;
        let mut j: usize = 0;
        while j < lines.len()
            invariant
                j <= lines@.len(),
                views == line_views(lines@),
                longest == max_len(0, views.take(j as int)),
            decreases lines@.len() - j,
        {
            let n = lines[j].text.unicode_len();
            proof {
                assert(views.take(j + 1).drop_last() =~= views.take(j as int));
                assert(views[j as int].0 == lines@[j as int].text@);
            }
            if n > longest {
                longest = n;
            }
            j = j + 1;
        }
        assert(views.take(j as int) =~= views);
        let cpl = (max_dimensions.width / F::CHAR_WIDTH) as usize;
        // the full lines of every source line
        let src = text_lines(text);
        let ghost srcv = src@.map_values(|l: &'a str| l@);
        let ghost total = full_lines_upto(srcv, srcv.len() as int, cpl as int);
        let mut full: u32 = 0;
        let mut k: usize = 0;
        while k < src.len()
            invariant
                k <= src@.len(),
                srcv == src@.map_values(|l: &'a str| l@),
                srcv == split_lines(text@),
                cpl == chars_per_line::<F>(max_dimensions.width),
                total == full_lines_upto(srcv, srcv.len() as int, cpl as int),
                F::CHAR_HEIGHT * (1 + total) <= u32::MAX,
                F::CHAR_HEIGHT > 0,
                full == full_lines_upto(srcv, k as int, cpl as int),
            decreases src@.len() - k,
        {
            let n = src[k].unicode_len();
            assert(srcv[k as int] == src@[k as int]@);
            proof {
                lemma_full_lines_grow(srcv, k + 1, srcv.len() as int, cpl as int);
                assert(total <= F::CHAR_HEIGHT * (1 + total)) by (nonlinear_arith)
                    requires
                        F::CHAR_HEIGHT > 0,
                        total >= 0,
                ;
            }
            if n > 0 && cpl > 0 {
                full = full + ((n - 1) / cpl) as u32;
            }
            k = k + 1;
        }
        proof {
            assert(srcv.len() == src@.len());
            assert(full == total);
            assert(1 + total <= F::CHAR_HEIGHT * (1 + total)) by (nonlinear_arith)
                requires
                    F::CHAR_HEIGHT > 0,
                    total >= 0,
            ;
            lemma_full_lines_grow(srcv, 0, srcv.len() as int, cpl as int);
        }
        let height = F::CHAR_HEIGHT * (1 + full);
        proof {
            lemma_everywhere_short::<F>(text@, max_dimensions);
            if views.len() > 0 {
                lemma_max_len_bound(0, views, cpl as int);
            } else {
                assert(longest == 0);
            }
            assert(F::CHAR_WIDTH * longest <= max_dimensions.width) by (nonlinear_arith)
                requires
                    longest <= cpl,
                    cpl == max_dimensions.width / F::CHAR_WIDTH,
                    F::CHAR_WIDTH > 0,
            ;
        }
        let width = F::CHAR_WIDTH * longest as u32;
        Lines { lines, dimensions: Dimension::new(width, height), font: PhantomData }
    }

    /// Word-wrapped lines: words move to the next line when they do not fit, words longer
    /// than a line are cut (hyphenated if asked), and no source line is begun once the
    /// screen's height is filled.
    pub fn layout_wrapped(text: &'a str, hyphenate: bool, max_dimensions: Dimension) -> (r: Self)
        requires
            layout_ok::<F>(text),
            ({
                let size = mono_wrapped_size::<F>(text@, hyphenate, max_dimensions);
                let cpl = chars_per_line::<F>(max_dimensions.width);
                let src = split_lines(text@);
                cpl > 0 ==> F::CHAR_WIDTH * mono_longest_upto(
                    src,
                    src.len() as int,
                    cpl,
                    hyphenate,
                    (max_dimensions.height / F::CHAR_HEIGHT) as int,
                ) <= u32::MAX && F::CHAR_HEIGHT * spec_wrapped::<F>(text@, hyphenate, max_dimensions, 0).len()
                    <= u32::MAX
            }),
        ensures
            line_views(r.lines@) == spec_wrapped::<F>(text@, hyphenate, max_dimensions, 0),
            r.dimensions == mono_wrapped_size::<F>(text@, hyphenate, max_dimensions),
    {
        let per_line = (max_dimensions.width / F::CHAR_WIDTH) as usize;
        let mut lines: Vec<Line<'a>> = Vec::new();
        if per_line == 0 {
            assert(line_views(lines@) =~= Seq::<(Seq<char>, bool)>::empty());
            return Lines { lines, dimensions: Dimension::new(0, 0), font: PhantomData };
        }
        let max_visible_lines = max_dimensions.height / F::CHAR_HEIGHT;
        let ghost max_lines = max_visible_lines as int;
        let ghost cpl = per_line as int;
        let src = text_lines(text);
        let ghost srcv = src@.map_values(|l: &'a str| l@);
        let mut longest: usize = 0;
        let mut k: usize = 0;
        proof {
            assert(line_views(lines@) =~= wrap_upto(srcv, 0, cpl, hyphenate, max_lines, 0).0);
        }
        while k < src.len()
            invariant_except_break
                !wrap_upto(srcv, k as int, cpl, hyphenate, max_lines, 0).1,
                line_views(lines@) == wrap_upto(srcv, k as int, cpl, hyphenate, max_lines, 0).0,
                longest == mono_longest_upto(srcv, k as int, cpl, hyphenate, max_lines),
            invariant
                layout_ok::<F>(text),
                per_line > 0,
                cpl == per_line,
                max_lines == max_visible_lines,
                srcv == src@.map_values(|l: &'a str| l@),
                forall|i: int| 0 <= i < src@.len() ==> (#[trigger] src@[i]).is_ascii(),
                forall|i: int| 0 <= i < src@.len() ==> is_piece_of((#[trigger] src@[i])@, text@),
                k <= src@.len(),
            ensures
                line_views(lines@) == wrap_upto(srcv, srcv.len() as int, cpl, hyphenate, max_lines, 0).0,
                longest == mono_longest_upto(srcv, srcv.len() as int, cpl, hyphenate, max_lines),
            decreases src@.len() - k,
        {
            let l = src[k];
            let ghost lv = l@;
            assert(srcv[k as int] == lv);
            let ghost prev = wrap_upto(srcv, k as int, cpl, hyphenate, max_lines, 0).0;
            proof {
                let (i0, j0) = choose|i: int, j: int| 0 <= i <= j <= text@.len() && lv == text@.subrange(i, j);
                assert(lv.len() <= text@.len());
            }
            let before = lines.len();
            let (line_start, _w) = wrap_words::<F>(l, &mut lines, per_line, hyphenate, 0, Ghost(text@));
            let ghost st = line_state(lv, cpl, hyphenate);
            let ghost added = seg_lines(lv, st.0);
            let ghost views = line_views(lines@);
            proof {
                assert(views =~= prev + added);
                assert(views.subrange(before as int, views.len() as int) =~= added);
            }
            let ghost prev_longest = longest as int;
            let mut j = before;
            while j < lines.len()
                invariant
                    before <= j <= lines@.len(),
                    views == line_views(lines@),
                    longest == max_len(prev_longest, views.subrange(before as int, j as int)),
                decreases lines@.len() - j,
            {
                let n = lines[j].text.unicode_len();
                proof {
                    assert(views.subrange(before as int, j + 1).drop_last() =~= views.subrange(
                        before as int,
                        j as int,
                    ));
                    assert(views[j as int].0 == lines@[j as int].text@);
                }
                if n > longest {
                    longest = n;
                }
                j = j + 1;
            }
            assert(longest == max_len(prev_longest, added));
            if lines.len() >= max_visible_lines as usize {
                proof {
                    assert(wrap_upto(srcv, k + 1, cpl, hyphenate, max_lines, 0) == (prev + added, true));
                    lemma_wrap_stopped(srcv, k + 1, srcv.len() as int, cpl, hyphenate, max_lines, 0);
                    lemma_mono_longest_stopped(srcv, k + 1, srcv.len() as int, cpl, hyphenate, max_lines);
                }
                break;
            }
            let llen = l.unicode_len();
            if line_start < llen {
                let piece = l.substring_ascii(line_start, llen);
                let ghost before_push = lines@;
                lines.push(Line { text: piece, hyphenated: false });
                proof {
                    lemma_scan_words_bounds(lv, llen + 1int, cpl, hyphenate);
                    assert(scan_words(lv, llen + 1int, cpl, hyphenate).1 == llen + 1);
                    assert(line_views(lines@) =~= line_views(before_push).push((piece@, false)));
                    assert(line_views(lines@) =~= (prev + added).push((piece@, false)));
                }
                let lp = llen - line_start + 1;
                if lp > longest {
                    longest = lp;
                }
            }
            k = k + 1;
        }
        proof {
            assert(srcv.len() == src@.len());
            assert(srcv == split_lines(text@));
            assert(line_views(lines@) == spec_wrapped::<F>(text@, hyphenate, max_dimensions, 0));
            assert(line_views(lines@).len() == lines@.len());
            assert(chars_per_line::<F>(max_dimensions.width) == cpl);
            assert(cpl > 0);
            assert(F::CHAR_HEIGHT * spec_wrapped::<F>(text@, hyphenate, max_dimensions, 0).len() <= u32::MAX);
            assert(F::CHAR_WIDTH * longest <= u32::MAX);
            let cw = F::CHAR_WIDTH as int;
            let ch = F::CHAR_HEIGHT as int;
            let lg = longest as int;
            let n = lines@.len() as int;
            assert(lg <= cw * lg) by (nonlinear_arith)
                requires
                    cw > 0,
                    lg >= 0,
            ;
            assert(n <= ch * n) by (nonlinear_arith)
                requires
                    ch > 0,
                    n >= 0,
            ;
            assert(n * ch == ch * n) by (nonlinear_arith);
            assert(n <= u32::MAX);
        }
        let width = F::CHAR_WIDTH * longest as u32;
        let count = lines.len() as u32;
        assert(count as int == lines@.len());
        let height = count * F::CHAR_HEIGHT;
        assert(width == (F::CHAR_WIDTH * mono_longest_upto(split_lines(text@), split_lines(text@).len() as int, cpl, hyphenate, max_lines)) as u32);
        assert(height == (F::CHAR_HEIGHT * spec_wrapped::<F>(text@, hyphenate, max_dimensions, 0).len()) as u32);
        Lines { lines, dimensions: Dimension::new(width, height), font: PhantomData }
    }

    /// Lays a text out as `wrap` says.
    pub fn layout(text: &'a str, wrap: TextWrap, max_dimensions: Dimension) -> (r: Self)
        requires
            layout_ok::<F>(text),
            match wrap {
                TextWrap::Disabled => true,
                TextWrap::Enabled { hyphenate } => {
                    let cpl = chars_per_line::<F>(max_dimensions.width);
                    let src = split_lines(text@);
                    cpl > 0 ==> F::CHAR_WIDTH * mono_longest_upto(
                        src,
                        src.len() as int,
                        cpl,
                        hyphenate,
                        (max_dimensions.height / F::CHAR_HEIGHT) as int,
                    ) <= u32::MAX && F::CHAR_HEIGHT * spec_wrapped::<F>(
                        text@,
                        hyphenate,
                        max_dimensions,
                        0,
                    ).len() <= u32::MAX
                },
                TextWrap::Everywhere => everywhere_ends::<F>(text@, max_dimensions) && F::CHAR_HEIGHT * (1
                    + full_lines_upto(
                    split_lines(text@),
                    split_lines(text@).len() as int,
                    chars_per_line::<F>(max_dimensions.width),
                )) <= u32::MAX,
            },
        ensures
            line_views(r.lines@) == spec_layout_lines::<F>(text@, wrap, max_dimensions, 0),
            r.dimensions == match wrap {
                TextWrap::Disabled => mono_single_size::<F>(text@, max_dimensions.width),
                TextWrap::Enabled { hyphenate } => mono_wrapped_size::<F>(text@, hyphenate, max_dimensions),
                TextWrap::Everywhere => mono_everywhere_size::<F>(text@, max_dimensions),
            },
    {
        match wrap {
            TextWrap::Disabled => Self::layout_single_line(text, max_dimensions.width),
            TextWrap::Enabled { hyphenate } => Self::layout_wrapped(text, hyphenate, max_dimensions),
            TextWrap::Everywhere => Self::layout_wrapped_everywhere(text, max_dimensions),
        }
    }

    /// Where the character at byte `index` of the laid out text is drawn, counting every
    /// character as one cell; past the end, right of the last line and one line below.
    pub fn char_position(&self, index: usize) -> (r: Position)
        requires
            mono_positions_fit::<F>(self.lines@),
            F::CHAR_WIDTH > 0,
            F::CHAR_HEIGHT > 0,
        ensures
            r == mono_char_pos::<F>(self.lines@, 0, 0, index as int),
    {
        let n = self.lines.len();
        let ghost v = self.lines@;
        let mut curr_index: usize = 0;
        let mut i: usize = 0;
        proof {
            lemma_byte_total_prefix(v, 0);
            assert(v.take(0) =~= Seq::<Line>::empty());
        }
        while i < n
            invariant
                n == v.len(),
                v == self.lines@,
                i <= n,
                mono_positions_fit::<F>(v),
                F::CHAR_WIDTH > 0,
                F::CHAR_HEIGHT > 0,
                curr_index == byte_total(v.take(i as int)),
                curr_index <= index,
                mono_char_pos::<F>(v, i as int, curr_index as int, index as int)
                    == mono_char_pos::<F>(v, 0, 0, index as int),
            decreases n - i,
        {
            let len = self.lines[i].text.len();
            proof {
                lemma_byte_total_prefix(v, i as int + 1);
                assert(v.take(i as int + 1).drop_last() =~= v.take(i as int));
                assert(len == byte_len(v[i as int]));
            }
            if curr_index + len >= index {
                let char_index = index - curr_index;
                proof {
                    assert(char_index * F::CHAR_WIDTH <= len * F::CHAR_WIDTH) by (nonlinear_arith)
                        requires
                            char_index <= len,
                    ;
                    assert(char_index <= char_index * F::CHAR_WIDTH) by (nonlinear_arith)
                        requires
                            F::CHAR_WIDTH > 0,
                    ;
                    assert(i <= i * F::CHAR_HEIGHT) by (nonlinear_arith)
                        requires
                            F::CHAR_HEIGHT > 0,
                    ;
                    assert(i * F::CHAR_HEIGHT <= n * F::CHAR_HEIGHT) by (nonlinear_arith)
                        requires
                            i <= n,
                    ;
                }
                return Position::new(
                    char_index as i64 * F::CHAR_WIDTH as i64,
                    i as i64 * F::CHAR_HEIGHT as i64,
                );
            }
            curr_index = curr_index + len;
            i = i + 1;
        }
        let last = if n == 0 {
            0
        } else {
            proof {
                lemma_byte_total_nonneg(v.drop_last());
                assert(v.last() == v[n - 1]);
                let b = byte_len(v[n - 1]);
                assert(b * F::CHAR_WIDTH <= i64::MAX);
                assert(b <= b * F::CHAR_WIDTH) by (nonlinear_arith)
                    requires
                        F::CHAR_WIDTH > 0,
                        b >= 0,
                ;
            }
            let l = self.lines[n - 1].text.len();
            assert(l == byte_len(v[n - 1]));
            l
        };
        proof {
            if n > 0 {
                assert(v.last() == v[n - 1]);
                assert(last == byte_len(v.last()));
                assert(byte_len(v[n - 1]) * F::CHAR_WIDTH <= i64::MAX);
            }
            assert(last <= last * F::CHAR_WIDTH) by (nonlinear_arith)
                requires
                    F::CHAR_WIDTH > 0,
            ;
            assert(n <= n * F::CHAR_HEIGHT) by (nonlinear_arith)
                requires
                    F::CHAR_HEIGHT > 0,
            ;
        }
        Position::new(last as i64 * F::CHAR_WIDTH as i64, n as i64 * F::CHAR_HEIGHT as i64)
    }

    /// Draws the lines one cell row apart from `position`, each followed by a hyphen if it
    /// is hyphenated.
    pub fn draw(&self, fb: &mut Framebuffer, position: Position, color: Color)
        requires
            old(fb).wf(),
            F::CHAR_WIDTH > 0,
            F::CHAR_HEIGHT * 256 <= usize::MAX,
            mono_draw_fits::<F>(self.lines@, position),
        ensures
            final(fb).dimensions == old(fb).dimensions,
            final(fb).format == old(fb).format,
            final(fb).buffer@ == mono_drawn::<F>(
                *old(fb),
                old(fb).buffer@,
                self.lines@,
                self.lines@.len() as int,
                position,
                color,
            ),
    {
        let ghost fb0 = *fb;
        let ghost v = self.lines@;
        let mut curr_position = position;
        let mut i: usize = 0;
        while i < self.lines.len()
            invariant
                v == self.lines@,
                i <= v.len(),
                fb.wf(),
                F::CHAR_WIDTH > 0,
                F::CHAR_HEIGHT * 256 <= usize::MAX,
                mono_draw_fits::<F>(v, position),
                fb.dimensions == fb0.dimensions,
                fb.format == fb0.format,
                fb.buffer@ == mono_drawn::<F>(fb0, fb0.buffer@, v, i as int, position, color),
                curr_position.x == position.x,
                curr_position.y == position.y + i * F::CHAR_HEIGHT,
            decreases v.len() - i,
        {
            proof {
                let b = byte_len(v[i as int]);
                assert(b * F::CHAR_WIDTH <= i64::MAX);
                assert(b <= b * F::CHAR_WIDTH) by (nonlinear_arith)
                    requires
                        F::CHAR_WIDTH > 0,
                        b >= 0,
                ;
            }
            let len = self.lines[i].text.len();
            proof {
                assert(position.x + byte_len(v[i as int]) * F::CHAR_WIDTH <= i64::MAX);
                assert(F::CHAR_WIDTH * len == len * F::CHAR_WIDTH) by (nonlinear_arith);
                assert(len * F::CHAR_WIDTH >= 0) by (nonlinear_arith);
                assert(len == byte_len(v[i as int]));
                assert(len <= len * F::CHAR_WIDTH) by (nonlinear_arith)
                    requires
                        F::CHAR_WIDTH > 0,
                ;
            }
            fb.draw_str::<F>(&color, self.lines[i].text, &curr_position);
            curr_position.x = curr_position.x + F::CHAR_WIDTH as i64 * len as i64;
            proof {
                assert(i * F::CHAR_HEIGHT <= v.len() * F::CHAR_HEIGHT) by (nonlinear_arith)
                    requires
                        i <= v.len(),
                ;
                assert((i + 1) * F::CHAR_HEIGHT == i * F::CHAR_HEIGHT + F::CHAR_HEIGHT) by (nonlinear_arith);
                assert(i * F::CHAR_HEIGHT >= 0) by (nonlinear_arith);
                let x = position.x + byte_len(v[i as int]) * F::CHAR_WIDTH;
                assert(F::glyph('-') matches Some(g) ==> x + g[0] <= i64::MAX + 1);
            }
            if self.lines[i].hyphenated {
                fb.draw_char::<F>(&color, '-', &curr_position);
            }
            curr_position.x = position.x;
            proof {
                assert((i + 1) * F::CHAR_HEIGHT <= v.len() * F::CHAR_HEIGHT) by (nonlinear_arith)
                    requires
                        i + 1 <= v.len(),
                ;
            }
            curr_position.y = curr_position.y + F::CHAR_HEIGHT as i64;
            i = i + 1;
        }
    }
}

} // verus!
