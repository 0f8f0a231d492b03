use super::font::{Character, Font};
use super::split::{is_piece_of, lemma_piece_of_piece, split_lines, text_lines};
use super::width::{glyph_width, lemma_text_width_concat, lemma_text_width_subrange, text_width};
use super::wrap::{
    chunk_upto, chunks, is_word_break, lemma_wrap_stopped, line_state, scan_words, seg_lines,
    split_long, word_step, wrap_upto, Seg,
};
use crate::monos_gfx::types::{Color, Dimension, Position};
use crate::monos_gfx::ui::max_u32;
use core::marker::PhantomData;
use vstd::prelude::*;
use vstd::std_specs::iter::IteratorSpec;
use vstd::string::*;
use vstd::utf8::*;

verus! {

broadcast use vstd::string::group_string_axioms;

/// One laid out line of text; `hyphenated` lines end in the middle of a word.
#[derive(Debug, Clone, Copy)]
pub struct Line<'a> {
    pub text: &'a str,
    pub hyphenated: bool,
}

/// The width of a character as the given font draws it.
pub fn char_width<F: Font>(c: char) -> (r: usize)
    ensures
        r == glyph_width::<F>(c),
{
    match F::get_char(c) {
        Some(raw) => {
            let ch = Character::from_raw(raw);
            ch.width
        },
        None => 0,
    }
}

impl<'a> Line<'a> {
    /// The abstract line: its characters and whether it is hyphenated.
    pub open spec fn view(self) -> (Seq<char>, bool) {
        (self.text@, self.hyphenated)
    }

    /// The width of the line in pixels (kept to its lowest 32 bits).
    pub fn width<F: Font>(&self) -> (r: u32)
        requires
            text_width::<F>(self.text@) <= usize::MAX,
        ensures
            r == text_width::<F>(self.text@) as u32,
    {
        let ghost s = self.text@;
        let mut it = self.text.chars();
        let mut acc: usize = 0;
        let ghost mut k: int = 0;
        loop
            invariant
                it.remaining() == s.skip(k),
                0 <= k <= s.len(),
                acc == text_width::<F>(s.take(k)),
                text_width::<F>(s) <= usize::MAX,
                s == self.text@,
            ensures
                k == s.len(),
                acc == text_width::<F>(s.take(k)),
            decreases s.len() - k,
        {
            let next = it.next();
            match next {
                Some(c) => {
                    proof {
                        assert(s.skip(k).len() > 0);
                        assert(c == s[k]);
                        assert(s.take(k + 1).drop_last() =~= s.take(k));
                        assert(s.skip(k).drop_first() =~= s.skip(k + 1));
                        lemma_text_width_subrange::<F>(s, 0, k + 1);
                    }
                    let w = char_width::<F>(c);
                    acc = acc + w;
                    proof {
                        k = k + 1;
                    }
                },
                None => {
                    break;
                },
            }
        }
        proof {
            assert(s.take(k) =~= s);
        }
        acc as u32
    }

    /// The width of the characters in the first `index` bytes of the text (all of it if
    /// it is shorter); `index` must fall between two characters.
    pub fn width_at<F: Font>(&self, index: usize) -> (r: u32)
        requires
            text_width::<F>(self.text@) <= usize::MAX,
            self.text.spec_bytes().len() <= usize::MAX,
            is_char_boundary(
                self.text.spec_bytes(),
                min_int(index as int, self.text.spec_bytes().len() as int),
            ),
        ensures
            r == text_width::<F>(prefix_chars(self.text, index as int)) as u32,
    {
        let len = self.text.len();
        let end = if index < len {
            index
        } else {
            len
        };
        let (prefix, _rest) = self.text.split_at(end);
        proof {
            let bytes = self.text.spec_bytes();
            lemma_prefix_chars(self.text@, end as int);
            assert(bytes.take(end as int) =~= bytes.subrange(0, end as int));
            encode_utf8_decode_utf8(prefix@);
            let p = prefix_chars(self.text, index as int);
            assert(prefix@ == p);
            lemma_text_width_subrange::<F>(self.text@, 0, p.len() as int);
            assert(self.text@.subrange(0, p.len() as int) =~= p);
        }
        let line = Line { text: prefix, hyphenated: false };
        line.width::<F>()
    }
}

/// The characters in the first `index` bytes of a text (all of them past its end).
pub open spec fn prefix_chars(s: &str, index: int) -> Seq<char> {
    decode_utf8(s.spec_bytes().take(min_int(index, s.spec_bytes().len() as int)))
}

/// The encoding of joined characters is the encodings joined.
proof fn lemma_encode_concat(a: Seq<char>, b: Seq<char>)
    ensures
        encode_utf8(a + b) == encode_utf8(a) + encode_utf8(b),
    decreases a.len(),
{
    if a.len() == 0 {
        assert(a + b =~= b);
        assert(encode_utf8(a) + encode_utf8(b) =~= encode_utf8(b));
    } else {
        lemma_encode_concat(a.drop_first(), b);
        assert((a + b).drop_first() =~= a.drop_first() + b);
        assert((a + b)[0] == a[0]);
        assert(encode_scalar(a[0] as u32) + (encode_utf8(a.drop_first()) + encode_utf8(b))
            =~= (encode_scalar(a[0] as u32) + encode_utf8(a.drop_first())) + encode_utf8(b));
    }
}

/// Cut at a character boundary, the encoding of a text gives a prefix of the text, whose
/// own encoding is the bytes before the cut.
proof fn lemma_prefix_chars(s: Seq<char>, m: int)
    requires
        0 <= m <= encode_utf8(s).len(),
        is_char_boundary(encode_utf8(s), m),
    ensures
        ({
            let p = decode_utf8(encode_utf8(s).take(m));
            &&& p.len() <= s.len()
            &&& p == s.take(p.len() as int)
            &&& encode_utf8(p) == encode_utf8(s).take(m)
        }),
{
    let bytes = encode_utf8(s);
    encode_utf8_valid_utf8(s);
    encode_utf8_decode_utf8(s);
    decode_utf8_split(bytes, m);
    valid_utf8_split(bytes, m);
    assert(bytes.take(m) =~= bytes.subrange(0, m));
    let p = decode_utf8(bytes.take(m));
    let q = decode_utf8(bytes.subrange(m, bytes.len() as int));
    assert(s == p + q);
    assert(s.take(p.len() as int) =~= p);
    decode_utf8_encode_utf8(bytes.take(m));
}

/// An ASCII text has a byte per character, and every byte starts a character.
pub proof fn lemma_ascii_prefix(s: &str, k: int)
    requires
        s.is_ascii(),
        0 <= k <= s@.len(),
    ensures
        s.spec_bytes().len() == s@.len(),
        is_char_boundary(s.spec_bytes(), k),
        prefix_chars(s, k) == s@.take(k),
{
    let bytes = s.spec_bytes();
    is_ascii_chars_encode_utf8(s@);
    is_ascii_chars_encode_utf8(s@.take(k));
    encode_utf8_valid_utf8(s@);
    assert(encode_utf8(s@.take(k)) =~= bytes.take(k));
    encode_utf8_decode_utf8(s@.take(k));
    is_char_boundary_start_end_of_seq(bytes);
    if k < bytes.len() {
        is_char_boundary_iff_not_is_continuation_byte(bytes, k);
        assert(bytes[k] == s@[k] as u8);
    }
}

/// The width of a longer prefix is never smaller: for byte indices `i <= j` that fall
/// between characters, `width_at(i)` is at most `width_at(j)`, and from the text's byte
/// length on `width_at` is the whole line's width (as long as that width fits the 32
/// bits the result is kept to).
pub proof fn lemma_width_at_grows<F: Font>(line: Line, i: usize, j: usize)
    requires
        i <= j,
        text_width::<F>(line.text@) <= u32::MAX,
        is_char_boundary(line.text.spec_bytes(), min_int(i as int, line.text.spec_bytes().len() as int)),
        is_char_boundary(line.text.spec_bytes(), min_int(j as int, line.text.spec_bytes().len() as int)),
    ensures
        (text_width::<F>(prefix_chars(line.text, i as int)) as u32) <= (text_width::<F>(
            prefix_chars(line.text, j as int),
        ) as u32),
        j >= line.text.spec_bytes().len() ==> (text_width::<F>(prefix_chars(line.text, j as int))
            as u32) == text_width::<F>(line.text@) as u32,
{
    let s = line.text@;
    let bytes = line.text.spec_bytes();
    let mi = min_int(i as int, bytes.len() as int);
    let mj = min_int(j as int, bytes.len() as int);
    lemma_prefix_chars(s, mi);
    lemma_prefix_chars(s, mj);
    let pi = prefix_chars(line.text, i as int);
    let pj = prefix_chars(line.text, j as int);
    let a = pi.len() as int;
    let b = pj.len() as int;
    if a > b {
        lemma_encode_concat(pj, s.subrange(b, a));
        assert(pj + s.subrange(b, a) =~= pi);
        assert(encode_utf8(pi).len() >= encode_utf8(pj).len());
        assert(mi == mj);
        assert(false);
    }
    lemma_text_width_concat::<F>(s.take(a), s.subrange(a, b));
    assert(s.take(a) + s.subrange(a, b) =~= s.take(b));
    lemma_text_width_subrange::<F>(s, 0, b);
    assert(s.subrange(0, b) =~= s.take(b));
    if j >= bytes.len() {
        assert(bytes.take(mj) =~= bytes);
        encode_utf8_decode_utf8(s);
        assert(s.take(b) =~= s);
    }
}

pub open spec fn min_int(a: int, b: int) -> int {
    if a < b {
        a
    } else {
        b
    }
}

/// How text is broken into lines.
#[derive(Debug, Clone, Copy)]
pub enum TextWrap {
    Disabled,
    Enabled { hyphenate: bool },
    Everywhere,
}

/// Which side of a clipping rectangle text is anchored to.
#[derive(Debug, Clone, Copy)]
pub enum Origin {
    Top,
    Bottom,
}

/// One color for all lines, or one per line.
#[derive(Clone, Copy)]
pub enum ColorMode<'a> {
    Single(Color),
    PerLine(&'a [Color]),
}

impl Default for ColorMode<'_> {
    fn default() -> (r: Self)
        ensures
            (r matches ColorMode::Single(c) && c == (Color { r: 255, g: 255, b: 255 })),
    {
        ColorMode::Single(Color::new(255, 255, 255))
    }
}

/// The abstract lines: their characters and whether they are hyphenated.
pub open spec fn line_views<'a>(v: Seq<Line<'a>>) -> Seq<(Seq<char>, bool)> {
    v.map_values(|l: Line<'a>| l@)
}

/// The widest of the lines (each width kept to 32 bits), starting from `acc`.
pub open spec fn fold_max_width<F: Font>(acc: u32, v: Seq<(Seq<char>, bool)>) -> u32
    decreases v.len(),
{
    if v.len() == 0 {
        acc
    } else {
        max_u32(fold_max_width::<F>(acc, v.drop_last()), text_width::<F>(v.last().0) as u32)
    }
}

pub proof fn lemma_fold_max_width_concat<F: Font>(
    acc: u32,
    a: Seq<(Seq<char>, bool)>,
    b: Seq<(Seq<char>, bool)>,
)
    ensures
        fold_max_width::<F>(acc, a + b) == fold_max_width::<F>(fold_max_width::<F>(acc, a), b),
    decreases b.len(),
{
    if b.len() == 0 {
        assert(a + b =~= a);
    } else {
        lemma_fold_max_width_concat::<F>(acc, a, b.drop_last());
        assert((a + b).drop_last() =~= a + b.drop_last());
    }
}

pub proof fn lemma_fold_max_width_push<F: Font>(
    acc: u32,
    a: Seq<(Seq<char>, bool)>,
    x: (Seq<char>, bool),
)
    ensures
        fold_max_width::<F>(acc, a.push(x)) == max_u32(
            fold_max_width::<F>(acc, a),
            text_width::<F>(x.0) as u32,
        ),
{
    assert(a.push(x).drop_last() =~= a);
}

/// A piece of a text is at most as wide as the text.
pub proof fn lemma_piece_width<F: Font>(a: Seq<char>, s: Seq<char>)
    requires
        is_piece_of(a, s),
    ensures
        text_width::<F>(a) <= text_width::<F>(s),
{
    let (i, j) = choose|i: int, j: int| 0 <= i <= j <= s.len() && a == s.subrange(i, j);
    lemma_text_width_subrange::<F>(s, i, j);
}

/// Text laid out into lines for a font, with the size the lines take up.
pub struct Lines<'a, F: Font> {
    pub lines: Vec<Line<'a>>,
    pub dimensions: Dimension,
    pub font: PhantomData<F>,
}

/// Appends a line and folds its width into the widest so far.
fn push_line<'a, F: Font>(lines: &mut Vec<Line<'a>>, text: &'a str, hyphenated: bool, longest: u32) -> (r: u32)
    requires
        text_width::<F>(text@) <= usize::MAX,
    ensures
        final(lines)@ == old(lines)@.push((Line { text, hyphenated })),
        r == max_u32(longest, text_width::<F>(text@) as u32),
{
    let line = Line { text, hyphenated };
    let w = line.width::<F>();
    lines.push(line);
    if w > longest {
        w
    } else {
        longest
    }
}

impl<'a, F: Font> Lines<'a, F> {
    pub open spec fn view(self) -> Seq<(Seq<char>, bool)> {
        line_views(self.lines@)
    }

    pub fn dimensions(&self) -> (r: Dimension)
        ensures
            r == self.dimensions,
    {
        self.dimensions
    }

    pub fn iter(&self) -> (r: &[Line<'a>])
        ensures
            r@ == self.lines@,
    {
        self.lines.as_slice()
    }
}

/// Facts about the wrapping state that the executable code keeps track of.
pub proof fn lemma_scan_words_bounds(s: Seq<char>, n: int, cpl: int, hyphenate: bool)
    requires
        0 <= n <= s.len() + 1,
        cpl > 0,
    ensures
        ({
            let ((segs, ls, lp), ws) = scan_words(s, n, cpl, hyphenate);
            &&& 0 <= ls && 0 <= lp && ls + lp == ws && ws <= n
            &&& forall|k: int| 0 <= k < segs.len() ==> 0 <= (#[trigger] segs[k]).0 <= segs[k].1 <= ls
        }),
    decreases n,
{
    if n > 0 {
        lemma_scan_words_bounds(s, n - 1, cpl, hyphenate);
        let ((segs, ls, lp), ws) = scan_words(s, n - 1, cpl, hyphenate);
        let i = n - 1;
        if i >= s.len() || is_word_break(s[i]) {
            lemma_word_step_bounds(segs, ls, lp, i - ws, cpl, hyphenate);
        }
    }
}

pub proof fn lemma_split_long_bounds(segs: Seq<Seg>, ls: int, wl: int, cpl: int, hyphenate: bool)
    requires
        cpl > 0,
        0 <= ls,
        0 <= wl,
        forall|k: int| 0 <= k < segs.len() ==> 0 <= (#[trigger] segs[k]).0 <= segs[k].1 <= ls,
    ensures
        ({
            let (segs2, ls2, wl2) = split_long(segs, ls, wl, cpl, hyphenate);
            &&& ls2 + wl2 == ls + wl && ls <= ls2 && 0 <= wl2
            &&& forall|k: int| 0 <= k < segs2.len() ==> 0 <= (#[trigger] segs2[k]).0 <= segs2[k].1 <= ls2
        }),
    decreases wl,
{
    if wl > cpl {
        let segs1 = segs.push((ls, ls + cpl, hyphenate));
        assert forall|k: int| 0 <= k < segs1.len() implies 0 <= (#[trigger] segs1[k]).0 <= segs1[k].1
            <= ls + cpl by {
            if k < segs.len() {
                assert(segs1[k] == segs[k]);
            }
        }
        lemma_split_long_bounds(segs1, ls + cpl, wl - cpl, cpl, hyphenate);
    }
}

pub proof fn lemma_word_step_bounds(segs: Seq<Seg>, ls: int, lp: int, wl: int, cpl: int, hyphenate: bool)
    requires
        cpl > 0,
        0 <= ls,
        0 <= lp,
        0 <= wl,
        forall|k: int| 0 <= k < segs.len() ==> 0 <= (#[trigger] segs[k]).0 <= segs[k].1 <= ls,
    ensures
        ({
            let (segs3, ls3, lp3) = word_step((segs, ls, lp), wl, cpl, hyphenate);
            &&& 0 <= ls3 && 1 <= lp3 && ls3 + lp3 == ls + lp + wl + 1
            &&& forall|k: int| 0 <= k < segs3.len() ==> 0 <= (#[trigger] segs3[k]).0 <= segs3[k].1 <= ls3
        }),
{
    let (segs1, ls1) = if wl > cpl && lp > 0 {
        (segs.push((ls, ls + lp, false)), ls + lp)
    } else {
        (segs, ls)
    };
    assert forall|k: int| 0 <= k < segs1.len() implies 0 <= (#[trigger] segs1[k]).0 <= segs1[k].1
        <= ls1 by {
        if k < segs.len() {
            assert(segs1[k] == segs[k]);
        }
    }
    if wl > cpl {
        lemma_split_long_bounds(segs1, ls1, wl, cpl, hyphenate);
    }
    let (segs2, ls2, wl2) = if wl > cpl {
        split_long(segs1, ls1, wl, cpl, hyphenate)
    } else {
        (segs1, ls1, wl)
    };
    let lp2 = if wl > cpl { 0 } else { lp };
    if lp2 + wl2 > cpl {
        let segs3 = segs2.push((ls2, ls2 + lp2, false));
        assert forall|k: int| 0 <= k < segs3.len() implies 0 <= (#[trigger] segs3[k]).0
            <= segs3[k].1 <= ls2 + lp2 by {
            if k < segs2.len() {
                assert(segs3[k] == segs2[k]);
            }
        }
    }
}

/// Word-wraps one source line into `lines`, returning where its unfinished last output
/// line starts and the widest width so far.
pub(crate) fn wrap_words<'a, F: Font>(
    l: &'a str,
    lines: &mut Vec<Line<'a>>,
    cpl: usize,
    hyphenate: bool,
    longest: u32,
    Ghost(text): Ghost<Seq<char>>,
) -> (r: (usize, u32))
    requires
        l.is_ascii(),
        cpl > 0,
        l@.len() < usize::MAX,
        is_piece_of(l@, text),
        text_width::<F>(text) <= usize::MAX,
    ensures
        line_views(final(lines)@) == line_views(old(lines)@) + seg_lines(
            l@,
            line_state(l@, cpl as int, hyphenate).0,
        ),
        r.0 == line_state(l@, cpl as int, hyphenate).1,
        r.0 <= l@.len(),
        r.1 == fold_max_width::<F>(
            longest,
            seg_lines(l@, line_state(l@, cpl as int, hyphenate).0),
        ),
        forall|k: int| old(lines)@.len() <= k < final(lines)@.len() ==> is_piece_of(
            (#[trigger] final(lines)@[k]).text@,
            text,
        ),
        forall|k: int| 0 <= k < old(lines)@.len() ==> final(lines)@[k] == old(lines)@[k],
{
    let len = l.unicode_len();
    let ghost s = l@;
    let ghost base = line_views(lines@);
    let ghost old_lines = lines@;
    let ghost mut segs: Seq<Seg> = seq![];
    let mut ls: usize = 0;
    let mut lp: usize = 0;
    let mut ws: usize = 0;
    let mut i: usize = 0;
    let mut best = longest;
    proof {
        assert(line_views(lines@) =~= base + seg_lines(s, segs));
    }
    loop
        invariant_except_break
            scan_words(s, i as int, cpl as int, hyphenate) == ((segs, ls as int, lp as int), ws as int),
            ws <= i,
        invariant
            s == l@,
            l.is_ascii(),
            len == s.len(),
            len < usize::MAX,
            cpl > 0,
            i <= len,
            is_piece_of(s, text),
            text_width::<F>(text) <= usize::MAX,
            ls + lp == ws,
            forall|k: int| 0 <= k < segs.len() ==> 0 <= (#[trigger] segs[k]).0 <= segs[k].1 <= ls,
            line_views(lines@) == base + seg_lines(s, segs),
            best == fold_max_width::<F>(longest, seg_lines(s, segs)),
            lines@.len() >= old_lines.len(),
            forall|k: int| 0 <= k < old_lines.len() ==> lines@[k] == old_lines[k],
            forall|k: int| old_lines.len() <= k < lines@.len() ==> is_piece_of(
                (#[trigger] lines@[k]).text@,
                text,
            ),
        ensures
            scan_words(s, len + 1int, cpl as int, hyphenate) == ((segs, ls as int, lp as int), ws as int),
            ls <= len,
            line_views(lines@) == base + seg_lines(s, segs),
            best == fold_max_width::<F>(longest, seg_lines(s, segs)),
            forall|k: int| 0 <= k < old_lines.len() ==> lines@[k] == old_lines[k],
            forall|k: int| old_lines.len() <= k < lines@.len() ==> is_piece_of(
                (#[trigger] lines@[k]).text@,
                text,
            ),
        decreases len + 1 - i,
    {
        let at_end = i == len;
        let at_break = if at_end {
            true
        } else {
            let b = l.get_ascii(i);
            proof {
                assert('\0' <= s[i as int] <= '\u{7f}');
            }
            b == 32u8 || b == 45u8
        };
        proof {
            if !at_end {
                assert(at_break == is_word_break(s[i as int]));
            }
        }
        if at_break {
            let ghost st0 = (segs, ls as int, lp as int);
            let mut word_len = i - ws;
            if word_len > cpl {
                if lp > 0 {
                    let piece = l.substring_ascii(ls, ls + lp);
                    proof {
                        piece_is_piece(s, ls as int, (ls + lp) as int, text);
                        lemma_piece_width::<F>(piece@, text);
                    }
                    let ghost before = lines@;
                    best = push_line::<F>(lines, piece, false, best);
                    proof {
                        lemma_fold_max_width_push::<F>(longest, seg_lines(s, segs), (piece@, false));
                        segs = segs.push((ls as int, (ls + lp) as int, false));
                        assert(seg_lines(s, segs) =~= seg_lines(s, st0.0).push((piece@, false)));
                        assert(line_views(lines@) =~= line_views(before).push((piece@, false)));
                    }
                    ls = ls + lp;
                    lp = 0;
                }
                let ghost segs1 = segs;
                let ghost ls1 = ls as int;
                while word_len > cpl
                    invariant
                        s == l@,
                        l.is_ascii(),
                        len == s.len(),
                        cpl > 0,
                        ls + word_len == i,
                        i <= len,
                        lp == 0,
                        is_piece_of(s, text),
                        text_width::<F>(text) <= usize::MAX,
                        split_long(segs, ls as int, word_len as int, cpl as int, hyphenate)
                            == split_long(segs1, ls1, (i - ws) as int, cpl as int, hyphenate),
                        forall|k: int| 0 <= k < segs.len() ==> 0 <= (#[trigger] segs[k]).0 <= segs[k].1 <= ls,
                        line_views(lines@) == base + seg_lines(s, segs),
                        best == fold_max_width::<F>(longest, seg_lines(s, segs)),
                        lines@.len() >= old_lines.len(),
                        forall|k: int| 0 <= k < old_lines.len() ==> lines@[k] == old_lines[k],
                        forall|k: int| old_lines.len() <= k < lines@.len() ==> is_piece_of(
                            (#[trigger] lines@[k]).text@,
                            text,
                        ),
                    decreases word_len,
                {
                    let piece = l.substring_ascii(ls, ls + cpl);
                    proof {
                        piece_is_piece(s, ls as int, (ls + cpl) as int, text);
                        lemma_piece_width::<F>(piece@, text);
                    }
                    let ghost before = lines@;
                    let ghost segs_prev = segs;
                    best = push_line::<F>(lines, piece, hyphenate, best);
                    proof {
                        lemma_fold_max_width_push::<F>(longest, seg_lines(s, segs), (piece@, hyphenate));
                        segs = segs.push((ls as int, (ls + cpl) as int, hyphenate));
                        assert(seg_lines(s, segs) =~= seg_lines(s, segs_prev).push((piece@, hyphenate)));
                        assert(line_views(lines@) =~= line_views(before).push((piece@, hyphenate)));
                        assert forall|k: int| 0 <= k < segs.len() implies 0 <= (#[trigger] segs[k]).0
                            <= segs[k].1 <= ls + cpl by {
                            if k < segs_prev.len() {
                                assert(segs[k] == segs_prev[k]);
                            }
                        }
                    }
                    word_len = word_len - cpl;
                    ls = ls + cpl;
                }
            }
            if lp + word_len > cpl {
                let piece = l.substring_ascii(ls, ls + lp);
                proof {
                    piece_is_piece(s, ls as int, (ls + lp) as int, text);
                    lemma_piece_width::<F>(piece@, text);
                }
                let ghost before = lines@;
                let ghost segs_prev = segs;
                best = push_line::<F>(lines, piece, false, best);
                proof {
                    lemma_fold_max_width_push::<F>(longest, seg_lines(s, segs), (piece@, false));
                    segs = segs.push((ls as int, (ls + lp) as int, false));
                    assert(seg_lines(s, segs) =~= seg_lines(s, segs_prev).push((piece@, false)));
                    assert(line_views(lines@) =~= line_views(before).push((piece@, false)));
                    assert forall|k: int| 0 <= k < segs.len() implies 0 <= (#[trigger] segs[k]).0
                        <= segs[k].1 <= ls + lp by {
                        if k < segs_prev.len() {
                            assert(segs[k] == segs_prev[k]);
                        }
                    }
                }
                ls = ls + lp;
                lp = 0;
            }
            lp = lp + word_len + 1;
            proof {
                assert(word_step(st0, (i - ws) as int, cpl as int, hyphenate) == (segs, ls as int, lp as int));
            }
            ws = i + 1;
        }
        if at_end {
            break;
        }
        i = i + 1;
    }
    (ls, best)
}

pub(crate) proof fn piece_is_piece(s: Seq<char>, i: int, j: int, text: Seq<char>)
    requires
        0 <= i <= j <= s.len(),
        is_piece_of(s, text),
    ensures
        is_piece_of(s.subrange(i, j), text),
{
    assert(is_piece_of(s.subrange(i, j), s));
    lemma_piece_of_piece(s.subrange(i, j), s, text);
}

/// Pieces that are not hyphenated.
pub open spec fn plain_lines(v: Seq<Seq<char>>) -> Seq<(Seq<char>, bool)> {
    v.map_values(|c: Seq<char>| (c, false))
}

/// How many characters fit on a line of the given width.
pub open spec fn chars_per_line<F: Font>(max_width: u32) -> int {
    (max_width / F::CHAR_WIDTH) as int
}

/// The single line that fits in `max_width`, cut off if it is too long.
pub open spec fn spec_single_line<F: Font>(text: Seq<char>, max_width: u32) -> Seq<(Seq<char>, bool)> {
    if max_width < F::CHAR_WIDTH {
        seq![]
    } else {
        let cpl = chars_per_line::<F>(max_width);
        seq![(text.take(if cpl < text.len() { cpl } else { text.len() as int }), false)]
    }
}

/// Every source line cut into pieces as wide as the line allows.
pub open spec fn spec_everywhere<F: Font>(text: Seq<char>, max_dimensions: Dimension) -> Seq<(Seq<char>, bool)> {
    let src = split_lines(text);
    plain_lines(chunk_upto(src, src.len() as int, chars_per_line::<F>(max_dimensions.width)))
}

/// Word-wrapped lines, given that `count0` lines were laid out before.
pub open spec fn spec_wrapped<F: Font>(
    text: Seq<char>,
    hyphenate: bool,
    max_dimensions: Dimension,
    count0: int,
) -> Seq<(Seq<char>, bool)> {
    let cpl = chars_per_line::<F>(max_dimensions.width);
    if cpl == 0 {
        seq![]
    } else {
        let src = split_lines(text);
        wrap_upto(
            src,
            src.len() as int,
            cpl,
            hyphenate,
            (max_dimensions.height / F::CHAR_HEIGHT) as int,
            count0,
        ).0
    }
}

/// The lines a text is laid out into, given that `count0` lines came before it.
pub open spec fn spec_layout_lines<F: Font>(
    text: Seq<char>,
    wrap: TextWrap,
    max_dimensions: Dimension,
    count0: int,
) -> Seq<(Seq<char>, bool)> {
    match wrap {
        TextWrap::Disabled => spec_single_line::<F>(text, max_dimensions.width),
        TextWrap::Enabled { hyphenate } => spec_wrapped::<F>(text, hyphenate, max_dimensions, count0),
        TextWrap::Everywhere => spec_everywhere::<F>(text, max_dimensions),
    }
}

/// The width of a laid out text: its widest line.
pub open spec fn spec_layout_width<F: Font>(
    text: Seq<char>,
    wrap: TextWrap,
    max_dimensions: Dimension,
    count0: int,
) -> u32 {
    fold_max_width::<F>(0, spec_layout_lines::<F>(text, wrap, max_dimensions, count0))
}

/// A text can be laid out: it is ASCII, not as long as the address space, its width
/// fits in a `usize`, and the font's glyphs have a size.
pub open spec fn layout_ok<F: Font>(text: &str) -> bool {
    &&& text.is_ascii()
    &&& text@.len() < usize::MAX
    &&& text_width::<F>(text@) <= usize::MAX
    &&& F::CHAR_WIDTH > 0
    &&& F::CHAR_HEIGHT > 0
}

/// Cutting lines "everywhere" ends: either lines can hold a character, or every source
/// line is empty.
pub open spec fn everywhere_ends<F: Font>(text: Seq<char>, max_dimensions: Dimension) -> bool {
    chars_per_line::<F>(max_dimensions.width) > 0 || forall|i: int|
        0 <= i < split_lines(text).len() ==> (#[trigger] split_lines(text)[i]).len() == 0
}

/// The height of `n` lines (at least one line is counted), as 32-bit arithmetic computes it.
pub open spec fn lines_height<F: Font>(n: nat) -> int {
    (if n > 1 { n } else { 1 }) as u32 * F::CHAR_HEIGHT
}

pub open spec fn text_views<'a>(texts: Seq<&'a str>) -> Seq<Seq<char>> {
    texts.map_values(|t: &'a str| t@)
}

/// The lines of several texts laid out one after the other.
pub open spec fn iter_lines<F: Font>(
    texts: Seq<Seq<char>>,
    k: int,
    wrap: TextWrap,
    max_dimensions: Dimension,
) -> Seq<(Seq<char>, bool)>
    decreases k,
{
    if k <= 0 {
        seq![]
    } else {
        let prev = iter_lines::<F>(texts, k - 1, wrap, max_dimensions);
        prev + spec_layout_lines::<F>(texts[k - 1], wrap, max_dimensions, prev.len() as int)
    }
}

/// The widest of several laid out texts, each one pixel wider than its widest line.
pub open spec fn iter_width<F: Font>(
    texts: Seq<Seq<char>>,
    k: int,
    wrap: TextWrap,
    max_dimensions: Dimension,
) -> u32
    decreases k,
{
    if k <= 0 {
        0
    } else {
        let prev = iter_lines::<F>(texts, k - 1, wrap, max_dimensions);
        max_u32(
            iter_width::<F>(texts, k - 1, wrap, max_dimensions),
            (spec_layout_width::<F>(texts[k - 1], wrap, max_dimensions, prev.len() as int) + 1) as u32,
        )
    }
}

/// Lines cut from an ASCII text whose width fits in a `usize` are themselves ASCII, and
/// their widths fit too.
pub proof fn lemma_pieces_wf<'a, F: Font>(lines: Seq<Line<'a>>, text: &'a str)
    requires
        layout_ok::<F>(text),
        forall|i: int| 0 <= i < lines.len() ==> is_piece_of((#[trigger] lines[i]).text@, text@),
    ensures
        forall|i: int|
            0 <= i < lines.len() ==> (#[trigger] lines[i]).text.is_ascii()
                && text_width::<F>(lines[i].text@) <= usize::MAX,
{
    assert forall|i: int| 0 <= i < lines.len() implies (#[trigger] lines[i]).text.is_ascii()
        && text_width::<F>(lines[i].text@) <= usize::MAX by {
        let a = lines[i].text@;
        lemma_piece_width::<F>(a, text@);
        let (p, q) = choose|p: int, q: int| 0 <= p <= q <= text@.len() && a == text@.subrange(p, q);
        assert forall|j: int| 0 <= j < a.len() implies '\0' <= #[trigger] a[j] <= '\u{7f}' by {
            assert(a[j] == text@[p + j]);
        }
    }
}

/// The total number of characters on all lines.
pub open spec fn total_len(v: Seq<(Seq<char>, bool)>) -> nat
    decreases v.len(),
{
    if v.len() == 0 {
        0
    } else {
        total_len(v.drop_last()) + v.last().0.len()
    }
}

pub proof fn lemma_total_len_prefix(v: Seq<(Seq<char>, bool)>, i: int)
    requires
        0 <= i <= v.len(),
    ensures
        total_len(v.take(i)) <= total_len(v),
    decreases v.len() - i,
{
    if i < v.len() {
        lemma_total_len_prefix(v, i + 1);
        assert(v.take(i + 1).drop_last() =~= v.take(i));
    } else {
        assert(v.take(i) =~= v);
    }
}

/// The position after the last line fits in 64 bits.
pub open spec fn end_position_fits<F: Font>(v: Seq<(Seq<char>, bool)>) -> bool {
    &&& (if v.len() == 0 { 0 } else { v.last().0.len() as int }) * F::CHAR_WIDTH <= i64::MAX
    &&& v.len() * F::CHAR_HEIGHT <= i64::MAX
}

/// The position of the character at `index`, searching from line `i` whose first character
/// has index `curr`: on the first line that reaches `index`, the width of the characters
/// before it; past the end, the end of the last line (assuming fixed-width characters)
/// one line below the text.
pub open spec fn char_pos_from<F: Font>(v: Seq<(Seq<char>, bool)>, i: int, curr: int, index: int) -> Position
    decreases v.len() - i,
{
    if i >= v.len() || i < 0 {
        Position {
            x: ((if v.len() == 0 { 0 } else { v.last().0.len() as int }) * F::CHAR_WIDTH) as i64,
            y: (v.len() * F::CHAR_HEIGHT) as i64,
        }
    } else if curr + v[i].0.len() >= index {
        Position {
            x: (text_width::<F>(v[i].0.take(min_int(index - curr, v[i].0.len() as int))) as u32) as i64,
            y: (i * F::CHAR_HEIGHT) as i64,
        }
    } else {
        char_pos_from::<F>(v, i + 1, curr + v[i].0.len(), index)
    }
}

impl<'a, F: Font> Lines<'a, F> {
    fn layout_single_line(text: &'a str, lines: &mut Vec<Line<'a>>, max_width: u32) -> (r: u32)
        requires
            layout_ok::<F>(text),
        ensures
            line_views(final(lines)@) == line_views(old(lines)@) + spec_single_line::<F>(text@, max_width),
            r == fold_max_width::<F>(0, spec_single_line::<F>(text@, max_width)),
            forall|k: int| 0 <= k < old(lines)@.len() ==> final(lines)@[k] == old(lines)@[k],
            forall|k: int| old(lines)@.len() <= k < final(lines)@.len() ==> is_piece_of(
                (#[trigger] final(lines)@[k]).text@,
                text@,
            ),
    {
        if max_width < F::CHAR_WIDTH {
            proof {
                assert(line_views(lines@) + Seq::<(Seq<char>, bool)>::empty() =~= line_views(lines@));
            }
            return 0;
        }
        let chars_per_line = (max_width / F::CHAR_WIDTH) as usize;
        let len = text.unicode_len();
        let end = if chars_per_line < len {
            chars_per_line
        } else {
            len
        };
        let line_text = text.substring_ascii(0, end);
        proof {
            assert(line_text@ =~= text@.take(end as int));
            assert(is_piece_of(line_text@, text@)) by {
                assert(line_text@ == text@.subrange(0, end as int));
            }
            lemma_piece_width::<F>(line_text@, text@);
            lemma_fold_max_width_push::<F>(0, seq![], (line_text@, false));
            assert(seq![(line_text@, false)] =~= Seq::<(Seq<char>, bool)>::empty().push((line_text@, false)));
        }
        let ghost before = lines@;
        let width = push_line::<F>(lines, line_text, false, 0);
        proof {
            assert(line_views(lines@) =~= line_views(before) + seq![(line_text@, false)]);
        }
        width
    }

    fn layout_wrapped_everywhere(
        text: &'a str,
        lines: &mut Vec<Line<'a>>,
        max_dimensions: Dimension,
    ) -> (r: u32)
        requires
            layout_ok::<F>(text),
            everywhere_ends::<F>(text@, max_dimensions),
        ensures
            line_views(final(lines)@) == line_views(old(lines)@) + spec_everywhere::<F>(text@, max_dimensions),
            r == fold_max_width::<F>(0, spec_everywhere::<F>(text@, max_dimensions)),
            forall|k: int| 0 <= k < old(lines)@.len() ==> final(lines)@[k] == old(lines)@[k],
            forall|k: int| old(lines)@.len() <= k < final(lines)@.len() ==> is_piece_of(
                (#[trigger] final(lines)@[k]).text@,
                text@,
            ),
    {
        let cpl = (max_dimensions.width / F::CHAR_WIDTH) as usize;
        let src = text_lines(text);
        let ghost srcv = src@.map_values(|l: &'a str| l@);
        let ghost base = line_views(lines@);
        let ghost old_lines = lines@;
        let mut width: u32 = 0;
        let mut k: usize = 0;
        proof {
            assert(line_views(lines@) =~= base + plain_lines(chunk_upto(srcv, 0, cpl as int)));
        }
        while k < src.len()
            invariant
                layout_ok::<F>(text),
                everywhere_ends::<F>(text@, max_dimensions),
                cpl == chars_per_line::<F>(max_dimensions.width),
                srcv == src@.map_values(|l: &'a str| l@),
                srcv == split_lines(text@),
                forall|i: int| 0 <= i < src@.len() ==> (#[trigger] src@[i]).is_ascii(),
                forall|i: int| 0 <= i < src@.len() ==> is_piece_of((#[trigger] src@[i])@, text@),
                k <= src@.len(),
                line_views(lines@) == base + plain_lines(chunk_upto(srcv, k as int, cpl as int)),
                width == fold_max_width::<F>(0, plain_lines(chunk_upto(srcv, k as int, cpl as int))),
                lines@.len() >= old_lines.len(),
                forall|i: int| 0 <= i < old_lines.len() ==> lines@[i] == old_lines[i],
                forall|i: int| old_lines.len() <= i < lines@.len() ==> is_piece_of(
                    (#[trigger] lines@[i]).text@,
                    text@,
                ),
            decreases src@.len() - k,
        {
            let l = src[k];
            let ghost lv = l@;
            assert(srcv[k as int] == lv);
            let llen = l.unicode_len();
            let mut start: usize = 0;
            let ghost prefix = plain_lines(chunk_upto(srcv, k as int, cpl as int));
            proof {
                assert(l@.skip(0) =~= l@);
                assert(prefix + plain_lines(chunks(l@.skip(0), cpl as int)) =~= prefix + plain_lines(chunks(l@, cpl as int)));
                if cpl == 0 {
                    assert(split_lines(text@)[k as int].len() == 0);
                }
                let lvs = line_views(lines@);
                assert(lvs.subrange(base.len() as int, lvs.len() as int) =~= prefix);
                assert(lvs.subrange(0, base.len() as int) =~= base);
            }
            while llen - start > cpl
                invariant
                    l@ == lv,
                    l.is_ascii(),
                    llen == lv.len(),
                    start <= llen,
                    cpl > 0 || lv.len() == 0,
                    is_piece_of(lv, text@),
                    layout_ok::<F>(text),
                    line_views(lines@) + plain_lines(chunks(lv.skip(start as int), cpl as int)) == base + prefix
                        + plain_lines(chunks(lv, cpl as int)),
                    width == fold_max_width::<F>(0, line_views(lines@).subrange(base.len() as int, line_views(lines@).len() as int)),
                    line_views(lines@).len() >= base.len(),
                    line_views(lines@).subrange(0, base.len() as int) == base,
                    lines@.len() >= old_lines.len(),
                    forall|i: int| 0 <= i < old_lines.len() ==> lines@[i] == old_lines[i],
                    forall|i: int| old_lines.len() <= i < lines@.len() ==> is_piece_of(
                        (#[trigger] lines@[i]).text@,
                        text@,
                    ),
                decreases llen - start,
            {
                let piece = l.substring_ascii(start, start + cpl);
                proof {
                    piece_is_piece(lv, start as int, (start + cpl) as int, text@);
                    lemma_piece_width::<F>(piece@, text@);
                }
                let ghost before = lines@;
                width = push_line::<F>(lines, piece, false, width);
                proof {
                    let rest = lv.skip(start as int);
                    assert(rest.take(cpl as int) =~= piece@);
                    assert(rest.skip(cpl as int) =~= lv.skip(start + cpl));
                    assert(chunks(rest, cpl as int) == seq![piece@] + chunks(lv.skip(start + cpl), cpl as int));
                    assert(plain_lines(chunks(rest, cpl as int)) =~= seq![(piece@, false)] + plain_lines(chunks(lv.skip(start + cpl), cpl as int)));
                    assert(line_views(lines@) =~= line_views(before).push((piece@, false)));
                    let lb = line_views(before);
                    assert(line_views(lines@).subrange(base.len() as int, line_views(lines@).len() as int) =~= lb.subrange(base.len() as int, lb.len() as int).push((piece@, false)));
                    lemma_fold_max_width_push::<F>(0, lb.subrange(base.len() as int, lb.len() as int), (piece@, false));
                    assert(line_views(lines@).subrange(0, base.len() as int) =~= lb.subrange(0, base.len() as int));
                }
                start = start + cpl;
            }
            if start < llen {
                let piece = l.substring_ascii(start, llen);
                proof {
                    piece_is_piece(lv, start as int, llen as int, text@);
                    lemma_piece_width::<F>(piece@, text@);
                }
                let ghost before = lines@;
                width = push_line::<F>(lines, piece, false, width);
                proof {
                    let rest = lv.skip(start as int);
                    assert(rest =~= piece@);
                    assert(chunks(rest, cpl as int) == seq![piece@]);
                    assert(plain_lines(seq![piece@]) =~= seq![(piece@, false)]);
                    assert(line_views(lines@) =~= line_views(before).push((piece@, false)));
                    let lb = line_views(before);
                    assert(line_views(lines@).subrange(base.len() as int, line_views(lines@).len() as int) =~= lb.subrange(base.len() as int, lb.len() as int).push((piece@, false)));
                    lemma_fold_max_width_push::<F>(0, lb.subrange(base.len() as int, lb.len() as int), (piece@, false));
                    assert(line_views(lines@).subrange(0, base.len() as int) =~= lb.subrange(0, base.len() as int));
                    assert(line_views(lines@) =~= base + prefix + plain_lines(chunks(lv, cpl as int)));
                }
            } else {
                proof {
                    assert(lv.skip(start as int) =~= Seq::<char>::empty());
                    assert(plain_lines(chunks(Seq::<char>::empty(), cpl as int)) =~= Seq::<(Seq<char>, bool)>::empty());
                    assert(line_views(lines@) =~= base + prefix + plain_lines(chunks(lv, cpl as int)));
                }
            }
            proof {
                assert(chunk_upto(srcv, k + 1, cpl as int) == chunk_upto(srcv, k as int, cpl as int) + chunks(lv, cpl as int));
                assert(plain_lines(chunk_upto(srcv, k + 1, cpl as int)) =~= prefix + plain_lines(chunks(lv, cpl as int)));
                assert(base + prefix + plain_lines(chunks(lv, cpl as int)) =~= base + plain_lines(chunk_upto(srcv, k + 1, cpl as int)));
                let lvs = line_views(lines@);
                assert(lvs.subrange(base.len() as int, lvs.len() as int) =~= plain_lines(chunk_upto(srcv, k + 1, cpl as int)));
            }
            k = k + 1;
        }
        proof {
            assert(srcv.len() == src@.len());
        }
        width
    }

    fn layout_wrapped(
        text: &'a str,
        lines: &mut Vec<Line<'a>>,
        hyphenate: bool,
        max_dimensions: Dimension,
    ) -> (r: u32)
        requires
            layout_ok::<F>(text),
        ensures
            line_views(final(lines)@) == line_views(old(lines)@) + spec_wrapped::<F>(
                text@,
                hyphenate,
                max_dimensions,
                old(lines)@.len() as int,
            ),
            r == fold_max_width::<F>(
                0,
                spec_wrapped::<F>(text@, hyphenate, max_dimensions, old(lines)@.len() as int),
            ),
            forall|k: int| 0 <= k < old(lines)@.len() ==> final(lines)@[k] == old(lines)@[k],
            forall|k: int| old(lines)@.len() <= k < final(lines)@.len() ==> is_piece_of(
                (#[trigger] final(lines)@[k]).text@,
                text@,
            ),
    {
        let chars_per_line = (max_dimensions.width / F::CHAR_WIDTH) as usize;
        if chars_per_line == 0 {
            proof {
                assert(line_views(lines@) + Seq::<(Seq<char>, bool)>::empty() =~= line_views(lines@));
            }
            return 0;
        }
        let max_visible_lines = max_dimensions.height / F::CHAR_HEIGHT;
        let ghost max_lines = max_visible_lines as int;
        let ghost cpl = chars_per_line as int;
        let ghost count0 = lines@.len() as int;
        let src = text_lines(text);
        let ghost srcv = src@.map_values(|l: &'a str| l@);
        let ghost base = line_views(lines@);
        let ghost old_lines = lines@;
        let mut longest: u32 = 0;
        let mut k: usize = 0;
        proof {
            assert(line_views(lines@) =~= base + wrap_upto(srcv, 0, cpl, hyphenate, max_lines, count0).0);
        }
        while k < src.len()
            invariant_except_break
                !wrap_upto(srcv, k as int, cpl, hyphenate, max_lines, count0).1,
                line_views(lines@) == base + wrap_upto(srcv, k as int, cpl, hyphenate, max_lines, count0).0,
                longest == fold_max_width::<F>(0, wrap_upto(srcv, k as int, cpl, hyphenate, max_lines, count0).0),
            invariant
                layout_ok::<F>(text),
                chars_per_line > 0,
                cpl == chars_per_line,
                max_lines == max_visible_lines,
                count0 == old_lines.len(),
                srcv == src@.map_values(|l: &'a str| l@),
                forall|i: int| 0 <= i < src@.len() ==> (#[trigger] src@[i]).is_ascii(),
                forall|i: int| 0 <= i < src@.len() ==> is_piece_of((#[trigger] src@[i])@, text@),
                k <= src@.len(),
                lines@.len() >= old_lines.len(),
                line_views(old_lines) == base,
                forall|i: int| 0 <= i < old_lines.len() ==> lines@[i] == old_lines[i],
                forall|i: int| old_lines.len() <= i < lines@.len() ==> is_piece_of(
                    (#[trigger] lines@[i]).text@,
                    text@,
                ),
            ensures
                line_views(lines@) == base + wrap_upto(srcv, srcv.len() as int, cpl, hyphenate, max_lines, count0).0,
                longest == fold_max_width::<F>(0, wrap_upto(srcv, srcv.len() as int, cpl, hyphenate, max_lines, count0).0),
            decreases src@.len() - k,
        {
            let l = src[k];
            let ghost lv = l@;
            assert(srcv[k as int] == lv);
            let ghost prev = wrap_upto(srcv, k as int, cpl, hyphenate, max_lines, count0).0;
            proof {
                let (i0, j0) = choose|i: int, j: int| 0 <= i <= j <= text@.len() && lv == text@.subrange(i, j);
                assert(lv.len() <= text@.len());
            }
            let (line_start, best) = wrap_words::<F>(l, lines, chars_per_line, hyphenate, longest, Ghost(text@));
            longest = best;
            let ghost st = line_state(lv, cpl, hyphenate);
            proof {
                lemma_fold_max_width_concat::<F>(0, prev, seg_lines(lv, st.0));
                assert(line_views(lines@) =~= base + (prev + seg_lines(lv, st.0)));
            }
            if lines.len() >= max_visible_lines as usize {
                proof {
                    assert(wrap_upto(srcv, k + 1, cpl, hyphenate, max_lines, count0) == (prev + seg_lines(lv, st.0), true));
                    assert(line_views(lines@).len() == lines@.len());
                    lemma_wrap_stopped(srcv, k + 1, srcv.len() as int, cpl, hyphenate, max_lines, count0);
                }
                break;
            }
            let llen = l.unicode_len();
            if line_start < llen {
                let piece = l.substring_ascii(line_start, llen);
                proof {
                    piece_is_piece(lv, line_start as int, llen as int, text@);
                    lemma_piece_width::<F>(piece@, text@);
                }
                let ghost before = lines@;
                longest = push_line::<F>(lines, piece, false, longest);
                proof {
                    lemma_fold_max_width_push::<F>(0, prev + seg_lines(lv, st.0), (piece@, false));
                    assert(line_views(lines@) =~= line_views(before).push((piece@, false)));
                    assert(line_views(lines@) =~= base + (prev + seg_lines(lv, st.0)).push((piece@, false)));
                }
            }
            k = k + 1;
        }
        longest
    }

    /// Lays a text out into `lines` as `wrap` says, returning the widest line's width.
    pub(crate) fn layout_into(text: &'a str, lines: &mut Vec<Line<'a>>, wrap: TextWrap, max_dimensions: Dimension) -> (r: u32)
        requires
            layout_ok::<F>(text),
            wrap is Everywhere ==> everywhere_ends::<F>(text@, max_dimensions),
        ensures
            line_views(final(lines)@) == line_views(old(lines)@) + spec_layout_lines::<F>(
                text@,
                wrap,
                max_dimensions,
                old(lines)@.len() as int,
            ),
            r == spec_layout_width::<F>(text@, wrap, max_dimensions, old(lines)@.len() as int),
            forall|k: int| 0 <= k < old(lines)@.len() ==> final(lines)@[k] == old(lines)@[k],
            forall|k: int| old(lines)@.len() <= k < final(lines)@.len() ==> is_piece_of(
                (#[trigger] final(lines)@[k]).text@,
                text@,
            ),
    {
        match wrap {
            TextWrap::Disabled => Self::layout_single_line(text, lines, max_dimensions.width),
            TextWrap::Enabled { hyphenate } => Self::layout_wrapped(text, lines, hyphenate, max_dimensions),
            TextWrap::Everywhere => Self::layout_wrapped_everywhere(text, lines, max_dimensions),
        }
    }

    /// Every line is ASCII and its width fits in a `usize`.
    pub open spec fn wf(self) -> bool {
        forall|i: int|
            0 <= i < self.lines@.len() ==> (#[trigger] self.lines@[i]).text.is_ascii()
                && text_width::<F>(self.lines@[i].text@) <= usize::MAX
    }

    pub fn layout(text: &'a str, wrap: TextWrap, max_dimensions: Dimension) -> (r: Self)
        requires
            layout_ok::<F>(text),
            wrap is Everywhere ==> everywhere_ends::<F>(text@, max_dimensions),
            spec_layout_width::<F>(text@, wrap, max_dimensions, 0) < u32::MAX,
            lines_height::<F>(spec_layout_lines::<F>(text@, wrap, max_dimensions, 0).len()) <= u32::MAX,
        ensures
            r@ == spec_layout_lines::<F>(text@, wrap, max_dimensions, 0),
            r.dimensions.width == spec_layout_width::<F>(text@, wrap, max_dimensions, 0) + 1,
            r.dimensions.height == lines_height::<F>(r@.len()),
            r.wf(),
    {
        let mut lines: Vec<Line<'a>> = Vec::new();
        let w = Self::layout_into(text, &mut lines, wrap, max_dimensions);
        let width = w + 1;
        proof {
            assert(line_views(lines@) =~= spec_layout_lines::<F>(text@, wrap, max_dimensions, 0));
            lemma_pieces_wf::<F>(lines@, text);
        }
        let count = if lines.len() > 1 {
            lines.len()
        } else {
            1
        };
        let dimensions = Dimension::new(width, count as u32 * F::CHAR_HEIGHT);
        Lines { lines, dimensions, font: PhantomData }
    }

    #[verifier::spinoff_prover]
    #[verifier::rlimit(40)]
    pub fn layout_iter(texts: Vec<&'a str>, wrap: TextWrap, max_dimensions: Dimension) -> (r: Self)
        requires
            forall|i: int| 0 <= i < texts@.len() ==> layout_ok::<F>(#[trigger] texts@[i]),
            forall|i: int|
                0 <= i < texts@.len() ==> (wrap is Everywhere ==> everywhere_ends::<F>(
                    (#[trigger] texts@[i])@,
                    max_dimensions,
                )),
            forall|i: int|
                0 <= i < texts@.len() ==> spec_layout_width::<F>(
                    (#[trigger] texts@[i])@,
                    wrap,
                    max_dimensions,
                    iter_lines::<F>(text_views(texts@), i, wrap, max_dimensions).len() as int,
                ) < u32::MAX,
            lines_height::<F>(
                iter_lines::<F>(text_views(texts@), texts@.len() as int, wrap, max_dimensions).len(),
            ) <= u32::MAX,
        ensures
            r@ == iter_lines::<F>(text_views(texts@), texts@.len() as int, wrap, max_dimensions),
            r.dimensions.width == iter_width::<F>(text_views(texts@), texts@.len() as int, wrap, max_dimensions),
            r.dimensions.height == lines_height::<F>(r@.len()),
            r.wf(),
    {
        let ghost tv = text_views(texts@);
        let mut lines: Vec<Line<'a>> = Vec::new();
        let mut longest_line: u32 = 0;
        let mut k: usize = 0;
        while k < texts.len()
            invariant
                tv == text_views(texts@),
                k <= texts@.len(),
                forall|i: int| 0 <= i < texts@.len() ==> layout_ok::<F>(#[trigger] texts@[i]),
                forall|i: int|
                    0 <= i < texts@.len() ==> (wrap is Everywhere ==> everywhere_ends::<F>(
                        (#[trigger] texts@[i])@,
                        max_dimensions,
                    )),
                forall|i: int|
                    0 <= i < texts@.len() ==> spec_layout_width::<F>(
                        (#[trigger] texts@[i])@,
                        wrap,
                        max_dimensions,
                        iter_lines::<F>(tv, i, wrap, max_dimensions).len() as int,
                    ) < u32::MAX,
                line_views(lines@) == iter_lines::<F>(tv, k as int, wrap, max_dimensions),
                longest_line == iter_width::<F>(tv, k as int, wrap, max_dimensions),
                forall|i: int|
                    0 <= i < lines@.len() ==> (#[trigger] lines@[i]).text.is_ascii()
                        && text_width::<F>(lines@[i].text@) <= usize::MAX,
            decreases texts@.len() - k,
        {
            let text = texts[k];
            assert(tv[k as int] == text@);
            let ghost before = lines@;
            let w = Self::layout_into(text, &mut lines, wrap, max_dimensions);
            let width = w + 1;
            if width > longest_line {
                longest_line = width;
            }
            proof {
                assert(line_views(lines@).len() == lines@.len());
                assert(line_views(before).len() == before.len());
                let added = lines@.subrange(before.len() as int, lines@.len() as int);
                assert forall|i: int| 0 <= i < added.len() implies is_piece_of((#[trigger] added[i]).text@, text@) by {
                    assert(added[i] == lines@[before.len() + i]);
                }
                lemma_pieces_wf::<F>(added, text);
                assert forall|i: int| 0 <= i < lines@.len() implies (#[trigger] lines@[i]).text.is_ascii()
                    && text_width::<F>(lines@[i].text@) <= usize::MAX by {
                    if i >= before.len() {
                        assert(lines@[i] == added[i - before.len()]);
                    } else {
                        assert(lines@[i] == before[i]);
                    }
                }
            }
            k = k + 1;
        }
        let count = if lines.len() > 1 {
            lines.len()
        } else {
            1
        };
        let dimensions = Dimension::new(longest_line, count as u32 * F::CHAR_HEIGHT);
        Lines { lines, dimensions, font: PhantomData }
    }

    /// Where the character at `index` (counted over all lines) is drawn, relative to the
    /// top left of the text; past the end, the position after the last line.
    pub fn char_position(&self, index: usize) -> (r: Position)
        requires
            self.wf(),
            total_len(self@) <= usize::MAX,
            end_position_fits::<F>(self@),
            F::CHAR_WIDTH > 0,
            F::CHAR_HEIGHT > 0,
        ensures
            r == char_pos_from::<F>(self@, 0, 0, index as int),
    {
        let n = self.lines.len();
        let mut curr_index: usize = 0;
        let mut i: usize = 0;
        proof {
            lemma_total_len_prefix(self@, 0);
        }
        while i < n
            invariant
                n == self.lines@.len(),
                self.wf(),
                i <= n,
                total_len(self@) <= usize::MAX,
                end_position_fits::<F>(self@),
                F::CHAR_WIDTH > 0,
                F::CHAR_HEIGHT > 0,
                curr_index == total_len(self@.take(i as int)),
                curr_index <= index,
                char_pos_from::<F>(self@, i as int, curr_index as int, index as int)
                    == char_pos_from::<F>(self@, 0, 0, index as int),
            decreases n - i,
        {
            let line = &self.lines[i];
            let len = line.text.unicode_len();
            proof {
                lemma_total_len_prefix(self@, i as int + 1);
                assert(self@.take(i as int + 1).drop_last() =~= self@.take(i as int));
                assert(self@[i as int].0 == line.text@);
            }
            if curr_index + len >= index {
                let char_index = index - curr_index;
                proof {
                    lemma_ascii_prefix(line.text, min_int(char_index as int, len as int));
                    lemma_ascii_prefix(line.text, 0);
                }
                let x = line.width_at::<F>(char_index);
                let ch = F::CHAR_HEIGHT;
                proof {
                    assert(i * ch <= n * ch && i <= i * ch) by (nonlinear_arith)
                        requires
                            i <= n,
                            ch > 0,
                    ;
                    assert(index - curr_index <= len);
                }
                return Position { x: x as i64, y: i as i64 * ch as i64 };
            }
            curr_index = curr_index + len;
            i = i + 1;
        }
        let last_len = if n > 0 {
            self.lines[n - 1].text.unicode_len()
        } else {
            0
        };
        let cw = F::CHAR_WIDTH;
        let ch = F::CHAR_HEIGHT;
        proof {
            assert(last_len <= last_len * cw && n <= n * ch) by (nonlinear_arith)
                requires
                    cw > 0,
                    ch > 0,
            ;
        }
        Position { x: last_len as i64 * cw as i64, y: n as i64 * ch as i64 }
    }
}

} // verus!
