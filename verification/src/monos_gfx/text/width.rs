use super::font::Font;
use vstd::prelude::*;

verus! {

/// How many pixels a character advances: the width of its glyph, or nothing if the
/// font has no glyph for it.
pub open spec fn glyph_width<F: Font>(c: char) -> nat {
    match F::glyph(c) {
        Some(s) => s[0] as nat,
        None => 0,
    }
}

/// The width of a text in pixels: the sum of the widths of its characters.
pub open spec fn text_width<F: Font>(s: Seq<char>) -> nat
    decreases s.len(),
{
    if s.len() == 0 {
        0
    } else {
        text_width::<F>(s.drop_last()) + glyph_width::<F>(s.last())
    }
}

/// Widths add up over concatenation.
pub proof fn lemma_text_width_concat<F: Font>(a: Seq<char>, b: Seq<char>)
    ensures
        text_width::<F>(a + b) == text_width::<F>(a) + text_width::<F>(b),
    decreases b.len(),
{
    if b.len() == 0 {
        assert(a + b =~= a);
    } else {
        lemma_text_width_concat::<F>(a, b.drop_last());
        assert((a + b).drop_last() =~= a + b.drop_last());
    }
}

/// A piece of a text is at most as wide as the whole text.
pub proof fn lemma_text_width_subrange<F: Font>(s: Seq<char>, i: int, j: int)
    requires
        0 <= i <= j <= s.len(),
    ensures
        text_width::<F>(s.subrange(i, j)) <= text_width::<F>(s),
{
    lemma_text_width_concat::<F>(s.take(i), s.subrange(i, j));
    lemma_text_width_concat::<F>(s.take(j), s.skip(j));
    assert(s.take(i) + s.subrange(i, j) =~= s.take(j));
    assert(s.take(j) + s.skip(j) =~= s);
}

} // verus!
