use vstd::prelude::*;

verus! {

/// A piece of a source line: its start, its end, and whether it breaks a word.
pub type Seg = (int, int, bool);

/// The state of wrapping one source line: the pieces emitted so far, where the current
/// output line starts, and how many characters it holds so far (words with the separator
/// after each).
pub type WrapState = (Seq<Seg>, int, int);

pub open spec fn is_word_break(c: char) -> bool {
    c == ' ' || c == '-'
}

/// Cuts a word that is longer than a line into full lines, until what is left fits.
pub open spec fn split_long(segs: Seq<Seg>, ls: int, wl: int, cpl: int, hyphenate: bool) -> (
    Seq<Seg>,
    int,
    int,
)
    decreases wl,
{
    if cpl > 0 && wl > cpl {
        split_long(segs.push((ls, ls + cpl, hyphenate)), ls + cpl, wl - cpl, cpl, hyphenate)
    } else {
        (segs, ls, wl)
    }
}

/// Adds a word of `wl` characters to the current output line: a word too long for any
/// line is cut first, and the current line is closed when the word does not fit on it.
pub open spec fn word_step(st: WrapState, wl: int, cpl: int, hyphenate: bool) -> WrapState {
    let (segs, ls, lp) = st;
    let (segs1, ls1) = if wl > cpl && lp > 0 {
        (segs.push((ls, ls + lp, false)), ls + lp)
    } else {
        (segs, ls)
    };
    let (segs2, ls2, wl2) = if wl > cpl {
        split_long(segs1, ls1, wl, cpl, hyphenate)
    } else {
        (segs1, ls1, wl)
    };
    let lp2 = if wl > cpl { 0 } else { lp };
    let (segs3, ls3, lp3) = if lp2 + wl2 > cpl {
        (segs2.push((ls2, ls2 + lp2, false)), ls2 + lp2, 0)
    } else {
        (segs2, ls2, lp2)
    };
    (segs3, ls3, lp3 + wl2 + 1)
}

/// The wrapping state after looking at the first `n` positions of a source line, and
/// where the current word starts. A word ends at a space, a hyphen or the end of the line.
pub open spec fn scan_words(s: Seq<char>, n: int, cpl: int, hyphenate: bool) -> (WrapState, int)
    decreases n,
{
    if n <= 0 {
        ((seq![], 0, 0), 0)
    } else {
        let (st, ws) = scan_words(s, n - 1, cpl, hyphenate);
        let i = n - 1;
        if i >= s.len() || is_word_break(s[i]) {
            (word_step(st, i - ws, cpl, hyphenate), i + 1)
        } else {
            (st, ws)
        }
    }
}

/// The state after wrapping a whole source line.
pub open spec fn line_state(s: Seq<char>, cpl: int, hyphenate: bool) -> WrapState {
    scan_words(s, s.len() + 1int, cpl, hyphenate).0
}

pub open spec fn seg_lines(s: Seq<char>, segs: Seq<Seg>) -> Seq<(Seq<char>, bool)> {
    segs.map_values(|g: Seg| (s.subrange(g.0, g.1), g.2))
}

/// Word-wraps the first `k` source lines; `count0` lines were there before. Once the
/// output reaches `max_lines` after a source line's full lines, the rest of that source
/// line and all later source lines are dropped (the flag says so).
pub open spec fn wrap_upto(
    src: Seq<Seq<char>>,
    k: int,
    cpl: int,
    hyphenate: bool,
    max_lines: int,
    count0: int,
) -> (Seq<(Seq<char>, bool)>, bool)
    decreases k,
{
    if k <= 0 {
        (seq![], false)
    } else {
        let (out, stopped) = wrap_upto(src, k - 1, cpl, hyphenate, max_lines, count0);
        if stopped {
            (out, true)
        } else {
            let l = src[k - 1];
            let (segs, ls, _lp) = line_state(l, cpl, hyphenate);
            let out2 = out + seg_lines(l, segs);
            if count0 + out2.len() >= max_lines {
                (out2, true)
            } else if ls < l.len() {
                (out2.push((l.subrange(ls, l.len() as int), false)), false)
            } else {
                (out2, false)
            }
        }
    }
}

/// A source line cut into pieces of `cpl` characters (the last one may be shorter).
pub open spec fn chunks(s: Seq<char>, cpl: int) -> Seq<Seq<char>>
    decreases s.len(),
{
    if s.len() == 0 {
        seq![]
    } else if cpl > 0 && s.len() > cpl {
        seq![s.take(cpl)] + chunks(s.skip(cpl), cpl)
    } else {
        seq![s]
    }
}

/// Cuts the first `k` source lines into pieces of `cpl` characters.
pub open spec fn chunk_upto(src: Seq<Seq<char>>, k: int, cpl: int) -> Seq<Seq<char>>
    decreases k,
{
    if k <= 0 {
        seq![]
    } else {
        chunk_upto(src, k - 1, cpl) + chunks(src[k - 1], cpl)
    }
}

/// Once wrapping stopped, later source lines change nothing.
pub proof fn lemma_wrap_stopped(
    src: Seq<Seq<char>>,
    k: int,
    j: int,
    cpl: int,
    hyphenate: bool,
    max_lines: int,
    count0: int,
)
    requires
        0 <= k <= j,
        wrap_upto(src, k, cpl, hyphenate, max_lines, count0).1,
    ensures
        wrap_upto(src, j, cpl, hyphenate, max_lines, count0) == wrap_upto(
            src,
            k,
            cpl,
            hyphenate,
            max_lines,
            count0,
        ),
    decreases j - k,
{
    if j > k {
        lemma_wrap_stopped(src, k, j - 1, cpl, hyphenate, max_lines, count0);
    }
}

} // verus!
