use super::ast::{EmbedAnchor, MetaData};
use vstd::prelude::*;

verus! {

broadcast use vstd::string::group_string_axioms;

/// Whether a character is an ASCII letter or digit.
pub open spec fn is_alnum(c: char) -> bool {
    ('a' <= c <= 'z') || ('A' <= c <= 'Z') || ('0' <= c <= '9')
}

/// How many letters and digits a text starts with.
pub open spec fn alnum_len(s: Seq<char>) -> nat
    decreases s.len(),
{
    if s.len() > 0 && is_alnum(s[0]) {
        1 + alnum_len(s.drop_first())
    } else {
        0
    }
}

proof fn lemma_alnum_len(s: Seq<char>)
    ensures
        alnum_len(s) <= s.len(),
        forall|i: int| 0 <= i < alnum_len(s) ==> is_alnum(#[trigger] s[i]),
        alnum_len(s) < s.len() ==> !is_alnum(s[alnum_len(s) as int]),
    decreases s.len(),
{
    if s.len() > 0 && is_alnum(s[0]) {
        lemma_alnum_len(s.drop_first());
        assert forall|i: int| 1 <= i < alnum_len(s) implies is_alnum(#[trigger] s[i]) by {
            assert(s[i] == s.drop_first()[i - 1]);
        }
    }
}

/// The opening and closing marks of a section heading.
pub open spec fn heading_open() -> Seq<char> {
    seq!['=', '=', '=', ' ']
}

pub open spec fn heading_close() -> Seq<char> {
    seq![' ', '=', '=', '=']
}

/// What a section heading `=== name ===` gives: the text after it and the name (`main`
/// when the name is empty); nothing if the text does not start with a heading.
pub open spec fn spec_parse_heading(s: Seq<char>) -> Option<(Seq<char>, Seq<char>)> {
    let k = 4 + alnum_len(s.skip(4)) as int;
    if s.len() >= 4 && s.take(4) == heading_open() && k + 4 <= s.len() && s.subrange(k, k + 4)
        == heading_close() {
        Some((s.skip(k + 4), if k == 4 {
            seq!['m', 'a', 'i', 'n']
        } else {
            s.subrange(4, k)
        }))
    } else {
        None
    }
}

/// Reads the marks of a heading at `start`.
fn marks_at(s: &str, start: usize, c0: char, c1: char, c2: char, c3: char) -> (r: bool)
    requires
        start + 4 <= s@.len(),
        s@.len() <= usize::MAX,
    ensures
        r == (s@.subrange(start as int, start + 4) == seq![c0, c1, c2, c3]),
{
    let r = s.get_char(start) == c0 && s.get_char(start + 1) == c1 && s.get_char(start + 2) == c2
        && s.get_char(start + 3) == c3;
    proof {
        if r {
            assert(s@.subrange(start as int, start + 4) =~= seq![c0, c1, c2, c3]);
        } else if s@.subrange(start as int, start + 4) == seq![c0, c1, c2, c3] {
            assert(s@.subrange(start as int, start + 4)[0] == c0);
            assert(s@.subrange(start as int, start + 4)[1] == c1);
            assert(s@.subrange(start as int, start + 4)[2] == c2);
            assert(s@.subrange(start as int, start + 4)[3] == c3);
        }
    }
    r
}

/// Whether character `k` is a letter or digit.
fn alnum_at(s: &str, k: usize) -> (r: bool)
    requires
        k < s@.len(),
    ensures
        r == is_alnum(s@[k as int]),
{
    let c = s.get_char(k);
    ('a' <= c && c <= 'z') || ('A' <= c && c <= 'Z') || ('0' <= c && c <= '9')
}

/// Reads a section heading `=== name ===`; gives the text after it and the section's
/// name.
pub fn parse_heading<'a>(input: &'a str) -> (r: Option<(&'a str, &'a str)>)
    ensures
        match spec_parse_heading(input@) {
            Some((rest, name)) => r is Some && r.unwrap().0@ == rest && r.unwrap().1@ == name,
            None => r is None,
        },
{
    let len = input.unicode_len();
    if len < 4 || !marks_at(input, 0, '=', '=', '=', ' ') {
        proof {
            assert(input@.take(4) =~= input@.subrange(0, 4));
        }
        return None;
    }
    proof {
        assert(input@.take(4) =~= input@.subrange(0, 4));
        lemma_alnum_len(input@.skip(4));
    }
    let mut k: usize = 4;
    while k < len && alnum_at(input, k)
        invariant
            len == input@.len(),
            4 <= k <= 4 + alnum_len(input@.skip(4)),
            4 + alnum_len(input@.skip(4)) <= len,
            forall|i: int| 0 <= i < alnum_len(input@.skip(4)) ==> is_alnum(
                #[trigger] input@.skip(4)[i],
            ),
            4 + alnum_len(input@.skip(4)) < len ==> !is_alnum(
                input@.skip(4)[alnum_len(input@.skip(4)) as int],
            ),
        decreases len - k,
    {
        assert(input@.skip(4)[k - 4] == input@[k as int]);
        k = k + 1;
    }
    proof {
        if k < 4 + alnum_len(input@.skip(4)) {
            assert(input@.skip(4)[k - 4] == input@[k as int]);
        }
        assert(k == 4 + alnum_len(input@.skip(4)));
    }
    if len - k < 4 || !marks_at(input, k, ' ', '=', '=', '=') {
        return None;
    }
    let rest = input.substring_char(k + 4, len);
    let name = if k == 4 {
        let m = "main";
        proof {
            reveal_strlit("main");
        }
        m
    } else {
        input.substring_char(4, k)
    };
    proof {
        assert(rest@ =~= input@.skip(k + 4));
    }
    Some((rest, name))
}

impl<'a> MetaData<'a> {
    /// Reads a document's metadata: nothing yet, so every field is empty and the input is
    /// left as it is.
    pub fn parse(input: &'a str) -> (r: (&'a str, MetaData<'a>))
        ensures
            r.0@ == input@,
            r.1.name is None,
            r.1.icon is None,
            r.1.includes@.len() == 0,
    {
        (input, MetaData { name: None, icon: None, includes: Vec::new() })
    }
}


/// The words that name where an embed goes, in the order they are tried.
pub open spec fn anchor_word(a: EmbedAnchor) -> Seq<char> {
    match a {
        EmbedAnchor::Fill => seq!['f', 'i', 'l', 'l'],
        EmbedAnchor::Left => seq!['l', 'e', 'f', 't'],
        EmbedAnchor::Right => seq!['r', 'i', 'g', 'h', 't'],
        EmbedAnchor::Top => seq!['t', 'o', 'p'],
        EmbedAnchor::Bottom => seq!['b', 'o', 't', 't', 'o', 'm'],
    }
}

pub open spec fn starts_with(s: Seq<char>, p: Seq<char>) -> bool {
    p.len() <= s.len() && s.take(p.len() as int) == p
}

/// What reading an anchor gives: the first of `fill`, `left`, `right`, `top` and `bottom`
/// that the text starts with, and the text after it.
pub open spec fn spec_parse_anchor(s: Seq<char>) -> Option<(Seq<char>, EmbedAnchor)> {
    if starts_with(s, anchor_word(EmbedAnchor::Fill)) {
        Some((s.skip(4), EmbedAnchor::Fill))
    } else if starts_with(s, anchor_word(EmbedAnchor::Left)) {
        Some((s.skip(4), EmbedAnchor::Left))
    } else if starts_with(s, anchor_word(EmbedAnchor::Right)) {
        Some((s.skip(5), EmbedAnchor::Right))
    } else if starts_with(s, anchor_word(EmbedAnchor::Top)) {
        Some((s.skip(3), EmbedAnchor::Top))
    } else if starts_with(s, anchor_word(EmbedAnchor::Bottom)) {
        Some((s.skip(6), EmbedAnchor::Bottom))
    } else {
        None
    }
}

/// Whether the text starts with the characters of `word`.
fn has_prefix(s: &str, word: &str) -> (r: bool)
    ensures
        r == starts_with(s@, word@),
{
    let n = word.unicode_len();
    let len = s.unicode_len();
    if n > len {
        return false;
    }
    let mut i: usize = 0;
    while i < n
        invariant
            n == word@.len(),
            len == s@.len(),
            n <= len,
            i <= n,
            forall|j: int| 0 <= j < i ==> s@[j] == word@[j],
        decreases n - i,
    {
        if s.get_char(i) != word.get_char(i) {
            proof {
                assert(s@.take(n as int)[i as int] != word@[i as int]);
            }
            return false;
        }
        i = i + 1;
    }
    assert(s@.take(n as int) =~= word@);
    true
}

impl EmbedAnchor {
    /// Reads where an embed goes; gives the text after the word and the anchor, or nothing
    /// if the text starts with none of the words.
    pub fn parse<'a>(input: &'a str) -> (r: Option<(&'a str, EmbedAnchor)>)
        ensures
            match spec_parse_anchor(input@) {
                Some((rest, a)) => r matches Some((rest2, a2)) && rest2@ == rest && a2 == a,
                None => r is None,
            },
    {
        let len = input.unicode_len();
        proof {
            reveal_strlit("fill");
            reveal_strlit("left");
            reveal_strlit("right");
            reveal_strlit("top");
            reveal_strlit("bottom");
        }
        let (n, anchor): (usize, EmbedAnchor) = if has_prefix(input, "fill") {
            (4, EmbedAnchor::Fill)
        } else if has_prefix(input, "left") {
            (4, EmbedAnchor::Left)
        } else if has_prefix(input, "right") {
            (5, EmbedAnchor::Right)
        } else if has_prefix(input, "top") {
            (3, EmbedAnchor::Top)
        } else if has_prefix(input, "bottom") {
            (6, EmbedAnchor::Bottom)
        } else {
            proof {
                assert("fill"@ =~= anchor_word(EmbedAnchor::Fill));
                assert("left"@ =~= anchor_word(EmbedAnchor::Left));
                assert("right"@ =~= anchor_word(EmbedAnchor::Right));
                assert("top"@ =~= anchor_word(EmbedAnchor::Top));
                assert("bottom"@ =~= anchor_word(EmbedAnchor::Bottom));
            }
            return None;
        };
        proof {
            assert("fill"@ =~= anchor_word(EmbedAnchor::Fill));
            assert("left"@ =~= anchor_word(EmbedAnchor::Left));
            assert("right"@ =~= anchor_word(EmbedAnchor::Right));
            assert("top"@ =~= anchor_word(EmbedAnchor::Top));
            assert("bottom"@ =~= anchor_word(EmbedAnchor::Bottom));
        }
        let rest = input.substring_char(n, len);
        assert(rest@ =~= input@.skip(n as int));
        Some((rest, anchor))
    }
}

/// Each anchor word reads as its own anchor, whatever follows it: `fill`, `left`,
/// `right`, `top` and `bottom` give the fill, left, right, top and bottom anchors and
/// leave the text after the word.
pub proof fn lemma_anchor_words(rest: Seq<char>)
    ensures
        spec_parse_anchor(seq!['f', 'i', 'l', 'l'] + rest) == Some((rest, EmbedAnchor::Fill)),
        spec_parse_anchor(seq!['l', 'e', 'f', 't'] + rest) == Some((rest, EmbedAnchor::Left)),
        spec_parse_anchor(seq!['r', 'i', 'g', 'h', 't'] + rest) == Some((rest, EmbedAnchor::Right)),
        spec_parse_anchor(seq!['t', 'o', 'p'] + rest) == Some((rest, EmbedAnchor::Top)),
        spec_parse_anchor(seq!['b', 'o', 't', 't', 'o', 'm'] + rest) == Some(
            (rest, EmbedAnchor::Bottom),
        ),
{
    let fill = seq!['f', 'i', 'l', 'l'] + rest;
    let left = seq!['l', 'e', 'f', 't'] + rest;
    let right = seq!['r', 'i', 'g', 'h', 't'] + rest;
    let top = seq!['t', 'o', 'p'] + rest;
    let bottom = seq!['b', 'o', 't', 't', 'o', 'm'] + rest;
    assert(fill.take(4) =~= anchor_word(EmbedAnchor::Fill));
    assert(fill.skip(4) =~= rest);
    if 4 <= left.len() {
        assert(left.take(4)[0] != anchor_word(EmbedAnchor::Fill)[0]);
    }
    assert(left.take(4) =~= anchor_word(EmbedAnchor::Left));
    assert(left.skip(4) =~= rest);
    if 4 <= right.len() {
        assert(right.take(4)[0] != anchor_word(EmbedAnchor::Fill)[0]);
    }
    if 4 <= right.len() {
        assert(right.take(4)[0] != anchor_word(EmbedAnchor::Left)[0]);
    }
    assert(right.take(5) =~= anchor_word(EmbedAnchor::Right));
    assert(right.skip(5) =~= rest);
    if 4 <= top.len() {
        assert(top.take(4)[0] != anchor_word(EmbedAnchor::Fill)[0]);
    }
    if 4 <= top.len() {
        assert(top.take(4)[0] != anchor_word(EmbedAnchor::Left)[0]);
    }
    if 5 <= top.len() {
        assert(top.take(5)[0] != anchor_word(EmbedAnchor::Right)[0]);
    }
    assert(top.take(3) =~= anchor_word(EmbedAnchor::Top));
    assert(top.skip(3) =~= rest);
    if 4 <= bottom.len() {
        assert(bottom.take(4)[0] != anchor_word(EmbedAnchor::Fill)[0]);
    }
    if 4 <= bottom.len() {
        assert(bottom.take(4)[0] != anchor_word(EmbedAnchor::Left)[0]);
    }
    if 5 <= bottom.len() {
        assert(bottom.take(5)[0] != anchor_word(EmbedAnchor::Right)[0]);
    }
    if 3 <= bottom.len() {
        assert(bottom.take(3)[0] != anchor_word(EmbedAnchor::Top)[0]);
    }
    assert(bottom.take(6) =~= anchor_word(EmbedAnchor::Bottom));
    assert(bottom.skip(6) =~= rest);
}

} // verus!
