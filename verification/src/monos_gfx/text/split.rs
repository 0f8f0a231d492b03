use vstd::prelude::*;
use vstd::string::*;

verus! {

broadcast use vstd::string::group_string_axioms;

/// The index of the first `'\n'` in `s` at or after `i`, or `s.len()` if there is none.
pub open spec fn find_newline(s: Seq<char>, i: int) -> int
    decreases s.len() - i,
{
    if i >= s.len() {
        s.len() as int
    } else if s[i] == '\n' {
        i
    } else {
        find_newline(s, i + 1)
    }
}

/// A line without its terminating carriage return, if it has one.
pub open spec fn strip_cr(s: Seq<char>) -> Seq<char> {
    if s.len() > 0 && s.last() == '\r' {
        s.drop_last()
    } else {
        s
    }
}

/// The lines of a text as `str::lines` yields them: split at `'\n'`, a `'\r'` right before
/// a `'\n'` removed, and no empty last line after a final line ending.
pub open spec fn split_lines(s: Seq<char>) -> Seq<Seq<char>>
    decreases s.len(),
{
    if s.len() == 0 {
        seq![]
    } else {
        let i = find_newline(s, 0);
        proof {
            lemma_find_newline(s, 0);
        }
        if i >= s.len() {
            seq![s]
        } else {
            seq![strip_cr(s.take(i))] + split_lines(s.skip(i + 1))
        }
    }
}

pub proof fn lemma_find_newline(s: Seq<char>, i: int)
    requires
        0 <= i <= s.len(),
    ensures
        i <= find_newline(s, i) <= s.len(),
        forall|j: int| i <= j < find_newline(s, i) ==> s[j] != '\n',
        find_newline(s, i) < s.len() ==> s[find_newline(s, i)] == '\n',
    decreases s.len() - i,
{
    if i < s.len() && s[i] != '\n' {
        lemma_find_newline(s, i + 1);
    }
}

pub proof fn lemma_find_newline_shift(s: Seq<char>, k: int, i: int)
    requires
        0 <= k <= i <= s.len(),
    ensures
        find_newline(s.skip(k), i - k) == find_newline(s, i) - k,
    decreases s.len() - i,
{
    if i < s.len() && s[i] != '\n' {
        lemma_find_newline_shift(s, k, i + 1);
    }
}

/// `a` is a contiguous piece of `s`.
pub open spec fn is_piece_of(a: Seq<char>, s: Seq<char>) -> bool {
    exists|i: int, j: int| 0 <= i <= j <= s.len() && a == s.subrange(i, j)
}

/// A piece of a piece is a piece.
pub proof fn lemma_piece_of_piece(a: Seq<char>, b: Seq<char>, s: Seq<char>)
    requires
        is_piece_of(a, b),
        is_piece_of(b, s),
    ensures
        is_piece_of(a, s),
{
    let (i, j) = choose|i: int, j: int| 0 <= i <= j <= b.len() && a == b.subrange(i, j);
    let (k, l) = choose|k: int, l: int| 0 <= k <= l <= s.len() && b == s.subrange(k, l);
    assert(a =~= s.subrange(k + i, k + j));
}

/// Splits an ASCII text into its lines (see `split_lines`), each a slice of the text.
pub fn text_lines<'a>(text: &'a str) -> (r: Vec<&'a str>)
    requires
        text.is_ascii(),
    ensures
        r@.map_values(|l: &'a str| l@) == split_lines(text@),
        forall|i: int| 0 <= i < r@.len() ==> (#[trigger] r@[i]).is_ascii(),
        forall|i: int| 0 <= i < r@.len() ==> is_piece_of((#[trigger] r@[i])@, text@),
{
    let mut out: Vec<&'a str> = Vec::new();
    let len = text.unicode_len();
    proof {
        assert(is_ascii(text));
    }
    let mut start: usize = 0;
    proof {
        assert(text@.skip(0) =~= text@);
        assert(out@.map_values(|l: &'a str| l@) + split_lines(text@) =~= split_lines(text@));
    }
    while start < len
        invariant
            text.is_ascii(),
            len == text@.len(),
            start <= len,
            out@.map_values(|l: &'a str| l@) + split_lines(text@.skip(start as int)) == split_lines(
                text@,
            ),
            forall|i: int| 0 <= i < out@.len() ==> (#[trigger] out@[i]).is_ascii(),
            forall|i: int| 0 <= i < out@.len() ==> is_piece_of((#[trigger] out@[i])@, text@),
        decreases len - start,
    {
        let ghost rest = text@.skip(start as int);
        let mut end = start;
        while end < len && text.get_ascii(end) != 10u8
            invariant
                text.is_ascii(),
                len == text@.len(),
                start <= end <= len,
                forall|j: int| start <= j < end ==> text@[j] != '\n',
            decreases len - end,
        {
            end = end + 1;
        }
        proof {
            if end < len {
                assert(text@[end as int] as u8 == 10u8);
                assert('\0' <= text@[end as int] <= '\u{7f}');
                assert(text@[end as int] == '\n');
            }
            lemma_find_newline(rest, 0);
            lemma_find_newline_shift(text@, start as int, start as int);
            lemma_find_newline(text@, start as int);
            assert(find_newline(text@, start as int) == end) by {
                lemma_find_newline(text@, start as int);
                if find_newline(text@, start as int) < end {
                    assert(text@[find_newline(text@, start as int)] == '\n');
                }
            }
            assert(rest.len() > 0);
        }
        if end == len {
            let line = text.substring_ascii(start, len);
            proof {
                assert(line@ == text@.subrange(start as int, len as int));
                assert(line@ =~= rest);
                assert(split_lines(rest) == seq![rest]);
                assert(text@.skip(len as int) =~= Seq::<char>::empty());
            }
            let ghost before = out@.map_values(|l: &'a str| l@);
            out.push(line);
            start = len;
            proof {
                assert(out@.map_values(|l: &'a str| l@) =~= before.push(rest));
                assert(before.push(rest) + Seq::<Seq<char>>::empty() =~= before + seq![rest]);
            }
        } else {
            let mut line_end = end;
            if end > start && text.get_ascii(end - 1) == 13u8 {
                line_end = end - 1;
            }
            let line = text.substring_ascii(start, line_end);
            proof {
                assert(line@ == text@.subrange(start as int, line_end as int));
                let piece = rest.take(end - start);
                if end > start && text@[end - 1] as u8 == 13u8 {
                    assert('\0' <= text@[end - 1] <= '\u{7f}');
                    assert(text@[end - 1] == '\r');
                    assert(line@ =~= piece.drop_last());
                } else {
                    if end > start {
                        assert(text@[end - 1] != '\r');
                    }
                    assert(line@ =~= piece);
                }
                assert(line@ == strip_cr(piece));
                assert(rest.skip(end - start + 1) =~= text@.skip(end + 1));
            }
            let ghost before = out@.map_values(|l: &'a str| l@);
            out.push(line);
            proof {
                assert(out@.map_values(|l: &'a str| l@) =~= before.push(line@));
                assert(split_lines(rest) == seq![line@] + split_lines(text@.skip(end + 1)));
                assert(before.push(line@) + split_lines(text@.skip(end + 1)) =~= before + (seq![
                    line@,
                ] + split_lines(text@.skip(end + 1))));
            }
            start = end + 1;
        }
    }
    proof {
        assert(text@.skip(start as int) =~= Seq::<char>::empty());
        assert(out@.map_values(|l: &'a str| l@) + Seq::<Seq<char>>::empty() =~= out@.map_values(
            |l: &'a str| l@,
        ));
    }
    out
}

} // verus!
