use super::ast::{
    kind_v, cell_v, cells_v, content_v, contents_v, doc_v, inlines_v, row_v, rows_v, section_v,
    sections_v, CellV, Content, ContentKind, ContentV, DocV, EmbedAnchor, EmbedTarget, Inline,
    InlineKind, InlineV, KindV, MetaData, MonoDoc, RowV, Section, SectionV, TableCell, TableRow,
    TargetV,
};
use super::parse::{alnum_len, is_alnum, parse_heading, spec_parse_anchor, spec_parse_heading};
use vstd::prelude::*;

verus! {

broadcast use vstd::string::group_string_axioms;

/// Which characters a run of text takes.
pub enum Run {
    /// Inline text: anything but a line break or a cell border.
    Text,
    /// The target of an embed: anything but a comma, a closing bracket or a line break.
    Target,
}

pub open spec fn keeps(run: Run, c: char) -> bool {
    match run {
        Run::Text => c != '\n' && c != '|',
        Run::Target => c != ',' && c != ']' && c != '\n',
    }
}

/// How many characters at the start of `s` belong to a run.
pub open spec fn run_len(s: Seq<char>, run: Run) -> nat
    decreases s.len(),
{
    if s.len() > 0 && keeps(run, s[0]) {
        1 + run_len(s.drop_first(), run)
    } else {
        0
    }
}

/// `p` stands in `s` at index `k`.
pub open spec fn seq_at(s: Seq<char>, k: int, p: Seq<char>) -> bool {
    0 <= k && k + p.len() <= s.len() && s.subrange(k, k + p.len()) == p
}

pub open spec fn first_is(s: Seq<char>, c: char) -> bool {
    s.len() > 0 && s[0] == c
}

/// The character offset in a document of `total` characters where the rest `s` starts.
pub open spec fn pos(total: int, s: Seq<char>) -> int {
    total - s.len()
}

/// The inlines at the start of `s`: one run of text, if there is any, and what follows.
pub open spec fn spec_inlines(s: Seq<char>, total: int) -> (Seq<char>, Seq<InlineV>) {
    let n = run_len(s, Run::Text) as int;
    if n > 0 {
        (s.skip(n), seq![InlineV { position: pos(total, s), text: s.take(n) }])
    } else {
        (s, Seq::empty())
    }
}

/// A table cell: inlines closed by `|`.
pub open spec fn spec_cell(s: Seq<char>, total: int) -> Option<(Seq<char>, CellV)> {
    let (r, c) = spec_inlines(s, total);
    if first_is(r, '|') {
        Some((r.skip(1), CellV { position: pos(total, s), content: c }))
    } else {
        None
    }
}

/// As many cells as follow one another.
pub open spec fn spec_cells(s: Seq<char>, total: int) -> (Seq<char>, Seq<CellV>)
    decreases s.len(),
{
    match spec_cell(s, total) {
        Some((r, c)) => if r.len() < s.len() {
            let (r2, cs) = spec_cells(r, total);
            (r2, seq![c] + cs)
        } else {
            (s, Seq::empty())
        },
        None => (s, Seq::empty()),
    }
}

/// A table row: `|` and at least one cell.
pub open spec fn spec_row(s: Seq<char>, total: int) -> Option<(Seq<char>, RowV)> {
    if first_is(s, '|') {
        let (r, cs) = spec_cells(s.skip(1), total);
        if cs.len() > 0 {
            Some((r, RowV { position: pos(total, s), cells: cs }))
        } else {
            None
        }
    } else {
        None
    }
}

/// As many rows, each ended by a line break, as follow one another.
pub open spec fn spec_rows(s: Seq<char>, total: int) -> (Seq<char>, Seq<RowV>)
    decreases s.len(),
{
    match spec_row(s, total) {
        Some((r, row)) => if first_is(r, '\n') && r.len() <= s.len() {
            let (r2, rs) = spec_rows(r.skip(1), total);
            (r2, seq![row] + rs)
        } else {
            (s, Seq::empty())
        },
        None => (s, Seq::empty()),
    }
}

/// A heading block: `# `, inlines and a line break.
pub open spec fn spec_heading_block(s: Seq<char>, total: int) -> Option<(Seq<char>, KindV)> {
    if seq_at(s, 0, seq!['#', ' ']) {
        let (r, inl) = spec_inlines(s.skip(2), total);
        if first_is(r, '\n') {
            Some((r.skip(1), KindV::Heading(inl)))
        } else {
            None
        }
    } else {
        None
    }
}

/// A table: at least one row.
pub open spec fn spec_table(s: Seq<char>, total: int) -> Option<(Seq<char>, KindV)> {
    let (r, rows) = spec_rows(s, total);
    if rows.len() > 0 {
        Some((r, KindV::Table(rows)))
    } else {
        None
    }
}

pub open spec fn fence() -> Seq<char> {
    seq!['`', '`', '`']
}

/// The first index from `k` on where a fence stands.
pub open spec fn find_fence(s: Seq<char>, k: int) -> Option<int>
    decreases s.len() - k,
{
    if k < 0 || k + 3 > s.len() {
        None
    } else if seq_at(s, k, fence()) {
        Some(k)
    } else {
        find_fence(s, k + 1)
    }
}

/// A fenced block: a script block when its text starts with `!` (kept without it), a
/// code block otherwise.
pub open spec fn spec_fenced(s: Seq<char>, total: int) -> Option<(Seq<char>, KindV)> {
    if seq_at(s, 0, fence()) {
        match find_fence(s, 3) {
            Some(k) => {
                let body = s.subrange(3, k);
                Some((s.skip(k + 3), if first_is(body, '!') {
                    KindV::MonoscriptBlock(body.skip(1))
                } else {
                    KindV::CodeBlock(body)
                }))
            },
            None => None,
        }
    } else {
        None
    }
}

/// An embed: `![[`, a target, `,`, an anchor and `]]` with a line break.
pub open spec fn spec_embed(s: Seq<char>, total: int) -> Option<(Seq<char>, KindV)> {
    if seq_at(s, 0, seq!['!', '[', '[']) {
        let t = s.skip(3);
        let n = run_len(t, Run::Target) as int;
        if n > 0 && first_is(t.skip(n), ',') {
            match spec_parse_anchor(t.skip(n + 1)) {
                Some((r, a)) => if seq_at(r, 0, seq![']', ']', '\n']) {
                    Some((r.skip(3), KindV::Embed { target: TargetV::File(t.take(n)), anchor: a }))
                } else {
                    None
                },
                None => None,
            }
        } else {
            None
        }
    } else {
        None
    }
}

/// A plain line: inlines and a line break.
pub open spec fn spec_line(s: Seq<char>, total: int) -> Option<(Seq<char>, KindV)> {
    let (r, inl) = spec_inlines(s, total);
    if first_is(r, '\n') {
        Some((r.skip(1), KindV::Line(inl)))
    } else {
        None
    }
}

/// A block of content: nothing at a section heading; else the first of a heading, a
/// table, a fenced block, an embed and a line that the text starts with.
pub open spec fn spec_content_kind(s: Seq<char>, total: int) -> Option<(Seq<char>, KindV)> {
    if spec_parse_heading(s) is Some {
        None
    } else if spec_heading_block(s, total) is Some {
        spec_heading_block(s, total)
    } else if spec_table(s, total) is Some {
        spec_table(s, total)
    } else if spec_fenced(s, total) is Some {
        spec_fenced(s, total)
    } else if spec_embed(s, total) is Some {
        spec_embed(s, total)
    } else {
        spec_line(s, total)
    }
}

pub open spec fn spec_content(s: Seq<char>, total: int) -> Option<(Seq<char>, ContentV)> {
    match spec_content_kind(s, total) {
        Some((r, k)) => Some((r, ContentV { position: pos(total, s), kind: k })),
        None => None,
    }
}

/// As many blocks of content as follow one another.
pub open spec fn spec_contents(s: Seq<char>, total: int) -> (Seq<char>, Seq<ContentV>)
    decreases s.len(),
{
    match spec_content(s, total) {
        Some((r, c)) => if r.len() < s.len() {
            let (r2, cs) = spec_contents(r, total);
            (r2, seq![c] + cs)
        } else {
            (s, Seq::empty())
        },
        None => (s, Seq::empty()),
    }
}

/// A section: its heading and the content after it, which starts right after the heading.
pub open spec fn spec_section(s: Seq<char>, total: int) -> Option<(Seq<char>, SectionV)> {
    match spec_parse_heading(s) {
        Some((r, name)) => {
            let (r2, cs) = spec_contents(r, total);
            Some((r2, SectionV { position: pos(total, r), name, content: cs }))
        },
        None => None,
    }
}

pub open spec fn main_name() -> Seq<char> {
    seq!['m', 'a', 'i', 'n']
}

/// The main section: a section named `main`.
pub open spec fn spec_main(s: Seq<char>, total: int) -> Option<(Seq<char>, SectionV)> {
    match spec_section(s, total) {
        Some((r, sec)) => if sec.name == main_name() {
            Some((r, sec))
        } else {
            None
        },
        None => None,
    }
}

/// As many sections as follow one another.
pub open spec fn spec_sections(s: Seq<char>, total: int) -> (Seq<char>, Seq<SectionV>)
    decreases s.len(),
{
    match spec_section(s, total) {
        Some((r, sec)) => if r.len() < s.len() {
            let (r2, ss) = spec_sections(r, total);
            (r2, seq![sec] + ss)
        } else {
            (s, Seq::empty())
        },
        None => (s, Seq::empty()),
    }
}

/// A document: its main section and the sections after it; what is left of the text.
pub open spec fn spec_parse_document(s: Seq<char>) -> Option<(Seq<char>, DocV)> {
    let total = s.len() as int;
    match spec_main(s, total) {
        Some((r, main)) => {
            let (r2, ss) = spec_sections(r, total);
            Some((r2, DocV { main_section: main, sections: ss }))
        },
        None => None,
    }
}

proof fn lemma_run_len(s: Seq<char>, run: Run)
    ensures
        run_len(s, run) <= s.len(),
        forall|i: int| 0 <= i < run_len(s, run) ==> keeps(run, #[trigger] s[i]),
        run_len(s, run) < s.len() ==> !keeps(run, s[run_len(s, run) as int]),
    decreases s.len(),
{
    if s.len() > 0 && keeps(run, s[0]) {
        lemma_run_len(s.drop_first(), run);
        assert forall|i: int| 1 <= i < run_len(s, run) implies keeps(run, #[trigger] s[i]) by {
            assert(s[i] == s.drop_first()[i - 1]);
        }
    }
}

/// How long the run at the start of `s` is.
fn run_length(s: &str, run: &Run) -> (r: usize)
    ensures
        r == run_len(s@, *run),
{
    let len = s.unicode_len();
    proof {
        lemma_run_len(s@, *run);
    }
    let mut i: usize = 0;
    while i < len
        invariant
            len == s@.len(),
            i <= run_len(s@, *run),
            run_len(s@, *run) <= len,
            forall|j: int| 0 <= j < run_len(s@, *run) ==> keeps(*run, #[trigger] s@[j]),
            run_len(s@, *run) < len ==> !keeps(*run, s@[run_len(s@, *run) as int]),
        decreases len - i,
    {
        let c = s.get_char(i);
        let k = match run {
            Run::Text => c != '\n' && c != '|',
            Run::Target => c != ',' && c != ']' && c != '\n',
        };
        if !k {
            return i;
        }
        i = i + 1;
    }
    i
}

/// Whether `s` starts with `c`.
fn first_char_is(s: &str, c: char) -> (r: bool)
    ensures
        r == first_is(s@, c),
{
    s.unicode_len() > 0 && s.get_char(0) == c
}

/// Whether the characters `a`, `b`, `c` stand at `k` (only the first two when `two`).
fn marks_at(s: &str, k: usize, two: bool, a: char, b: char, c: char) -> (r: bool)
    ensures
        r == if two {
            seq_at(s@, k as int, seq![a, b])
        } else {
            seq_at(s@, k as int, seq![a, b, c])
        },
{
    let len = s.unicode_len();
    let n: usize = if two {
        2
    } else {
        3
    };
    if k > len || len - k < n {
        return false;
    }
    let r = s.get_char(k) == a && s.get_char(k + 1) == b && (two || s.get_char(k + 2) == c);
    proof {
        let p = if two {
            seq![a, b]
        } else {
            seq![a, b, c]
        };
        let sub = s@.subrange(k as int, k + n);
        if r {
            assert(sub =~= p);
        } else if sub == p {
            assert(sub[0] == a && sub[1] == b);
            if !two {
                assert(sub[2] == c);
            }
        }
    }
    r
}

/// The rest of `s` after its first `n` characters.
fn skip<'a>(s: &'a str, n: usize) -> (r: &'a str)
    requires
        n <= s@.len(),
    ensures
        r@ == s@.skip(n as int),
{
    let r = s.substring_char(n, s.unicode_len());
    assert(r@ =~= s@.skip(n as int));
    r
}

/// Reads the inlines at the start of `input`, a tail of a document of `total` characters.
fn parse_inlines<'a>(input: &'a str, total: usize) -> (r: (&'a str, Vec<Inline<'a>>))
    requires
        input@.len() <= total,
    ensures
        (r.0@, inlines_v(r.1@)) == spec_inlines(input@, total as int),
{
    let n = run_length(input, &Run::Text);
    let len = input.unicode_len();
    proof {
        lemma_run_len(input@, Run::Text);
    }
    let mut v: Vec<Inline<'a>> = Vec::new();
    if n > 0 {
        let text = input.substring_char(0, n);
        v.push(Inline { position: total - len, kind: InlineKind::Text(text) });
        let rest = skip(input, n);
        assert(text@ =~= input@.take(n as int));
        assert(inlines_v(v@) =~= seq![
            InlineV { position: pos(total as int, input@), text: input@.take(n as int) },
        ]);
        (rest, v)
    } else {
        assert(inlines_v(v@) =~= Seq::<InlineV>::empty());
        (input, v)
    }
}

/// Reads a table cell.
fn parse_cell<'a>(input: &'a str, total: usize) -> (r: Option<(&'a str, TableCell<'a>)>)
    requires
        input@.len() <= total,
    ensures
        (match r {
            Some((rest, c)) => Some((rest@, cell_v(c))),
            None => None,
        }) == spec_cell(input@, total as int),
{
    let position = total - input.unicode_len();
    let (r, content) = parse_inlines(input, total);
    if first_char_is(r, '|') {
        Some((skip(r, 1), TableCell { position, content }))
    } else {
        None
    }
}

/// Reads as many cells as follow one another.
fn parse_cells<'a>(input: &'a str, total: usize) -> (r: (&'a str, Vec<TableCell<'a>>))
    requires
        input@.len() <= total,
    ensures
        (r.0@, cells_v(r.1@)) == spec_cells(input@, total as int),
{
    let ghost t = total as int;
    let mut cur = input;
    let mut out: Vec<TableCell<'a>> = Vec::new();
    loop
        invariant
            t == total as int,
            cur@.len() <= total,
            spec_cells(input@, t) == (spec_cells(cur@, t).0, cells_v(out@) + spec_cells(cur@, t).1),
        decreases cur@.len(),
    {
        match parse_cell(cur, total) {
            Some((r, c)) => {
                if r.unicode_len() < cur.unicode_len() {
                    proof {
                        assert(spec_cells(cur@, t) == (spec_cells(r@, t).0, seq![cell_v(c)] + spec_cells(r@, t).1));
                        let cv = cell_v(c);
                        let rest = spec_cells(r@, t).1;
                        assert(cells_v(out@.push(c)) =~= cells_v(out@).push(cv));
                        assert(cells_v(out@) + (seq![cv] + rest) =~= cells_v(out@).push(cv) + rest);
                    }
                    out.push(c);
                    cur = r;
                } else {
                    assert(cells_v(out@) + Seq::<CellV>::empty() =~= cells_v(out@));
                    return (cur, out);
                }
            },
            None => {
                assert(cells_v(out@) + Seq::<CellV>::empty() =~= cells_v(out@));
                return (cur, out);
            },
        }
    }
}

/// Reads a table row.
fn parse_row<'a>(input: &'a str, total: usize) -> (r: Option<(&'a str, TableRow<'a>)>)
    requires
        input@.len() <= total,
    ensures
        (match r {
            Some((rest, w)) => Some((rest@, row_v(w))),
            None => None,
        }) == spec_row(input@, total as int),
{
    if !first_char_is(input, '|') {
        return None;
    }
    let position = total - input.unicode_len();
    let (r, cells) = parse_cells(skip(input, 1), total);
    if cells.len() > 0 {
        Some((r, TableRow { position, cells }))
    } else {
        None
    }
}

/// Reads as many rows, each ended by a line break, as follow one another.
fn parse_rows<'a>(input: &'a str, total: usize) -> (r: (&'a str, Vec<TableRow<'a>>))
    requires
        input@.len() <= total,
    ensures
        (r.0@, rows_v(r.1@)) == spec_rows(input@, total as int),
{
    let ghost t = total as int;
    let mut cur = input;
    let mut out: Vec<TableRow<'a>> = Vec::new();
    loop
        invariant
            t == total as int,
            cur@.len() <= total,
            spec_rows(input@, t) == (spec_rows(cur@, t).0, rows_v(out@) + spec_rows(cur@, t).1),
        decreases cur@.len(),
    {
        match parse_row(cur, total) {
            Some((r, w)) => {
                if first_char_is(r, '\n') && r.unicode_len() <= cur.unicode_len() {
                    let next = skip(r, 1);
                    proof {
                        assert(spec_rows(cur@, t) == (spec_rows(next@, t).0, seq![row_v(w)] + spec_rows(next@, t).1));
                        let wv = row_v(w);
                        let rest = spec_rows(next@, t).1;
                        assert(rows_v(out@.push(w)) =~= rows_v(out@).push(wv));
                        assert(rows_v(out@) + (seq![wv] + rest) =~= rows_v(out@).push(wv) + rest);
                    }
                    out.push(w);
                    cur = next;
                } else {
                    assert(rows_v(out@) + Seq::<RowV>::empty() =~= rows_v(out@));
                    return (cur, out);
                }
            },
            None => {
                assert(rows_v(out@) + Seq::<RowV>::empty() =~= rows_v(out@));
                return (cur, out);
            },
        }
    }
}

/// What a block reader gives, as plain values.
pub open spec fn kind_result(r: Option<(&str, ContentKind)>) -> Option<(Seq<char>, KindV)> {
    match r {
        Some((rest, k)) => Some((rest@, kind_v(k))),
        None => None,
    }
}

/// Reads a heading block `# ...`.
fn parse_heading_block<'a>(input: &'a str, total: usize) -> (r: Option<(&'a str, ContentKind<'a>)>)
    requires
        input@.len() <= total,
    ensures
        kind_result(r) == spec_heading_block(input@, total as int),
{
    if !marks_at(input, 0, true, '#', ' ', ' ') {
        return None;
    }
    let (r, inl) = parse_inlines(skip(input, 2), total);
    if first_char_is(r, '\n') {
        Some((skip(r, 1), ContentKind::Heading(inl)))
    } else {
        None
    }
}

/// Reads a table.
fn parse_table<'a>(input: &'a str, total: usize) -> (r: Option<(&'a str, ContentKind<'a>)>)
    requires
        input@.len() <= total,
    ensures
        kind_result(r) == spec_table(input@, total as int),
{
    let (r, rows) = parse_rows(input, total);
    if rows.len() > 0 {
        Some((r, ContentKind::Table(rows)))
    } else {
        None
    }
}

proof fn lemma_find_fence(s: Seq<char>, k: int)
    ensures
        find_fence(s, k) matches Some(j) ==> k <= j && j + 3 <= s.len() && seq_at(s, j, fence()),
    decreases s.len() - k,
{
    if !(k < 0 || k + 3 > s.len()) && !seq_at(s, k, fence()) {
        lemma_find_fence(s, k + 1);
    }
}

/// Finds the first fence from index `from` on.
fn next_fence(s: &str, from: usize) -> (r: Option<usize>)
    ensures
        match r {
            Some(k) => find_fence(s@, from as int) == Some(k as int),
            None => find_fence(s@, from as int) is None,
        },
{
    let len = s.unicode_len();
    let mut k = from;
    while k <= len && len - k >= 3
        invariant
            len == s@.len(),
            from <= k,
            find_fence(s@, from as int) == find_fence(s@, k as int),
        decreases len - k,
    {
        if marks_at(s, k, false, '`', '`', '`') {
            return Some(k);
        }
        k = k + 1;
    }
    None
}

/// Reads a fenced block: a script block when its text starts with `!`, else a code block.
fn parse_fenced<'a>(input: &'a str, total: usize) -> (r: Option<(&'a str, ContentKind<'a>)>)
    requires
        input@.len() <= total,
    ensures
        kind_result(r) == spec_fenced(input@, total as int),
{
    if !marks_at(input, 0, false, '`', '`', '`') {
        return None;
    }
    match next_fence(input, 3) {
        Some(k) => {
            proof {
                lemma_find_fence(input@, 3);
            }
            let body = input.substring_char(3, k);
            let rest = skip(input, k + 3);
            if first_char_is(body, '!') {
                Some((rest, ContentKind::MonoscriptBlock(skip(body, 1))))
            } else {
                Some((rest, ContentKind::CodeBlock(body)))
            }
        },
        None => None,
    }
}

/// Reads an embed `![[target,anchor]]`.
fn parse_embed<'a>(input: &'a str, total: usize) -> (r: Option<(&'a str, ContentKind<'a>)>)
    requires
        input@.len() <= total,
    ensures
        kind_result(r) == spec_embed(input@, total as int),
{
    if !marks_at(input, 0, false, '!', '[', '[') {
        return None;
    }
    let t = skip(input, 3);
    let n = run_length(t, &Run::Target);
    proof {
        lemma_run_len(t@, Run::Target);
    }
    let after = skip(t, n);
    if n == 0 || !first_char_is(after, ',') {
        return None;
    }
    let target = t.substring_char(0, n);
    assert(target@ =~= t@.take(n as int));
    let anchor_text = skip(after, 1);
    assert(anchor_text@ =~= t@.skip(n + 1));
    match EmbedAnchor::parse(anchor_text) {
        Some((r, anchor)) => {
            if marks_at(r, 0, false, ']', ']', '\n') {
                Some((skip(r, 3), ContentKind::Embed { target: EmbedTarget::File(target), anchor }))
            } else {
                None
            }
        },
        None => None,
    }
}

/// Reads a plain line.
fn parse_line<'a>(input: &'a str, total: usize) -> (r: Option<(&'a str, ContentKind<'a>)>)
    requires
        input@.len() <= total,
    ensures
        kind_result(r) == spec_line(input@, total as int),
{
    let (r, inl) = parse_inlines(input, total);
    if first_char_is(r, '\n') {
        Some((skip(r, 1), ContentKind::Line(inl)))
    } else {
        None
    }
}

impl<'a> Content<'a> {
    /// Reads one block of content from `input`, the tail of a document of `total`
    /// characters: nothing at a section heading, else the first of a heading, a table, a
    /// fenced block, an embed and a line that it starts with.
    pub fn parse(input: &'a str, total: usize) -> (r: Option<(&'a str, Content<'a>)>)
        requires
            input@.len() <= total,
        ensures
            (match r {
                Some((rest, c)) => Some((rest@, content_v(c))),
                None => None,
            }) == spec_content(input@, total as int),
    {
        if parse_heading(input).is_some() {
            return None;
        }
        let position = total - input.unicode_len();
        let kind = if let Some(k) = parse_heading_block(input, total) {
            Some(k)
        } else if let Some(k) = parse_table(input, total) {
            Some(k)
        } else if let Some(k) = parse_fenced(input, total) {
            Some(k)
        } else if let Some(k) = parse_embed(input, total) {
            Some(k)
        } else {
            parse_line(input, total)
        };
        match kind {
            Some((rest, kind)) => Some((rest, Content { position, kind })),
            None => None,
        }
    }
}

impl<'a> Section<'a> {
    /// Reads as many blocks of content as follow one another.
    pub fn parse_content(input: &'a str, total: usize) -> (r: (&'a str, Vec<Content<'a>>))
        requires
            input@.len() <= total,
        ensures
            (r.0@, contents_v(r.1@)) == spec_contents(input@, total as int),
            r.0@.len() <= input@.len(),
    {
        let ghost t = total as int;
        let mut cur = input;
        let mut out: Vec<Content<'a>> = Vec::new();
        loop
            invariant
                t == total as int,
                cur@.len() <= total,
                cur@.len() <= input@.len(),
                spec_contents(input@, t) == (
                    spec_contents(cur@, t).0,
                    contents_v(out@) + spec_contents(cur@, t).1,
                ),
            decreases cur@.len(),
        {
            match Content::parse(cur, total) {
                Some((r, c)) => {
                    if r.unicode_len() < cur.unicode_len() {
                        proof {
                            let cv = content_v(c);
                            let rest = spec_contents(r@, t).1;
                            assert(contents_v(out@.push(c)) =~= contents_v(out@).push(cv));
                            assert(contents_v(out@) + (seq![cv] + rest) =~= contents_v(out@).push(cv) + rest);
                        }
                        out.push(c);
                        cur = r;
                    } else {
                        assert(contents_v(out@) + Seq::<ContentV>::empty() =~= contents_v(out@));
                        return (cur, out);
                    }
                },
                None => {
                    assert(contents_v(out@) + Seq::<ContentV>::empty() =~= contents_v(out@));
                    return (cur, out);
                },
            }
        }
    }

    /// Reads a section: its heading `=== name ===` and the content after it.
    pub fn parse(input: &'a str, total: usize) -> (r: Option<(&'a str, Section<'a>)>)
        requires
            input@.len() <= total,
        ensures
            (match r {
                Some((rest, sec)) => Some((rest@, section_v(sec))),
                None => None,
            }) == spec_section(input@, total as int),
            r matches Some((rest, _)) ==> rest@.len() <= input@.len(),
    {
        match parse_heading(input) {
            Some((r, name)) => {
                let position = total - r.unicode_len();
                let (rest, content) = Section::parse_content(r, total);
                Some((rest, Section { position, name, content }))
            },
            None => None,
        }
    }

    /// Reads the main section: a section named `main`.
    pub fn parse_main(input: &'a str, total: usize) -> (r: Option<(&'a str, Section<'a>)>)
        requires
            input@.len() <= total,
        ensures
            (match r {
                Some((rest, sec)) => Some((rest@, section_v(sec))),
                None => None,
            }) == spec_main(input@, total as int),
            r matches Some((rest, _)) ==> rest@.len() <= input@.len(),
    {
        match Section::parse(input, total) {
            Some((rest, sec)) => {
                if is_main(sec.name) {
                    Some((rest, sec))
                } else {
                    None
                }
            },
            None => None,
        }
    }
}

/// Whether a name is `main`.
fn is_main(name: &str) -> (r: bool)
    ensures
        r == (name@ == main_name()),
{
    let r = name.unicode_len() == 4 && name.get_char(0) == 'm' && name.get_char(1) == 'a'
        && name.get_char(2) == 'i' && name.get_char(3) == 'n';
    proof {
        if r {
            assert(name@ =~= main_name());
        } else if name@ == main_name() {
            assert(name@[0] == 'm' && name@[1] == 'a' && name@[2] == 'i' && name@[3] == 'n');
        }
    }
    r
}

/// Reads as many sections as follow one another.
fn parse_sections<'a>(input: &'a str, total: usize) -> (r: (&'a str, Vec<Section<'a>>))
    requires
        input@.len() <= total,
    ensures
        (r.0@, sections_v(r.1@)) == spec_sections(input@, total as int),
{
    let ghost t = total as int;
    let mut cur = input;
    let mut out: Vec<Section<'a>> = Vec::new();
    loop
        invariant
            t == total as int,
            cur@.len() <= total,
            spec_sections(input@, t) == (
                spec_sections(cur@, t).0,
                sections_v(out@) + spec_sections(cur@, t).1,
            ),
        decreases cur@.len(),
    {
        match Section::parse(cur, total) {
            Some((r, sec)) => {
                if r.unicode_len() < cur.unicode_len() {
                    proof {
                        let sv = section_v(sec);
                        let rest = spec_sections(r@, t).1;
                        assert(sections_v(out@.push(sec)) =~= sections_v(out@).push(sv));
                        assert(sections_v(out@) + (seq![sv] + rest) =~= sections_v(out@).push(sv) + rest);
                    }
                    out.push(sec);
                    cur = r;
                } else {
                    assert(sections_v(out@) + Seq::<SectionV>::empty() =~= sections_v(out@));
                    return (cur, out);
                }
            },
            None => {
                assert(sections_v(out@) + Seq::<SectionV>::empty() =~= sections_v(out@));
                return (cur, out);
            },
        }
    }
}

impl<'a> MonoDoc<'a> {
    /// Reads a document: its metadata, its main section and the sections after it; gives
    /// what is left of the text and the document, or nothing if it does not start with
    /// the main section's heading. Positions count characters from the start of `input`.
    pub fn parse(input: &'a str) -> (r: Option<(&'a str, MonoDoc<'a>)>)
        ensures
            (match r {
                Some((rest, doc)) => Some((rest@, doc_v(doc))),
                None => None,
            }) == spec_parse_document(input@),
            r matches Some((_, doc)) ==> doc.meta.name is None && doc.meta.icon is None
                && doc.meta.includes@.len() == 0,
    {
        let total = input.unicode_len();
        let (input, meta) = MetaData::parse(input);
        match Section::parse_main(input, total) {
            Some((r, main_section)) => {
                let (rest, sections) = parse_sections(r, total);
                Some((rest, MonoDoc { meta, main_section, sections }))
            },
            None => None,
        }
    }

    /// The section of the given name: the main section for `main`, else the last of the
    /// sections after it that bears the name, if any.
    pub fn section(&self, name: &str) -> (r: Option<&Section<'a>>)
        ensures
            match r {
                Some(sec) => if name@ == main_name() {
                    *sec == self.main_section
                } else {
                    exists|i: int|
                        0 <= i < self.sections@.len() && self.sections@[i] == *sec && sec.name@ == name@
                            && forall|j: int| i < j < self.sections@.len() ==> (#[trigger] self.sections@[j]).name@ != name@
                },
                None => name@ != main_name() && forall|j: int|
                    0 <= j < self.sections@.len() ==> (#[trigger] self.sections@[j]).name@ != name@,
            },
    {
        if is_main(name) {
            return Some(&self.main_section);
        }
        let mut i = self.sections.len();
        while i > 0
            invariant
                name@ != main_name(),
                i <= self.sections@.len(),
                forall|j: int| i <= j < self.sections@.len() ==> (#[trigger] self.sections@[j]).name@ != name@,
            decreases i,
        {
            i = i - 1;
            if same_text(self.sections[i].name, name) {
                let sec = &self.sections[i];
                assert(self.sections@[i as int] == *sec);
                return Some(sec);
            }
        }
        None
    }
}

/// Whether two texts hold the same characters.
fn same_text(a: &str, b: &str) -> (r: bool)
    ensures
        r == (a@ == b@),
{
    let n = a.unicode_len();
    if n != b.unicode_len() {
        return false;
    }
    let mut i: usize = 0;
    while i < n
        invariant
            n == a@.len(),
            n == b@.len(),
            i <= n,
            forall|j: int| 0 <= j < i ==> a@[j] == b@[j],
        decreases n - i,
    {
        if a.get_char(i) != b.get_char(i) {
            return false;
        }
        i = i + 1;
    }
    assert(a@ =~= b@);
    true
}

proof fn lemma_run_of(w: Seq<char>, tail: Seq<char>, run: Run)
    requires
        forall|i: int| 0 <= i < w.len() ==> keeps(run, #[trigger] w[i]),
        tail.len() == 0 || !keeps(run, tail[0]),
    ensures
        run_len(w + tail, run) == w.len(),
    decreases w.len(),
{
    if w.len() == 0 {
        assert(w + tail =~= tail);
    } else {
        assert((w + tail).drop_first() =~= w.drop_first() + tail);
        assert forall|i: int| 0 <= i < w.drop_first().len() implies keeps(run, #[trigger] w.drop_first()[i]) by {
            assert(w.drop_first()[i] == w[i + 1]);
        }
        lemma_run_of(w.drop_first(), tail, run);
        assert((w + tail)[0] == w[0]);
    }
}

proof fn lemma_alnum_of(w: Seq<char>, tail: Seq<char>)
    requires
        forall|i: int| 0 <= i < w.len() ==> is_alnum(#[trigger] w[i]),
        tail.len() == 0 || !is_alnum(tail[0]),
    ensures
        alnum_len(w + tail) == w.len(),
    decreases w.len(),
{
    if w.len() == 0 {
        assert(w + tail =~= tail);
    } else {
        assert((w + tail).drop_first() =~= w.drop_first() + tail);
        assert forall|i: int| 0 <= i < w.drop_first().len() implies is_alnum(#[trigger] w.drop_first()[i]) by {
            assert(w.drop_first()[i] == w[i + 1]);
        }
        lemma_alnum_of(w.drop_first(), tail);
        assert((w + tail)[0] == w[0]);
    }
}

/// A section heading reads back its name: `=== name ===` followed by anything gives the
/// name (letters and digits) and leaves what follows; an empty name stands for `main`.
pub proof fn lemma_heading_name(name: Seq<char>, rest: Seq<char>)
    requires
        forall|i: int| 0 <= i < name.len() ==> is_alnum(#[trigger] name[i]),
    ensures
        spec_parse_heading(seq!['=', '=', '=', ' '] + name + seq![' ', '=', '=', '='] + rest) == Some(
            (rest, if name.len() == 0 { seq!['m', 'a', 'i', 'n'] } else { name }),
        ),
{
    let close = seq![' ', '=', '=', '='];
    let s = seq!['=', '=', '=', ' '] + name + close + rest;
    assert(s.skip(4) =~= name + (close + rest));
    lemma_alnum_of(name, close + rest);
    let k = 4 + name.len() as int;
    assert(s.take(4) =~= seq!['=', '=', '=', ' ']);
    assert(s.subrange(k, k + 4) =~= close);
    assert(s.skip(k + 4) =~= rest);
    assert(s.subrange(4, k) =~= name);
}

/// A plain line reads as one run of its text: text without line breaks or cell borders,
/// then a line break, gives a line holding that text (none if the text is empty) at the
/// offset where it starts, and leaves what follows the break.
pub proof fn lemma_line_text(text: Seq<char>, rest: Seq<char>, total: int)
    requires
        forall|i: int| 0 <= i < text.len() ==> #[trigger] text[i] != '\n' && text[i] != '|',
    ensures
        spec_line(text + seq!['\n'] + rest, total) == Some((
            rest,
            KindV::Line(
                if text.len() == 0 {
                    Seq::empty()
                } else {
                    seq![InlineV { position: total - (text.len() + 1 + rest.len()), text }]
                },
            ),
        )),
{
    let s = text + seq!['\n'] + rest;
    assert(s =~= text + (seq!['\n'] + rest));
    lemma_run_of(text, seq!['\n'] + rest, Run::Text);
    assert(s.skip(text.len() as int) =~= seq!['\n'] + rest);
    assert(s.take(text.len() as int) =~= text);
    assert((seq!['\n'] + rest).skip(1) =~= rest);
}

/// A fenced block reads back its text: three backticks, a text without backticks and
/// three more give a code block of that text, or a script block of the text after a
/// leading `!`; what follows the closing backticks is left.
pub proof fn lemma_fenced_text(body: Seq<char>, rest: Seq<char>, total: int)
    requires
        forall|i: int| 0 <= i < body.len() ==> #[trigger] body[i] != '`',
    ensures
        spec_fenced(fence() + body + fence() + rest, total) == Some((
            rest,
            if body.len() > 0 && body[0] == '!' {
                KindV::MonoscriptBlock(body.skip(1))
            } else {
                KindV::CodeBlock(body)
            },
        )),
{
    let s = fence() + body + fence() + rest;
    let e = 3 + body.len() as int;
    assert(s.subrange(0, 3) =~= fence());
    assert forall|j: int| 3 <= j < e implies !(#[trigger] seq_at(s, j, fence())) by {
        if seq_at(s, j, fence()) {
            assert(s.subrange(j, j + 3)[0] == s[j]);
            assert(s[j] == body[j - 3]);
        }
    }
    assert(s.subrange(e, e + 3) =~= fence());
    lemma_find_fence_skips(s, 3, e);
    assert(s.subrange(3, e) =~= body);
    assert(s.skip(e + 3) =~= rest);
}

proof fn lemma_find_fence_skips(s: Seq<char>, k: int, e: int)
    requires
        3 <= k <= e,
        e + 3 <= s.len(),
        seq_at(s, e, fence()),
        forall|j: int| k <= j < e ==> !(#[trigger] seq_at(s, j, fence())),
    ensures
        find_fence(s, k) == Some(e),
    decreases e - k,
{
    if k < e {
        assert(!seq_at(s, k, fence()));
        lemma_find_fence_skips(s, k + 1, e);
    }
}

/// An embed reads back its target and anchor: `![[`, a target without commas, closing
/// brackets or line breaks, a comma, an anchor word and `]]` with a line break give an
/// embed of that file at that anchor, and leave what follows.
pub proof fn lemma_embed_parts(target: Seq<char>, a: EmbedAnchor, rest: Seq<char>, total: int)
    requires
        target.len() > 0,
        forall|i: int| 0 <= i < target.len() ==> #[trigger] target[i] != ',' && target[i] != ']'
            && target[i] != '\n',
    ensures
        spec_embed(
            seq!['!', '[', '['] + target + seq![','] + super::parse::anchor_word(a) + seq![']', ']', '\n']
                + rest,
            total,
        ) == Some((rest, KindV::Embed { target: TargetV::File(target), anchor: a })),
{
    let close = seq![']', ']', '\n'];
    let word = super::parse::anchor_word(a);
    let s = seq!['!', '[', '['] + target + seq![','] + word + close + rest;
    let t = s.skip(3);
    assert(t =~= target + (seq![','] + word + close + rest));
    lemma_run_of(target, seq![','] + word + close + rest, Run::Target);
    let n = target.len() as int;
    assert(t.skip(n) =~= seq![','] + word + close + rest);
    assert(t.take(n) =~= target);
    assert(s.subrange(0, 3) =~= seq!['!', '[', '[']);
    let after = t.skip(n + 1);
    assert(after =~= word + (close + rest));
    super::parse::lemma_anchor_words(close + rest);
    assert(spec_parse_anchor(after) == Some((close + rest, a)));
    assert((close + rest).subrange(0, 3) =~= close);
    assert((close + rest).skip(3) =~= rest);
}

/// Cells written out: each text followed by a cell border.
pub open spec fn cells_text(ws: Seq<Seq<char>>) -> Seq<char>
    decreases ws.len(),
{
    if ws.len() == 0 {
        Seq::empty()
    } else {
        ws[0] + seq!['|'] + cells_text(ws.drop_first())
    }
}

/// The texts are fit for cells: no line breaks or cell borders in them.
pub open spec fn cell_texts_ok(ws: Seq<Seq<char>>) -> bool {
    forall|i: int, j: int| 0 <= i < ws.len() && 0 <= j < ws[i].len() ==> #[trigger] ws[i][j] != '\n'
        && ws[i][j] != '|'
}

/// The cells read back hold the texts: as many cells as texts, a cell holding one run of
/// its text, or nothing for an empty text.
pub open spec fn cells_hold(cells: Seq<CellV>, ws: Seq<Seq<char>>) -> bool {
    &&& cells.len() == ws.len()
    &&& forall|i: int| 0 <= i < ws.len() ==> {
        &&& (#[trigger] cells[i]).content.len() == if ws[i].len() == 0 { 0int } else { 1int }
        &&& ws[i].len() > 0 ==> cells[i].content[0].text == ws[i]
    }
}

/// Cells written one after another read back as those cells, up to the first text that
/// starts no cell (the end, or a line break).
pub proof fn lemma_cells_text(ws: Seq<Seq<char>>, rest: Seq<char>, total: int)
    requires
        cell_texts_ok(ws),
        rest.len() == 0 || rest[0] == '\n',
    ensures
        spec_cells(cells_text(ws) + rest, total).0 == rest,
        cells_hold(spec_cells(cells_text(ws) + rest, total).1, ws),
    decreases ws.len(),
{
    let s = cells_text(ws) + rest;
    if ws.len() == 0 {
        assert(s =~= rest);
        lemma_run_of(Seq::empty(), rest, Run::Text);
        assert(Seq::<char>::empty() + rest =~= rest);
    } else {
        let w = ws[0];
        let tail = cells_text(ws.drop_first()) + rest;
        assert(cell_texts_ok(ws.drop_first())) by {
            assert forall|i: int, j: int| 0 <= i < ws.drop_first().len() && 0 <= j < ws.drop_first()[i].len()
                implies #[trigger] ws.drop_first()[i][j] != '\n' && ws.drop_first()[i][j] != '|' by {
                assert(ws.drop_first()[i] == ws[i + 1]);
            }
        }
        lemma_cells_text(ws.drop_first(), rest, total);
        assert(s =~= w + (seq!['|'] + tail));
        assert forall|j: int| 0 <= j < w.len() implies keeps(Run::Text, #[trigger] w[j]) by {
            assert(ws[0][j] == w[j]);
        }
        lemma_run_of(w, seq!['|'] + tail, Run::Text);
        assert(s.skip(w.len() as int) =~= seq!['|'] + tail);
        assert(s.take(w.len() as int) =~= w);
        assert((seq!['|'] + tail).skip(1) =~= tail);
        let cells = spec_cells(s, total).1;
        let later = spec_cells(tail, total).1;
        assert forall|i: int| 0 <= i < ws.len() implies {
            &&& (#[trigger] cells[i]).content.len() == if ws[i].len() == 0 { 0int } else { 1int }
            &&& ws[i].len() > 0 ==> cells[i].content[0].text == ws[i]
        } by {
            if i > 0 {
                assert(cells[i] == later[i - 1]);
                assert(ws.drop_first()[i - 1] == ws[i]);
            }
        }
    }
}

/// A table row written out (`|`, then each cell's text and border) and ended by a line
/// break, with a line after it that is no row, reads as a table of that one row holding
/// those cells.
pub proof fn lemma_table_row(ws: Seq<Seq<char>>, rest: Seq<char>, total: int)
    requires
        ws.len() > 0,
        cell_texts_ok(ws),
        rest.len() == 0 || rest[0] != '|',
    ensures
        spec_table(seq!['|'] + cells_text(ws) + seq!['\n'] + rest, total) matches Some((r, KindV::Table(rows)))
            && r == rest && rows.len() == 1 && cells_hold(rows[0].cells, ws),
{
    let s = seq!['|'] + cells_text(ws) + seq!['\n'] + rest;
    let body = cells_text(ws) + (seq!['\n'] + rest);
    assert(s.skip(1) =~= body);
    assert(s[0] == '|');
    lemma_cells_text(ws, seq!['\n'] + rest, total);
    let (r, cs) = spec_cells(body, total);
    assert(cs.len() > 0);
    assert((seq!['\n'] + rest).skip(1) =~= rest);
    assert(spec_row(rest, total) is None);
    assert(spec_rows(rest, total) == (rest, Seq::<RowV>::empty()));
    let row = RowV { position: pos(total, s), cells: cs };
    assert(spec_rows(s, total).1 =~= seq![row]);
}

/// A document starts with its main section: text that opens with the heading of a
/// section named other than `main` (or with no heading) is no document; one that opens
/// with `=== main ===` (or a heading with an empty name) is one, whose main section is
/// named `main`, starts right after the heading and holds the content after it.
pub proof fn lemma_document_main(name: Seq<char>, rest: Seq<char>)
    requires
        forall|i: int| 0 <= i < name.len() ==> is_alnum(#[trigger] name[i]),
    ensures
        ({
            let text = seq!['=', '=', '=', ' '] + name + seq![' ', '=', '=', '='] + rest;
            let is_main = name.len() == 0 || name == seq!['m', 'a', 'i', 'n'];
            &&& !is_main ==> spec_parse_document(text) is None
            &&& is_main ==> (spec_parse_document(text) matches Some((_, doc))
                && doc.main_section.name == seq!['m', 'a', 'i', 'n']
                && doc.main_section.position == 8 + name.len()
                && doc.main_section.content == spec_contents(rest, text.len() as int).1)
        }),
{
    lemma_heading_name(name, rest);
    let text = seq!['=', '=', '=', ' '] + name + seq![' ', '=', '=', '='] + rest;
    assert(text.len() == 8 + name.len() + rest.len());
}

/// Nothing that does not open with a section heading is a document.
pub proof fn lemma_document_needs_heading(text: Seq<char>)
    requires
        spec_parse_heading(text) is None,
    ensures
        spec_parse_document(text) is None,
{
}

} // verus!
