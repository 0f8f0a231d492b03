use crate::monos_gfx::image::Image;
use vstd::prelude::*;

verus! {

/// A document: its metadata, its main section and the sections after it, in the order
/// they stand.
pub struct MonoDoc<'a> {
    pub meta: MetaData<'a>,
    pub main_section: Section<'a>,
    pub sections: Vec<Section<'a>>,
}

/// A named section; `position` is the character offset in the document where its content
/// starts.
pub struct Section<'a> {
    pub position: usize,
    pub name: &'a str,
    pub content: Vec<Content<'a>>,
}

/// One block of a section, with the character offset where it starts.
pub struct Content<'a> {
    pub position: usize,
    pub kind: ContentKind<'a>,
}

/// What a block of content is.
pub enum ContentKind<'a> {
    Heading(Vec<Inline<'a>>),
    Table(Vec<TableRow<'a>>),
    CodeBlock(&'a str),
    /// A script block, kept as its source text.
    MonoscriptBlock(&'a str),
    Embed { target: EmbedTarget<'a>, anchor: EmbedAnchor },
    Line(Vec<Inline<'a>>),
}

/// A row of a table.
pub struct TableRow<'a> {
    pub position: usize,
    pub cells: Vec<TableCell<'a>>,
}

/// A cell of a table row.
pub struct TableCell<'a> {
    pub position: usize,
    pub content: Vec<Inline<'a>>,
}

/// A run of text inside a line, a heading or a cell.
pub struct Inline<'a> {
    pub position: usize,
    pub kind: InlineKind<'a>,
}

pub enum InlineKind<'a> {
    Text(&'a str),
}

/// What a document says of itself.
pub struct MetaData<'a> {
    pub name: Option<&'a str>,
    pub icon: Option<&'a str>,
    pub includes: Vec<&'a str>,
}

/// What an embed shows: another file, or an image.
pub enum EmbedTarget<'a> {
    File(&'a str),
    Image(Image),
}

/// Where an embed goes.
#[derive(Debug, Clone, Copy, PartialEq, Eq, Structural)]
pub enum EmbedAnchor {
    Top,
    Bottom,
    Left,
    Right,
    Fill,
}


/// An inline as plain values.
pub struct InlineV {
    pub position: int,
    pub text: Seq<char>,
}

pub struct CellV {
    pub position: int,
    pub content: Seq<InlineV>,
}

pub struct RowV {
    pub position: int,
    pub cells: Seq<CellV>,
}

/// What an embed points at, as plain values.
pub enum TargetV {
    File(Seq<char>),
    Image,
}

pub enum KindV {
    Heading(Seq<InlineV>),
    Table(Seq<RowV>),
    CodeBlock(Seq<char>),
    MonoscriptBlock(Seq<char>),
    Embed { target: TargetV, anchor: EmbedAnchor },
    Line(Seq<InlineV>),
}

pub struct ContentV {
    pub position: int,
    pub kind: KindV,
}

pub struct SectionV {
    pub position: int,
    pub name: Seq<char>,
    pub content: Seq<ContentV>,
}

/// A document as plain values (its metadata holds nothing yet).
pub struct DocV {
    pub main_section: SectionV,
    pub sections: Seq<SectionV>,
}

pub open spec fn inline_v(i: Inline) -> InlineV {
    match i.kind {
        InlineKind::Text(t) => InlineV { position: i.position as int, text: t@ },
    }
}

pub open spec fn inlines_v(v: Seq<Inline>) -> Seq<InlineV> {
    v.map_values(|i: Inline| inline_v(i))
}

pub open spec fn cell_v(c: TableCell) -> CellV {
    CellV { position: c.position as int, content: inlines_v(c.content@) }
}

pub open spec fn cells_v(v: Seq<TableCell>) -> Seq<CellV> {
    v.map_values(|c: TableCell| cell_v(c))
}

pub open spec fn row_v(r: TableRow) -> RowV {
    RowV { position: r.position as int, cells: cells_v(r.cells@) }
}

pub open spec fn rows_v(v: Seq<TableRow>) -> Seq<RowV> {
    v.map_values(|r: TableRow| row_v(r))
}

pub open spec fn kind_v(k: ContentKind) -> KindV {
    match k {
        ContentKind::Heading(v) => KindV::Heading(inlines_v(v@)),
        ContentKind::Table(v) => KindV::Table(rows_v(v@)),
        ContentKind::CodeBlock(t) => KindV::CodeBlock(t@),
        ContentKind::MonoscriptBlock(t) => KindV::MonoscriptBlock(t@),
        ContentKind::Embed { target, anchor } => KindV::Embed {
            target: match target {
                EmbedTarget::File(f) => TargetV::File(f@),
                EmbedTarget::Image(_) => TargetV::Image,
            },
            anchor,
        },
        ContentKind::Line(v) => KindV::Line(inlines_v(v@)),
    }
}

pub open spec fn content_v(c: Content) -> ContentV {
    ContentV { position: c.position as int, kind: kind_v(c.kind) }
}

pub open spec fn contents_v(v: Seq<Content>) -> Seq<ContentV> {
    v.map_values(|c: Content| content_v(c))
}

pub open spec fn section_v(s: Section) -> SectionV {
    SectionV { position: s.position as int, name: s.name@, content: contents_v(s.content@) }
}

pub open spec fn sections_v(v: Seq<Section>) -> Seq<SectionV> {
    v.map_values(|s: Section| section_v(s))
}

pub open spec fn doc_v(d: MonoDoc) -> DocV {
    DocV { main_section: section_v(d.main_section), sections: sections_v(d.sections@) }
}

} // verus!
