use monos::monodoc::ast::{ContentKind, EmbedAnchor, EmbedTarget, InlineKind, MonoDoc, Section, Content};

const DOC: &str = "=== main ===\n# Title\n|a|b|\n|c|d|\n```code```\n```!let x```\n![[pic.ppm,fill]]\nplain text\n=== other ===\nhello\n";

#[test]
fn document_reads_all_block_kinds() {
    let (rest, doc) = MonoDoc::parse(DOC).unwrap();
    assert_eq!(rest, "");
    assert_eq!(doc.main_section.name, "main");
    assert_eq!(doc.main_section.position, 12);
    let c = &doc.main_section.content;
    assert_eq!(c.len(), 9);
    assert!(matches!(&c[0].kind, ContentKind::Line(v) if v.is_empty()));
    match &c[1].kind {
        ContentKind::Heading(v) => {
            assert_eq!(v.len(), 1);
            let InlineKind::Text(t) = &v[0].kind;
            assert_eq!(*t, "Title");
            assert_eq!(v[0].position, 15);
        },
        _ => panic!("expected a heading"),
    }
    assert_eq!(c[1].position, 13);
    match &c[2].kind {
        ContentKind::Table(rows) => {
            assert_eq!(rows.len(), 2);
            assert_eq!(rows[0].cells.len(), 2);
            assert_eq!(rows[1].cells.len(), 2);
            let InlineKind::Text(t) = &rows[1].cells[1].content[0].kind;
            assert_eq!(*t, "d");
        },
        _ => panic!("expected a table"),
    }
    assert!(matches!(&c[3].kind, ContentKind::CodeBlock(t) if *t == "code"));
    assert!(matches!(&c[5].kind, ContentKind::MonoscriptBlock(t) if *t == "let x"));
    match &c[7].kind {
        ContentKind::Embed { target: EmbedTarget::File(f), anchor } => {
            assert_eq!(*f, "pic.ppm");
            assert_eq!(*anchor, EmbedAnchor::Fill);
        },
        _ => panic!("expected an embed"),
    }
    match &c[8].kind {
        ContentKind::Line(v) => {
            let InlineKind::Text(t) = &v[0].kind;
            assert_eq!(*t, "plain text");
        },
        _ => panic!("expected a line"),
    }
    assert_eq!(doc.sections.len(), 1);
    assert_eq!(doc.sections[0].name, "other");
    assert_eq!(doc.sections[0].content.len(), 2);
    assert!(doc.meta.name.is_none() && doc.meta.includes.is_empty());
}

#[test]
fn document_needs_main_heading() {
    assert!(MonoDoc::parse("=== other ===\nhello\n").is_none());
    assert!(MonoDoc::parse("hello\n").is_none());
    assert!(MonoDoc::parse("").is_none());
    // an empty name stands for the main section
    let (rest, doc) = MonoDoc::parse("===  ===\nx\n").unwrap();
    assert_eq!(rest, "");
    assert_eq!(doc.main_section.name, "main");
}

#[test]
fn unparsed_rest_is_returned() {
    let (rest, doc) = MonoDoc::parse("=== main ===\nok\n|a\nmore\n").unwrap();
    assert_eq!(doc.main_section.content.len(), 2);
    assert_eq!(rest, "|a\nmore\n");
}

#[test]
fn section_lookup_takes_the_last() {
    let text = "=== main ===\n=== a ===\none\n=== a ===\ntwo\nthree\n";
    let (_, doc) = MonoDoc::parse(text).unwrap();
    assert_eq!(doc.sections.len(), 2);
    assert_eq!(doc.section("a").unwrap().content.len(), 3);
    assert_eq!(doc.section("main").unwrap().content.len(), 1);
    assert!(doc.section("b").is_none());
}

#[test]
fn section_parse_reads_heading_and_content() {
    let text = "=== notes ===\nfirst\n";
    let total = text.chars().count();
    let (rest, sec) = Section::parse(text, total).unwrap();
    assert_eq!(rest, "");
    assert_eq!(sec.name, "notes");
    assert_eq!(sec.position, 13);
    assert_eq!(sec.content.len(), 2);
    assert!(Section::parse_main(text, total).is_none());
    assert!(Section::parse("no heading\n", 11).is_none());
}

#[test]
fn content_stops_at_section_heading() {
    assert!(Content::parse("=== x ===\n", 10).is_none());
    let (rest, c) = Content::parse("|x|\nafter\n", 10).unwrap();
    assert_eq!(rest, "after\n");
    assert!(matches!(c.kind, ContentKind::Table(_)));
    let (rest, list) = Section::parse_content("a\nb\n=== y ===\n", 14);
    assert_eq!(list.len(), 2);
    assert_eq!(rest, "=== y ===\n");
}

#[test]
fn embed_needs_anchor_and_close() {
    assert!(matches!(
        Content::parse("![[f,left]]\n", 12).unwrap().1.kind,
        ContentKind::Embed { anchor: EmbedAnchor::Left, .. }
    ));
    // no valid anchor: read as a plain line instead
    assert!(matches!(
        Content::parse("![[f,middle]]\n", 14).unwrap().1.kind,
        ContentKind::Line(_)
    ));
    // an unclosed fence is no block; the line reader takes it
    assert!(matches!(Content::parse("```abc\n", 7).unwrap().1.kind, ContentKind::Line(_)));
}
