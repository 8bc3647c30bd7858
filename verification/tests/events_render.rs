use nomark::convert::render_events;
use nomark::events::{Align, LinkKind, MdEvent, MdTag, TagKind};

fn chars(s: &str) -> Vec<char> {
    s.chars().collect()
}

#[test]
fn heading_events() {
    let evs = vec![
        MdEvent::Start(MdTag::Heading(3)),
        MdEvent::Text(chars("H{")),
        MdEvent::End(TagKind::Heading),
    ];
    assert_eq!(render_events(&evs), "*** H\\{");
}

#[test]
fn blockquote_depth_restored() {
    let evs = vec![
        MdEvent::Start(MdTag::Bare(TagKind::BlockQuote)),
        MdEvent::End(TagKind::BlockQuote),
        MdEvent::End(TagKind::BlockQuote),
        MdEvent::Start(MdTag::Bare(TagKind::Paragraph)),
        MdEvent::Text(chars("p")),
        MdEvent::End(TagKind::Paragraph),
    ];
    assert_eq!(render_events(&evs), "p");
}

#[test]
fn link_kinds() {
    let evs = vec![
        MdEvent::Start(MdTag::Link(LinkKind::Email, chars("a@b.c"))),
        MdEvent::Text(chars("a@b.c")),
        MdEvent::End(TagKind::Link),
        MdEvent::SoftBreak,
        MdEvent::Start(MdTag::Link(LinkKind::Other, chars("doc"))),
        MdEvent::Text(chars("d")),
        MdEvent::End(TagKind::Link),
    ];
    assert_eq!(render_events(&evs), "{a@b.c}[a@b.c] {:doc:}[d]");
}

#[test]
fn table_without_alignments_has_no_separator_row() {
    let evs = vec![
        MdEvent::Start(MdTag::Table(vec![])),
        MdEvent::Start(MdTag::Bare(TagKind::TableHead)),
        MdEvent::Start(MdTag::Bare(TagKind::TableCell)),
        MdEvent::Text(chars(" h ")),
        MdEvent::End(TagKind::TableCell),
        MdEvent::End(TagKind::TableHead),
        MdEvent::End(TagKind::Table),
    ];
    assert_eq!(render_events(&evs), "@table\n| h |\n@end");
}

#[test]
fn table_separator_row() {
    let evs = vec![
        MdEvent::Start(MdTag::Table(vec![Align::Right])),
        MdEvent::Start(MdTag::Bare(TagKind::TableHead)),
        MdEvent::End(TagKind::TableHead),
        MdEvent::End(TagKind::Table),
    ];
    assert_eq!(render_events(&evs), "@table\n|  |\n| ---: |\n@end");
}

#[test]
fn blank_html_block_line_skipped() {
    let evs = vec![MdEvent::Html(chars("   \n")), MdEvent::Rule, MdEvent::Other];
    assert_eq!(render_events(&evs), "___");
}

#[test]
fn task_markers_and_footnote_reference() {
    let evs = vec![
        MdEvent::TaskListMarker(true),
        MdEvent::TaskListMarker(false),
        MdEvent::FootnoteReference(chars("1")),
    ];
    assert_eq!(render_events(&evs), "(x) ( ) ^1");
}

#[test]
fn code_block_with_info_string() {
    let evs = vec![
        MdEvent::Start(MdTag::CodeBlock(Some(chars("py")))),
        MdEvent::Text(chars("x = {}\n")),
        MdEvent::End(TagKind::CodeBlock),
    ];
    assert_eq!(render_events(&evs), "@code py\nx = {}\n@end");
}

#[test]
fn empty_stream() {
    assert_eq!(render_events(&[]), "");
}
