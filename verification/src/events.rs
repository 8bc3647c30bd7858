//! The Markdown event stream.
//!
//! `pulldown_cmark` parses the Markdown; each of its events is carried over,
//! one for one, into the plain values below, which is all that the
//! conversion in `convert` reads of it.
use pulldown_cmark::Event::{
    Code, End, FootnoteReference, HardBreak, Html, InlineHtml, Rule, SoftBreak, Start, TaskListMarker,
    Text,
};
use pulldown_cmark::Tag::{CodeBlock, FootnoteDefinition, Heading, Image, Link, List, Table};
use pulldown_cmark::{Alignment, CodeBlockKind, Event, LinkType, Options, Parser, Tag, TagEnd};
use vstd::prelude::*;

verus! {

/// Horizontal alignment of a table column.
#[derive(Debug, Clone, Copy, PartialEq, Eq)]
pub enum Align {
    Unspecified,
    Left,
    Center,
    Right,
}

/// How a link was written: as an autolink (`<https://..>`), as an e-mail
/// autolink (`<me@example.com>`), or any other way.
#[derive(Debug, Clone, Copy, PartialEq, Eq)]
pub enum LinkKind {
    Autolink,
    Email,
    Other,
}

/// The kind of an element, as it is closed by an `End` event.
#[derive(Debug, Clone, Copy, PartialEq, Eq)]
pub enum TagKind {
    Paragraph,
    Heading,
    BlockQuote,
    CodeBlock,
    List,
    Item,
    FootnoteDefinition,
    MetadataBlock,
    Table,
    TableHead,
    TableRow,
    TableCell,
    Emphasis,
    Strong,
    Strikethrough,
    Link,
    Image,
    Other,
}

/// An element as it is opened by a `Start` event, with the data the
/// conversion needs. Elements that carry no such data are `Bare`.
#[derive(Debug)]
pub enum MdTag {
    /// A heading of the given level (1 to 6).
    Heading(u8),
    /// A code block: `Some(info string)` when fenced, `None` when indented.
    CodeBlock(Option<Vec<char>>),
    /// A list: `Some(first number)` when ordered, `None` when bulleted.
    List(Option<u64>),
    /// A footnote definition with its label.
    FootnoteDefinition(Vec<char>),
    /// A table with the alignment of each column.
    Table(Vec<Align>),
    /// A link with its destination.
    Link(LinkKind, Vec<char>),
    /// An image with its destination.
    Image(Vec<char>),
    /// Any other element.
    Bare(TagKind),
}

/// One event of a parsed Markdown document.
#[derive(Debug)]
pub enum MdEvent {
    Start(MdTag),
    End(TagKind),
    Text(Vec<char>),
    Code(Vec<char>),
    Html(Vec<char>),
    InlineHtml(Vec<char>),
    FootnoteReference(Vec<char>),
    SoftBreak,
    HardBreak,
    Rule,
    TaskListMarker(bool),
    Other,
}

/// The kind of element that a `Start` event opens.
pub open spec fn tag_kind_of(t: MdTag) -> TagKind {
    match t {
        MdTag::Heading(_) => TagKind::Heading,
        MdTag::CodeBlock(_) => TagKind::CodeBlock,
        MdTag::List(_) => TagKind::List,
        MdTag::FootnoteDefinition(_) => TagKind::FootnoteDefinition,
        MdTag::Table(_) => TagKind::Table,
        MdTag::Link(_, _) => TagKind::Link,
        MdTag::Image(_) => TagKind::Image,
        MdTag::Bare(k) => k,
    }
}

/// The open elements after one more event, innermost last: a `Start`
/// opens one, an `End` closes the innermost, which must be of its kind.
pub open spec fn open_step(open: Seq<TagKind>, e: MdEvent) -> Option<Seq<TagKind>> {
    match e {
        MdEvent::Start(t) => Some(open.push(tag_kind_of(t))),
        MdEvent::End(k) => if open.len() > 0 && open.last() == k {
            Some(open.drop_last())
        } else {
            None
        },
        _ => Some(open),
    }
}

/// The elements left open after `events`, innermost last; `None` when an
/// `End` does not close the innermost open element.
pub open spec fn open_elements(events: Seq<MdEvent>) -> Option<Seq<TagKind>>
    decreases events.len(),
{
    if events.len() == 0 {
        Some(Seq::empty())
    } else {
        match open_elements(events.drop_last()) {
            Some(open) => open_step(open, events.last()),
            None => None,
        }
    }
}

/// Every element that `events` opens is closed, innermost first.
pub open spec fn well_nested(events: Seq<MdEvent>) -> bool {
    open_elements(events) == Some(Seq::<TagKind>::empty())
}

#[verifier::external_type_specification]
#[verifier::external_body]
pub struct ExEvent<'a>(Event<'a>);

#[verifier::external_type_specification]
#[verifier::external_body]
pub struct ExTag<'a>(Tag<'a>);

#[verifier::external_type_specification]
#[verifier::external_body]
pub struct ExTagEnd(TagEnd);

#[verifier::external_type_specification]
#[verifier::external_body]
pub struct ExAlignment(Alignment);

#[verifier::external_type_specification]
#[verifier::external_body]
pub struct ExLinkType(LinkType);

/// The events that `pulldown_cmark` reads from the Markdown document
/// `input` with strikethrough, tables, footnotes (both syntaxes), task
/// lists, YAML and `+++` metadata blocks and GitHub-flavoured blockquote
/// kinds enabled, each carried over by `md_event`.
pub uninterp spec fn markdown_events(input: Seq<char>) -> Seq<MdEvent>;

/// Parses `input` with `pulldown_cmark::Parser::new_ext` and carries every
/// event over into an `MdEvent`. Trusted: the claim is that the result is a
/// function of `input` alone, named `markdown_events`, and that it is well
/// nested. pulldown_cmark documents its start and end events as balanced,
/// and makes each `End` from the same tree node as its `Start`
/// (`Tag::to_end` and `body_to_tag_end` agree), which `md_event` keeps.
#[verifier::external_body]
pub(crate) fn parse_markdown(input: &str) -> (events: Vec<MdEvent>)
    ensures
        events@ == markdown_events(input@),
        well_nested(events@),
{
    let opts = Options::ENABLE_STRIKETHROUGH | Options::ENABLE_TABLES | Options::ENABLE_FOOTNOTES
        | Options::ENABLE_TASKLISTS | Options::ENABLE_YAML_STYLE_METADATA_BLOCKS
        | Options::ENABLE_PLUSES_DELIMITED_METADATA_BLOCKS | Options::ENABLE_OLD_FOOTNOTES
        | Options::ENABLE_GFM;
    Parser::new_ext(input, opts).map(md_event).collect()
}

/// Carries a `pulldown_cmark::Event` over, variant for variant; math events
/// (not enabled) become `Other`.
#[verifier::external_body]
fn md_event(e: Event<'_>) -> MdEvent {
    match e {
        Start(t) => MdEvent::Start(md_tag(t)),
        End(t) => MdEvent::End(tag_kind(t)),
        Text(s) => MdEvent::Text(s.chars().collect()),
        Code(s) => MdEvent::Code(s.chars().collect()),
        Html(s) => MdEvent::Html(s.chars().collect()),
        InlineHtml(s) => MdEvent::InlineHtml(s.chars().collect()),
        FootnoteReference(s) => MdEvent::FootnoteReference(s.chars().collect()),
        SoftBreak => MdEvent::SoftBreak,
        HardBreak => MdEvent::HardBreak,
        Rule => MdEvent::Rule,
        TaskListMarker(b) => MdEvent::TaskListMarker(b),
        _ => MdEvent::Other,
    }
}

/// Carries a `pulldown_cmark::Tag` over: the tags with data keep it, the
/// others become `Bare` with the kind of their closing tag.
#[verifier::external_body]
fn md_tag(t: Tag<'_>) -> MdTag {
    match t {
        Heading { level, .. } => MdTag::Heading(level as u8),
        CodeBlock(CodeBlockKind::Fenced(l)) => MdTag::CodeBlock(Some(l.chars().collect())),
        CodeBlock(CodeBlockKind::Indented) => MdTag::CodeBlock(None),
        List(start) => MdTag::List(start),
        FootnoteDefinition(n) => MdTag::FootnoteDefinition(n.chars().collect()),
        Table(a) => MdTag::Table(a.iter().map(md_align).collect()),
        Link { link_type, dest_url, .. } => MdTag::Link(link_kind(link_type), dest_url.chars().collect()),
        Image { dest_url, .. } => MdTag::Image(dest_url.chars().collect()),
        other => MdTag::Bare(tag_kind(other.to_end())),
    }
}

/// Carries the block-level kinds of a `pulldown_cmark::TagEnd` over and
/// hands the others to `span_tag_kind`.
#[verifier::external_body]
fn tag_kind(t: TagEnd) -> TagKind {
    match t {
        TagEnd::Paragraph => TagKind::Paragraph,
        TagEnd::Heading(_) => TagKind::Heading,
        TagEnd::BlockQuote(_) => TagKind::BlockQuote,
        TagEnd::CodeBlock => TagKind::CodeBlock,
        TagEnd::List(_) => TagKind::List,
        TagEnd::Item => TagKind::Item,
        TagEnd::FootnoteDefinition => TagKind::FootnoteDefinition,
        TagEnd::MetadataBlock(_) => TagKind::MetadataBlock,
        TagEnd::Table => TagKind::Table,
        other => span_tag_kind(other),
    }
}

/// Carries the table-part and inline kinds of a `pulldown_cmark::TagEnd`
/// over; the kinds the conversion ignores become `Other`.
#[verifier::external_body]
fn span_tag_kind(t: TagEnd) -> TagKind {
    match t {
        TagEnd::TableHead => TagKind::TableHead,
        TagEnd::TableRow => TagKind::TableRow,
        TagEnd::TableCell => TagKind::TableCell,
        TagEnd::Emphasis => TagKind::Emphasis,
        TagEnd::Strong => TagKind::Strong,
        TagEnd::Strikethrough => TagKind::Strikethrough,
        TagEnd::Link => TagKind::Link,
        TagEnd::Image => TagKind::Image,
        _ => TagKind::Other,
    }
}

/// Carries a `pulldown_cmark::Alignment` over.
#[verifier::external_body]
fn md_align(a: &Alignment) -> Align {
    match a {
        Alignment::None => Align::Unspecified,
        Alignment::Left => Align::Left,
        Alignment::Center => Align::Center,
        Alignment::Right => Align::Right,
    }
}

/// Carries a `pulldown_cmark::LinkType` over, keeping apart the two kinds
/// of autolink.
#[verifier::external_body]
fn link_kind(l: LinkType) -> LinkKind {
    match l {
        LinkType::Autolink => LinkKind::Autolink,
        LinkType::Email => LinkKind::Email,
        _ => LinkKind::Other,
    }
}

} // verus!
