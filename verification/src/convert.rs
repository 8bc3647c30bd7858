//! Conversion of a Markdown event stream to Norg text.
//!
//! The conversion is a state machine over `MdEvent`s. Its specification is
//! the function `step` on the abstract state `ConvState`; `Converter` is the
//! executable machine, and each of its methods is proved to perform `step`.
use crate::events::{
    markdown_events, open_elements, open_step, parse_markdown, tag_kind_of, well_nested, Align,
    LinkKind, MdEvent, MdTag, TagKind,
};
use crate::meta::{meta_text, push_str, yaml_front_matter, yaml_to_norg};
use crate::text::{
    escape, is_internal_chars, is_ws, lemma_trim_end, is_internal_spec, push_all, push_escaped, push_range,
    push_stripped, push_trimmed, string_from_chars, strip_html_spec, trim, trim_bounds, trim_end,
    trim_end_len, trim_end_newlines, trim_end_newlines_len, trimmed,
};
use vstd::prelude::*;

verus! {

// ---------------------------------------------------------------------------
// Specification
// ---------------------------------------------------------------------------

/// The state of the conversion between two events.
#[verifier::ext_equal]
pub struct ConvState {
    /// The Norg text written so far.
    pub output: Seq<char>,
    pub in_code_block: bool,
    pub code_block_lang: Seq<char>,
    pub code_block_content: Seq<char>,
    /// How many block quotes are open.
    pub blockquote_depth: nat,
    /// For each open list (at most seven), whether it is ordered.
    pub list_stack: Seq<bool>,
    pub in_list_item: bool,
    /// Inside a footnote definition, text goes to `footnote_content`.
    pub in_footnote: bool,
    pub footnote_name: Seq<char>,
    pub footnote_content: Seq<char>,
    /// Inside an image, text is its alternative text.
    pub in_image: bool,
    pub image_url: Seq<char>,
    pub image_alt: Seq<char>,
    pub in_link: bool,
    /// Inside a metadata block, text is its YAML.
    pub in_metadata: bool,
    pub metadata_content: Seq<char>,
    pub in_table: bool,
    pub table_alignments: Seq<Align>,
    /// Inside a table cell, text goes to `cell_text`.
    pub in_table_cell: bool,
    pub cell_text: Seq<char>,
    pub cur_row: Seq<Seq<char>>,
    pub rows: Seq<Seq<Seq<char>>>,
}

/// The state before the first event.
pub open spec fn initial_state() -> ConvState {
    ConvState {
        output: Seq::empty(),
        in_code_block: false,
        code_block_lang: Seq::empty(),
        code_block_content: Seq::empty(),
        blockquote_depth: 0,
        list_stack: Seq::empty(),
        in_list_item: false,
        in_footnote: false,
        footnote_name: Seq::empty(),
        footnote_content: Seq::empty(),
        in_image: false,
        image_url: Seq::empty(),
        image_alt: Seq::empty(),
        in_link: false,
        in_metadata: false,
        metadata_content: Seq::empty(),
        in_table: false,
        table_alignments: Seq::empty(),
        in_table_cell: false,
        cell_text: Seq::empty(),
        cur_row: Seq::empty(),
        rows: Seq::empty(),
    }
}

/// What every reachable state satisfies: at most seven lists are tracked.
pub open spec fn state_inv(s: ConvState) -> bool {
    s.list_stack.len() <= 7
}

/// `n` copies of `c`.
pub open spec fn repeat(c: char, n: nat) -> Seq<char> {
    Seq::new(n, |_i: int| c)
}

/// Writes `t` where text currently goes: into the footnote being defined,
/// else into the table cell being read, else into the output.
pub open spec fn buf(s: ConvState, t: Seq<char>) -> ConvState {
    if s.in_footnote {
        ConvState { footnote_content: s.footnote_content + t, ..s }
    } else if s.in_table_cell {
        ConvState { cell_text: s.cell_text + t, ..s }
    } else {
        ConvState { output: s.output + t, ..s }
    }
}

/// How many markers a list item gets: one per open list, at least one.
pub open spec fn item_depth(stack: Seq<bool>) -> nat {
    if stack.len() > 1 {
        stack.len()
    } else {
        1
    }
}

/// The list item marker: `~` in an ordered list, `-` otherwise.
pub open spec fn item_marker(stack: Seq<bool>) -> char {
    if stack.len() > 0 && stack.last() {
        '~'
    } else {
        '-'
    }
}

/// The opening of a Norg link to `url`: `{url}[`, or `{:url:}[` for an
/// internal path, `{}[` for an empty target.
pub open spec fn link_open(kind: LinkKind, url: Seq<char>) -> Seq<char> {
    match kind {
        LinkKind::Autolink | LinkKind::Email => "{"@ + url + "}["@,
        LinkKind::Other => if url.len() == 0 {
            "{}["@
        } else if is_internal_spec(url) {
            "{:"@ + url + ":}["@
        } else {
            "{"@ + url + "}["@
        },
    }
}

/// `.image url alt`, followed by a line feed unless inside a link.
pub open spec fn image_text(url: Seq<char>, alt: Seq<char>, in_link: bool) -> Seq<char> {
    ".image "@ + url + (if alt.len() > 0 {
        " "@ + alt
    } else {
        Seq::empty()
    }) + (if !in_link {
        "\n"@
    } else {
        Seq::empty()
    })
}

/// A Norg code block.
pub open spec fn code_block_text(lang: Seq<char>, content: Seq<char>) -> Seq<char> {
    "@code "@ + lang + "\n"@ + trim_end_newlines(content) + "\n@end\n\n"@
}

/// A Norg footnote definition.
pub open spec fn footnote_text(name: Seq<char>, content: Seq<char>) -> Seq<char> {
    "^^ "@ + name + "\n"@ + trim(content) + "\n^^\n\n"@
}

/// A Norg `@document.meta` block for the front matter `content`.
pub open spec fn metadata_text(content: Seq<char>) -> Seq<char> {
    let t = trim(content);
    "@document.meta\n"@ + (if t.len() > 0 {
        meta_text(t, yaml_front_matter(t))
    } else {
        Seq::empty()
    }) + "@end\n\n"@
}

/// A Norg `@embed html` block for an HTML block line; nothing when it is
/// blank.
pub open spec fn html_block_text(html: Seq<char>) -> Seq<char> {
    let t = trim(html);
    if t.len() == 0 {
        Seq::empty()
    } else {
        "@embed html\n"@ + t + (if t.last() == '\n' {
            Seq::empty()
        } else {
            "\n"@
        }) + "@end\n\n"@
    }
}

/// The separator cell of a column with alignment `a`.
pub open spec fn align_sep(a: Align) -> Seq<char> {
    match a {
        Align::Unspecified => "---"@,
        Align::Left => ":---"@,
        Align::Center => ":---:"@,
        Align::Right => "---:"@,
    }
}

/// `parts` with `sep` between each two of them.
pub open spec fn join(parts: Seq<Seq<char>>, sep: Seq<char>) -> Seq<char>
    decreases parts.len(),
{
    if parts.len() == 0 {
        Seq::empty()
    } else if parts.len() == 1 {
        parts[0]
    } else {
        join(parts.drop_last(), sep) + sep + parts.last()
    }
}

/// The lines of a Norg table, one `| a | b |` line per row.
pub open spec fn rows_text(rows: Seq<Seq<Seq<char>>>) -> Seq<char>
    decreases rows.len(),
{
    if rows.len() == 0 {
        Seq::empty()
    } else {
        rows_text(rows.drop_last()) + "| "@ + join(rows.last(), " | "@) + " |\n"@
    }
}

/// A Norg `@table` block.
pub open spec fn table_text(rows: Seq<Seq<Seq<char>>>) -> Seq<char> {
    "@table\n"@ + rows_text(rows) + "@end\n\n"@
}

/// The state after an element opens.
pub open spec fn start(s: ConvState, t: MdTag) -> ConvState {
    match t {
        MdTag::Heading(level) => buf(s, repeat('*', level as nat) + " "@),
        MdTag::CodeBlock(lang) => ConvState {
            in_code_block: true,
            code_block_lang: match lang {
                Some(l) => l@,
                None => Seq::empty(),
            },
            code_block_content: Seq::empty(),
            ..s
        },
        MdTag::List(first) => {
            let s1 = if s.list_stack.len() > 0 {
                buf(s, "\n"@)
            } else {
                s
            };
            if s1.list_stack.len() < 7 {
                ConvState { list_stack: s1.list_stack.push(first is Some), ..s1 }
            } else {
                s1
            }
        },
        MdTag::FootnoteDefinition(name) => ConvState {
            in_footnote: true,
            footnote_name: name@,
            ..s
        },
        MdTag::Table(aligns) => ConvState {
            in_table: true,
            table_alignments: aligns@,
            rows: Seq::empty(),
            ..s
        },
        MdTag::Link(kind, url) => buf(ConvState { in_link: true, ..s }, link_open(kind, url@)),
        MdTag::Image(url) => ConvState {
            in_image: true,
            image_url: url@,
            image_alt: Seq::empty(),
            ..s
        },
        MdTag::Bare(k) => start_bare(s, k),
    }
}

/// The state after an element without data opens.
pub open spec fn start_bare(s: ConvState, k: TagKind) -> ConvState {
    match k {
        TagKind::Item => buf(
            ConvState { in_list_item: true, ..s },
            repeat(item_marker(s.list_stack), item_depth(s.list_stack)) + " "@,
        ),
        TagKind::Paragraph => buf(
            s,
            repeat('>', s.blockquote_depth) + if s.blockquote_depth > 0 {
                " "@
            } else {
                Seq::empty()
            },
        ),
        TagKind::BlockQuote => ConvState { blockquote_depth: s.blockquote_depth + 1, ..s },
        TagKind::Emphasis => buf(s, "/"@),
        TagKind::Strong => buf(s, "*"@),
        TagKind::Strikethrough => buf(s, "-"@),
        TagKind::MetadataBlock => ConvState {
            in_metadata: true,
            metadata_content: Seq::empty(),
            ..s
        },
        TagKind::TableRow => ConvState { cur_row: Seq::empty(), ..s },
        TagKind::TableCell => ConvState { in_table_cell: true, cell_text: Seq::empty(), ..s },
        _ => s,
    }
}

/// The state after an element closes.
pub open spec fn end(s: ConvState, k: TagKind) -> ConvState {
    match k {
        TagKind::Heading => buf(s, "\n\n"@),
        TagKind::CodeBlock => buf(
            ConvState { in_code_block: false, ..s },
            code_block_text(s.code_block_lang, s.code_block_content),
        ),
        TagKind::BlockQuote => ConvState {
            blockquote_depth: if s.blockquote_depth > 0 {
                (s.blockquote_depth - 1) as nat
            } else {
                0
            },
            ..s
        },
        TagKind::Paragraph => if !s.in_list_item {
            buf(s, "\n\n"@)
        } else {
            s
        },
        TagKind::Emphasis => buf(s, "/"@),
        TagKind::Strong => buf(s, "*"@),
        TagKind::Strikethrough => buf(s, "-"@),
        TagKind::Link => buf(ConvState { in_link: false, ..s }, "]"@),
        TagKind::Image => buf(
            ConvState { in_image: false, image_url: Seq::empty(), image_alt: Seq::empty(), ..s },
            image_text(s.image_url, s.image_alt, s.in_link),
        ),
        TagKind::List => {
            let stack = if s.list_stack.len() > 0 {
                s.list_stack.drop_last()
            } else {
                s.list_stack
            };
            let s1 = ConvState { list_stack: stack, ..s };
            if stack.len() == 0 {
                buf(s1, "\n"@)
            } else {
                s1
            }
        },
        TagKind::Item => buf(ConvState { in_list_item: false, ..s }, "\n"@),
        TagKind::FootnoteDefinition => buf(
            ConvState {
                in_footnote: false,
                footnote_name: Seq::empty(),
                footnote_content: Seq::empty(),
                ..s
            },
            footnote_text(s.footnote_name, s.footnote_content),
        ),
        TagKind::MetadataBlock => buf(
            ConvState { in_metadata: false, metadata_content: Seq::empty(), ..s },
            metadata_text(s.metadata_content),
        ),
        TagKind::TableHead => {
            let rows = s.rows.push(s.cur_row);
            let sep = s.table_alignments.map_values(|a: Align| align_sep(a));
            ConvState {
                rows: if sep.len() > 0 {
                    rows.push(sep)
                } else {
                    rows
                },
                cur_row: Seq::empty(),
                table_alignments: Seq::empty(),
                ..s
            }
        },
        TagKind::TableCell => ConvState {
            in_table_cell: false,
            cell_text: Seq::empty(),
            cur_row: s.cur_row.push(trim(s.cell_text)),
            ..s
        },
        TagKind::TableRow => ConvState { rows: s.rows.push(s.cur_row), cur_row: Seq::empty(), ..s },
        TagKind::Table => buf(
            ConvState { in_table: false, rows: Seq::empty(), ..s },
            table_text(s.rows),
        ),
        _ => s,
    }
}

/// The state after one event.
pub open spec fn step(s: ConvState, e: MdEvent) -> ConvState {
    match e {
        MdEvent::Start(t) => start(s, t),
        MdEvent::End(k) => end(s, k),
        MdEvent::Text(t) => if s.in_code_block {
            ConvState { code_block_content: s.code_block_content + t@, ..s }
        } else if s.in_metadata {
            ConvState { metadata_content: s.metadata_content + t@, ..s }
        } else if s.in_image {
            ConvState { image_alt: s.image_alt + t@, ..s }
        } else {
            buf(s, escape(t@))
        },
        MdEvent::Code(t) => buf(s, "`"@ + t@ + "`"@),
        MdEvent::Rule => buf(s, "___\n"@),
        MdEvent::SoftBreak => buf(s, " "@),
        MdEvent::HardBreak => buf(s, "\n"@),
        MdEvent::TaskListMarker(checked) => buf(
            s,
            if checked {
                "(x) "@
            } else {
                "( ) "@
            },
        ),
        MdEvent::FootnoteReference(name) => buf(s, "^"@ + name@),
        MdEvent::Html(h) => if trim(h@).len() == 0 {
            s
        } else {
            buf(s, html_block_text(h@))
        },
        MdEvent::InlineHtml(h) => if strip_html_spec(h@).len() == 0 {
            s
        } else {
            buf(s, strip_html_spec(h@))
        },
        MdEvent::Other => s,
    }
}

/// The state after a sequence of events.
pub open spec fn run(s: ConvState, events: Seq<MdEvent>) -> ConvState
    decreases events.len(),
{
    if events.len() == 0 {
        s
    } else {
        step(run(s, events.drop_last()), events.last())
    }
}

/// The Norg text for a Markdown event stream: the output of the
/// conversion without trailing whitespace.
pub open spec fn render_spec(events: Seq<MdEvent>) -> Seq<char> {
    trim_end(run(initial_state(), events).output)
}

/// The Norg text for the Markdown document `input`.
pub open spec fn convert_spec(input: Seq<char>) -> Seq<char> {
    render_spec(markdown_events(input))
}

// ---------------------------------------------------------------------------
// The converter
// ---------------------------------------------------------------------------

/// The characters of each cell of a row.
pub open spec fn cells_view(row: Seq<Vec<char>>) -> Seq<Seq<char>> {
    row.map_values(|c: Vec<char>| c@)
}

/// The characters of each cell of each row.
pub open spec fn table_view(rows: Seq<Vec<Vec<char>>>) -> Seq<Seq<Seq<char>>> {
    rows.map_values(|r: Vec<Vec<char>>| cells_view(r@))
}

/// The executable conversion state machine; its view is a `ConvState`.
pub struct Converter {
    output: Vec<char>,
    in_code_block: bool,
    code_block_lang: Vec<char>,
    code_block_content: Vec<char>,
    blockquote_depth: usize,
    list_stack: Vec<bool>,
    in_list_item: bool,
    in_footnote: bool,
    footnote_name: Vec<char>,
    footnote_content: Vec<char>,
    in_image: bool,
    image_url: Vec<char>,
    image_alt: Vec<char>,
    in_link: bool,
    in_metadata: bool,
    metadata_content: Vec<char>,
    in_table: bool,
    table_alignments: Vec<Align>,
    in_table_cell: bool,
    table_cur_cell_text: Vec<char>,
    table_cur_row: Vec<Vec<char>>,
    table_rows: Vec<Vec<Vec<char>>>,
}

impl View for Converter {
    type V = ConvState;

    closed spec fn view(&self) -> ConvState {
        ConvState {
            output: self.output@,
            in_code_block: self.in_code_block,
            code_block_lang: self.code_block_lang@,
            code_block_content: self.code_block_content@,
            blockquote_depth: self.blockquote_depth as nat,
            list_stack: self.list_stack@,
            in_list_item: self.in_list_item,
            in_footnote: self.in_footnote,
            footnote_name: self.footnote_name@,
            footnote_content: self.footnote_content@,
            in_image: self.in_image,
            image_url: self.image_url@,
            image_alt: self.image_alt@,
            in_link: self.in_link,
            in_metadata: self.in_metadata,
            metadata_content: self.metadata_content@,
            in_table: self.in_table,
            table_alignments: self.table_alignments@,
            in_table_cell: self.in_table_cell,
            cell_text: self.table_cur_cell_text@,
            cur_row: cells_view(self.table_cur_row@),
            rows: table_view(self.table_rows@),
        }
    }
}

/// Takes the contents of `v`, leaving it empty.
fn take_vec<T>(v: &mut Vec<T>) -> (r: Vec<T>)
    ensures
        r@ == old(v)@,
        final(v)@ == Seq::<T>::empty(),
{
    let mut r: Vec<T> = Vec::new();
    std::mem::swap(v, &mut r);
    r
}

/// A copy of `v`.
fn copy_chars(v: &[char]) -> (r: Vec<char>)
    ensures
        r@ == v@,
{
    let mut r: Vec<char> = Vec::new();
    push_all(&mut r, v);
    assert(r@ =~= v@);
    r
}

/// A copy of `v`.
fn copy_aligns(v: &Vec<Align>) -> (r: Vec<Align>)
    ensures
        r@ == v@,
{
    let mut r: Vec<Align> = Vec::new();
    let mut i: usize = 0;
    while i < v.len()
        invariant
            i <= v@.len(),
            r@ == v@.subrange(0, i as int),
        decreases v@.len() - i,
    {
        r.push(v[i]);
        i += 1;
        assert(r@ =~= v@.subrange(0, i as int));
    }
    assert(r@ =~= v@);
    r
}

/// The separator cell of a column with alignment `a`.
fn align_sep_chars(a: Align) -> (r: Vec<char>)
    ensures
        r@ == align_sep(a),
{
    let mut r: Vec<char> = Vec::new();
    match a {
        Align::Unspecified => push_str(&mut r, "---"),
        Align::Left => push_str(&mut r, ":---"),
        Align::Center => push_str(&mut r, ":---:"),
        Align::Right => push_str(&mut r, "---:"),
    }
    assert(r@ =~= align_sep(a));
    r
}

/// The separator row of a table with column alignments `aligns`.
fn align_row(aligns: &Vec<Align>) -> (r: Vec<Vec<char>>)
    ensures
        cells_view(r@) == aligns@.map_values(|a: Align| align_sep(a)),
{
    let mut r: Vec<Vec<char>> = Vec::new();
    let mut i: usize = 0;
    while i < aligns.len()
        invariant
            i <= aligns@.len(),
            r@.len() == i,
            forall|j: int| 0 <= j < i ==> #[trigger] r@[j]@ == align_sep(aligns@[j]),
        decreases aligns@.len() - i,
    {
        let cell = align_sep_chars(aligns[i]);
        r.push(cell);
        i += 1;
    }
    assert(cells_view(r@) =~= aligns@.map_values(|a: Align| align_sep(a)));
    r
}

/// Appends `rows_text(rows)` to `out`.
fn push_rows(out: &mut Vec<char>, rows: &Vec<Vec<Vec<char>>>)
    ensures
        final(out)@ == old(out)@ + rows_text(table_view(rows@)),
{
    let ghost start = out@;
    let ghost tv = table_view(rows@);
    let mut i: usize = 0;
    assert(tv.subrange(0, 0) =~= Seq::<Seq<Seq<char>>>::empty());
    while i < rows.len()
        invariant
            i <= rows@.len(),
            tv == table_view(rows@),
            out@ == start + rows_text(tv.subrange(0, i as int)),
        decreases rows@.len() - i,
    {
        push_str(out, "| ");
        push_joined(out, &rows[i], " | ");
        push_str(out, " |\n");
        assert(tv.subrange(0, i + 1).drop_last() =~= tv.subrange(0, i as int));
        assert(tv[i as int] == cells_view(rows@[i as int]@));
        i += 1;
        assert(out@ =~= start + rows_text(tv.subrange(0, i as int)));
    }
    assert(tv.subrange(0, i as int) =~= tv);
}

/// Appends `n` copies of `c` to `out`.
fn push_repeat(out: &mut Vec<char>, c: char, n: usize)
    ensures
        final(out)@ == old(out)@ + repeat(c, n as nat),
{
    let ghost start = out@;
    let mut i: usize = 0;
    while i < n
        invariant
            i <= n,
            out@ == start + repeat(c, i as nat),
        decreases n - i,
    {
        out.push(c);
        i += 1;
        assert(out@ =~= start + repeat(c, i as nat));
    }
}

/// Appends `join(parts, sep)` to `out`.
fn push_joined(out: &mut Vec<char>, parts: &Vec<Vec<char>>, sep: &str)
    ensures
        final(out)@ == old(out)@ + join(cells_view(parts@), sep@),
{
    let ghost start = out@;
    let ghost pv = cells_view(parts@);
    let mut i: usize = 0;
    assert(pv.subrange(0, 0) =~= Seq::<Seq<char>>::empty());
    while i < parts.len()
        invariant
            i <= parts@.len(),
            pv == cells_view(parts@),
            out@ == start + join(pv.subrange(0, i as int), sep@),
        decreases parts@.len() - i,
    {
        if i > 0 {
            push_str(out, sep);
        }
        push_all(out, parts[i].as_slice());
        assert(pv.subrange(0, i + 1).drop_last() =~= pv.subrange(0, i as int));
        assert(pv[i as int] == parts@[i as int]@);
        i += 1;
        assert(out@ =~= start + join(pv.subrange(0, i as int), sep@));
    }
    assert(pv.subrange(0, i as int) =~= pv);
}

impl Converter {
    /// A converter in the initial state.
    pub fn new() -> (c: Converter)
        ensures
            c@ == initial_state(),
    {
        let c = Converter {
            output: Vec::new(),
            in_code_block: false,
            code_block_lang: Vec::new(),
            code_block_content: Vec::new(),
            blockquote_depth: 0,
            list_stack: Vec::new(),
            in_list_item: false,
            in_footnote: false,
            footnote_name: Vec::new(),
            footnote_content: Vec::new(),
            in_image: false,
            image_url: Vec::new(),
            image_alt: Vec::new(),
            in_link: false,
            in_metadata: false,
            metadata_content: Vec::new(),
            in_table: false,
            table_alignments: Vec::new(),
            in_table_cell: false,
            table_cur_cell_text: Vec::new(),
            table_cur_row: Vec::new(),
            table_rows: Vec::new(),
        };
        assert(c@ =~= initial_state());
        c
    }

    /// Writes `t` where text currently goes (see `buf`).
    fn buf(&mut self, t: &[char])
        ensures
            final(self)@ == buf(old(self)@, t@),
    {
        if self.in_footnote {
            push_all(&mut self.footnote_content, t);
        } else if self.in_table_cell {
            push_all(&mut self.table_cur_cell_text, t);
        } else {
            push_all(&mut self.output, t);
        }
        assert(self@ =~= buf(old(self)@, t@));
    }

    /// Performs `start`: an element opens.
    fn handle_start(&mut self, t: &MdTag)
        requires
            old(self)@.blockquote_depth < usize::MAX,
        ensures
            final(self)@ == start(old(self)@, *t),
    {
        match t {
            MdTag::Heading(level) => {
                let mut piece: Vec<char> = Vec::new();
                push_repeat(&mut piece, '*', *level as usize);
                push_str(&mut piece, " ");
                self.buf(piece.as_slice());
            },
            MdTag::CodeBlock(lang) => {
                self.in_code_block = true;
                self.code_block_lang = match lang {
                    Some(l) => copy_chars(l.as_slice()),
                    None => Vec::new(),
                };
                self.code_block_content.clear();
            },
            MdTag::List(first) => {
                if self.list_stack.len() > 0 {
                    self.buf_str("\n");
                }
                if self.list_stack.len() < 7 {
                    self.list_stack.push(first.is_some());
                }
            },
            MdTag::FootnoteDefinition(name) => {
                self.in_footnote = true;
                self.footnote_name = copy_chars(name.as_slice());
            },
            MdTag::Table(aligns) => {
                self.in_table = true;
                self.table_alignments = copy_aligns(aligns);
                self.table_rows.clear();
            },
            MdTag::Link(kind, url) => self.start_link(*kind, url),
            MdTag::Image(url) => {
                self.in_image = true;
                self.image_url = copy_chars(url.as_slice());
                self.image_alt.clear();
            },
            MdTag::Bare(k) => self.handle_start_bare(*k),
        }
        assert(self@ =~= start(old(self)@, *t));
    }

    /// Performs `start` for a link.
    fn start_link(&mut self, kind: LinkKind, url: &Vec<char>)
        ensures
            final(self)@ == start(old(self)@, MdTag::Link(kind, *url)),
    {
        self.in_link = true;
        let mut piece: Vec<char> = Vec::new();
        match kind {
            LinkKind::Autolink | LinkKind::Email => {
                push_str(&mut piece, "{");
                push_all(&mut piece, url.as_slice());
                push_str(&mut piece, "}[");
            },
            LinkKind::Other => {
                if url.len() == 0 {
                    push_str(&mut piece, "{}[");
                } else if is_internal_chars(url.as_slice()) {
                    push_str(&mut piece, "{:");
                    push_all(&mut piece, url.as_slice());
                    push_str(&mut piece, ":}[");
                } else {
                    push_str(&mut piece, "{");
                    push_all(&mut piece, url.as_slice());
                    push_str(&mut piece, "}[");
                }
            },
        }
        assert(piece@ =~= link_open(kind, url@));
        self.buf(piece.as_slice());
    }

    /// Performs `start_bare`: an element without data opens.
    fn handle_start_bare(&mut self, k: TagKind)
        requires
            old(self)@.blockquote_depth < usize::MAX,
        ensures
            final(self)@ == start_bare(old(self)@, k),
    {
        match k {
            TagKind::Item => {
                self.in_list_item = true;
                let n = self.list_stack.len();
                let depth = if n > 1 {
                    n
                } else {
                    1
                };
                let marker = if n > 0 && self.list_stack[n - 1] {
                    '~'
                } else {
                    '-'
                };
                let mut piece: Vec<char> = Vec::new();
                push_repeat(&mut piece, marker, depth);
                push_str(&mut piece, " ");
                self.buf(piece.as_slice());
            },
            TagKind::Paragraph => {
                let mut piece: Vec<char> = Vec::new();
                push_repeat(&mut piece, '>', self.blockquote_depth);
                if self.blockquote_depth > 0 {
                    push_str(&mut piece, " ");
                }
                assert(piece@ =~= repeat('>', old(self)@.blockquote_depth) + if old(
                    self,
                )@.blockquote_depth > 0 {
                    " "@
                } else {
                    Seq::empty()
                });
                self.buf(piece.as_slice());
            },
            TagKind::BlockQuote => {
                self.blockquote_depth = self.blockquote_depth + 1;
            },
            TagKind::Emphasis => self.buf_str("/"),
            TagKind::Strong => self.buf_str("*"),
            TagKind::Strikethrough => self.buf_str("-"),
            TagKind::MetadataBlock => {
                self.in_metadata = true;
                self.metadata_content.clear();
            },
            TagKind::TableRow => {
                self.table_cur_row.clear();
            },
            TagKind::TableCell => {
                self.in_table_cell = true;
                self.table_cur_cell_text.clear();
            },
            _ => {},
        }
        assert(self@ =~= start_bare(old(self)@, k));
    }

    /// Performs `end`: an element closes.
    fn handle_end(&mut self, k: TagKind)
        ensures
            final(self)@ == end(old(self)@, k),
    {
        match k {
            TagKind::Heading => self.buf_str("\n\n"),
            TagKind::CodeBlock => self.end_code_block(),
            TagKind::BlockQuote => {
                if self.blockquote_depth > 0 {
                    self.blockquote_depth = self.blockquote_depth - 1;
                }
            },
            TagKind::Paragraph => {
                if !self.in_list_item {
                    self.buf_str("\n\n");
                }
            },
            TagKind::Emphasis => self.buf_str("/"),
            TagKind::Strong => self.buf_str("*"),
            TagKind::Strikethrough => self.buf_str("-"),
            TagKind::Link => {
                self.in_link = false;
                self.buf_str("]");
            },
            TagKind::Image => self.end_image(),
            TagKind::List => {
                self.list_stack.pop();
                if self.list_stack.len() == 0 {
                    self.buf_str("\n");
                }
            },
            TagKind::Item => {
                self.in_list_item = false;
                self.buf_str("\n");
            },
            TagKind::FootnoteDefinition => self.end_footnote(),
            TagKind::MetadataBlock => self.end_metadata(),
            TagKind::TableHead => self.end_table_head(),
            TagKind::TableCell => {
                self.in_table_cell = false;
                let text = take_vec(&mut self.table_cur_cell_text);
                let cell = trimmed(text.as_slice());
                self.table_cur_row.push(cell);
            },
            TagKind::TableRow => {
                let row = take_vec(&mut self.table_cur_row);
                self.table_rows.push(row);
            },
            TagKind::Table => self.end_table(),
            _ => {},
        }
        assert(self@ =~= end(old(self)@, k));
    }

    /// Performs `end` for `TagKind::CodeBlock`.
    fn end_code_block(&mut self)
        ensures
            final(self)@ == end(old(self)@, TagKind::CodeBlock),
    {
        self.in_code_block = false;
        let n = trim_end_newlines_len(self.code_block_content.as_slice());
        let mut piece: Vec<char> = Vec::new();
        push_str(&mut piece, "@code ");
        push_all(&mut piece, self.code_block_lang.as_slice());
        push_str(&mut piece, "\n");
        push_range(&mut piece, self.code_block_content.as_slice(), 0, n);
        push_str(&mut piece, "\n@end\n\n");
        assert(piece@ =~= code_block_text(
            old(self)@.code_block_lang,
            old(self)@.code_block_content,
        ));
        self.buf(piece.as_slice());
        assert(self@ =~= end(old(self)@, TagKind::CodeBlock));
    }

    /// Performs `end` for `TagKind::Image`.
    fn end_image(&mut self)
        ensures
            final(self)@ == end(old(self)@, TagKind::Image),
    {
        self.in_image = false;
        let url = take_vec(&mut self.image_url);
        let alt = take_vec(&mut self.image_alt);
        let mut piece: Vec<char> = Vec::new();
        push_str(&mut piece, ".image ");
        push_all(&mut piece, url.as_slice());
        if alt.len() > 0 {
            push_str(&mut piece, " ");
            push_all(&mut piece, alt.as_slice());
        }
        if !self.in_link {
            push_str(&mut piece, "\n");
        }
        assert(piece@ =~= image_text(
            old(self)@.image_url,
            old(self)@.image_alt,
            old(self)@.in_link,
        ));
        self.buf(piece.as_slice());
        assert(self@ =~= end(old(self)@, TagKind::Image));
    }

    /// Performs `end` for `TagKind::FootnoteDefinition`.
    fn end_footnote(&mut self)
        ensures
            final(self)@ == end(old(self)@, TagKind::FootnoteDefinition),
    {
        self.in_footnote = false;
        let name = take_vec(&mut self.footnote_name);
        let content = take_vec(&mut self.footnote_content);
        let mut piece: Vec<char> = Vec::new();
        push_str(&mut piece, "^^ ");
        push_all(&mut piece, name.as_slice());
        push_str(&mut piece, "\n");
        push_trimmed(&mut piece, content.as_slice());
        push_str(&mut piece, "\n^^\n\n");
        assert(piece@ =~= footnote_text(
            old(self)@.footnote_name,
            old(self)@.footnote_content,
        ));
        self.buf(piece.as_slice());
        assert(self@ =~= end(old(self)@, TagKind::FootnoteDefinition));
    }

    /// Performs `end` for `TagKind::MetadataBlock`.
    fn end_metadata(&mut self)
        ensures
            final(self)@ == end(old(self)@, TagKind::MetadataBlock),
    {
        self.in_metadata = false;
        let content = take_vec(&mut self.metadata_content);
        let mut piece: Vec<char> = Vec::new();
        push_str(&mut piece, "@document.meta\n");
        let (a, b) = trim_bounds(content.as_slice());
        if a < b {
            let mut yaml: Vec<char> = Vec::new();
            push_range(&mut yaml, content.as_slice(), a, b);
            assert(yaml@ =~= trim(content@));
            let meta = yaml_to_norg(yaml.as_slice());
            push_all(&mut piece, meta.as_slice());
        }
        push_str(&mut piece, "@end\n\n");
        assert(piece@ =~= metadata_text(old(self)@.metadata_content));
        self.buf(piece.as_slice());
        assert(self@ =~= end(old(self)@, TagKind::MetadataBlock));
    }

    /// Performs `end` for `TagKind::TableHead`.
    fn end_table_head(&mut self)
        ensures
            final(self)@ == end(old(self)@, TagKind::TableHead),
    {
        let row = take_vec(&mut self.table_cur_row);
        self.table_rows.push(row);
        let aligns = take_vec(&mut self.table_alignments);
        let sep = align_row(&aligns);
        if sep.len() > 0 {
            self.table_rows.push(sep);
        }
        assert(self@ =~= end(old(self)@, TagKind::TableHead));
    }

    /// Performs `end` for `TagKind::Table`.
    fn end_table(&mut self)
        ensures
            final(self)@ == end(old(self)@, TagKind::Table),
    {
        self.in_table = false;
        let rows = take_vec(&mut self.table_rows);
        let mut piece: Vec<char> = Vec::new();
        push_str(&mut piece, "@table\n");
        push_rows(&mut piece, &rows);
        push_str(&mut piece, "@end\n\n");
        assert(piece@ =~= table_text(old(self)@.rows));
        self.buf(piece.as_slice());
        assert(self@ =~= end(old(self)@, TagKind::Table));
    }

    /// Performs `step`: one event.
    fn process(&mut self, e: &MdEvent)
        requires
            old(self)@.blockquote_depth < usize::MAX,
        ensures
            final(self)@ == step(old(self)@, *e),
    {
        match e {
            MdEvent::Start(t) => self.handle_start(t),
            MdEvent::End(k) => self.handle_end(*k),
            MdEvent::Text(t) => {
                if self.in_code_block {
                    push_all(&mut self.code_block_content, t.as_slice());
                } else if self.in_metadata {
                    push_all(&mut self.metadata_content, t.as_slice());
                } else if self.in_image {
                    push_all(&mut self.image_alt, t.as_slice());
                } else {
                    let mut piece: Vec<char> = Vec::new();
                    push_escaped(&mut piece, t.as_slice());
                    assert(piece@ =~= escape(t@));
                    self.buf(piece.as_slice());
                }
            },
            MdEvent::Code(t) => {
                let mut piece: Vec<char> = Vec::new();
                push_str(&mut piece, "`");
                push_all(&mut piece, t.as_slice());
                push_str(&mut piece, "`");
                self.buf(piece.as_slice());
            },
            MdEvent::Rule => self.buf_str("___\n"),
            MdEvent::SoftBreak => self.buf_str(" "),
            MdEvent::HardBreak => self.buf_str("\n"),
            MdEvent::TaskListMarker(checked) => {
                if *checked {
                    self.buf_str("(x) ");
                } else {
                    self.buf_str("( ) ");
                }
            },
            MdEvent::FootnoteReference(name) => {
                let mut piece: Vec<char> = Vec::new();
                push_str(&mut piece, "^");
                push_all(&mut piece, name.as_slice());
                self.buf(piece.as_slice());
            },
            MdEvent::Html(h) => {
                let (a, b) = trim_bounds(h.as_slice());
                if a < b {
                    let mut piece: Vec<char> = Vec::new();
                    push_str(&mut piece, "@embed html\n");
                    push_range(&mut piece, h.as_slice(), a, b);
                    if h[b - 1] != '\n' {
                        push_str(&mut piece, "\n");
                    }
                    push_str(&mut piece, "@end\n\n");
                    assert(piece@ =~= html_block_text(h@));
                    self.buf(piece.as_slice());
                }
            },
            MdEvent::InlineHtml(h) => {
                let mut text: Vec<char> = Vec::new();
                push_stripped(&mut text, h.as_slice());
                assert(text@ =~= strip_html_spec(h@));
                if text.len() > 0 {
                    self.buf(text.as_slice());
                }
            },
            MdEvent::Other => {},
        }
        assert(self@ =~= step(old(self)@, *e));
    }

    /// Runs the conversion over `events`.
    fn run_events(&mut self, events: &[MdEvent])
        requires
            old(self)@.blockquote_depth + events@.len() <= usize::MAX,
        ensures
            final(self)@ == run(old(self)@, events@),
    {
        let ghost s0 = self@;
        let mut i: usize = 0;
        assert(events@.subrange(0, 0) =~= Seq::<MdEvent>::empty());
        while i < events.len()
            invariant
                i <= events@.len(),
                s0.blockquote_depth + events@.len() <= usize::MAX,
                self@ == run(s0, events@.subrange(0, i as int)),
                self@.blockquote_depth <= s0.blockquote_depth + i,
            decreases events@.len() - i,
        {
            proof {
                lemma_step_depth(self@, events@[i as int]);
            }
            self.process(&events[i]);
            assert(events@.subrange(0, i + 1).drop_last() =~= events@.subrange(0, i as int));
            i += 1;
        }
        assert(events@.subrange(0, i as int) =~= events@);
    }

    /// The output written so far, without trailing whitespace.
    fn finish(&self) -> (r: String)
        ensures
            r@ == trim_end(self@.output),
    {
        let n = trim_end_len(self.output.as_slice());
        let mut out: Vec<char> = Vec::new();
        push_range(&mut out, self.output.as_slice(), 0, n);
        assert(out@ =~= trim_end(self@.output));
        string_from_chars(out.as_slice())
    }

    /// Converts the Markdown document `input`: parses it, runs the
    /// conversion over its events from the current state, and returns all
    /// the output written so far without trailing whitespace. From the
    /// initial state, every element the document opens is closed again.
    pub fn convert(&mut self, input: &str) -> (r: String)
        requires
            old(self)@.blockquote_depth + markdown_events(input@).len() <= usize::MAX,
        ensures
            final(self)@ == run(old(self)@, markdown_events(input@)),
            r@ == trim_end(final(self)@.output),
            old(self)@ == initial_state() ==> all_closed(final(self)@),
    {
        let events = parse_markdown(input);
        self.run_events(events.as_slice());
        proof {
            if old(self)@ == initial_state() {
                lemma_well_nested_closes_all(events@);
            }
        }
        self.finish()
    }

    /// Converts the Markdown document `input` as `convert` does, when the
    /// block-quote depth cannot overflow on its events; otherwise leaves
    /// the converter as it is and returns `None`.
    pub fn try_convert(&mut self, input: &str) -> (r: Option<String>)
        ensures
            old(self)@.blockquote_depth + markdown_events(input@).len() <= usize::MAX ==> (r matches Some(
                text,
            ) && final(self)@ == run(old(self)@, markdown_events(input@)) && text@ == trim_end(
                final(self)@.output,
            ) && (old(self)@ == initial_state() ==> all_closed(final(self)@))),
            old(self)@.blockquote_depth + markdown_events(input@).len() > usize::MAX ==> (r is None
                && final(self)@ == old(self)@),
    {
        let events = parse_markdown(input);
        if events.len() <= usize::MAX - self.blockquote_depth {
            Some(self.convert(input))
        } else {
            None
        }
    }

    /// Writes the characters of `t` where text currently goes.
    fn buf_str(&mut self, t: &str)
        ensures
            final(self)@ == buf(old(self)@, t@),
    {
        let mut v: Vec<char> = Vec::new();
        push_str(&mut v, t);
        assert(v@ =~= t@);
        self.buf(v.as_slice());
    }
}

/// Every event keeps the state invariant, and deepens the block-quote
/// nesting by at most one.
pub proof fn lemma_step_inv(s: ConvState, e: MdEvent)
    requires
        state_inv(s),
    ensures
        state_inv(step(s, e)),
        step(s, e).blockquote_depth <= s.blockquote_depth + 1,
{
}

/// Every state the conversion reaches keeps the state invariant: at most
/// seven nested lists are tracked.
pub proof fn lemma_run_inv(events: Seq<MdEvent>)
    ensures
        state_inv(run(initial_state(), events)),
    decreases events.len(),
{
    if events.len() > 0 {
        lemma_run_inv(events.drop_last());
        lemma_step_inv(run(initial_state(), events.drop_last()), events.last());
    }
}

/// No event takes back output that was written: the output before an
/// event is a prefix of the output after it.
pub proof fn lemma_step_output_grows(s: ConvState, e: MdEvent)
    ensures
        s.output.is_prefix_of(step(s, e).output),
{
    assert(s.output.is_prefix_of(s.output));
    let t = step(s, e).output;
    if t != s.output {
        assert(t.subrange(0, s.output.len() as int) =~= s.output);
    }
}

/// The output of a run extends the output of the state it started from.
pub proof fn lemma_run_output_grows(s: ConvState, events: Seq<MdEvent>)
    ensures
        s.output.is_prefix_of(run(s, events).output),
    decreases events.len(),
{
    if events.len() == 0 {
        assert(s.output.is_prefix_of(s.output));
    } else {
        let mid = run(s, events.drop_last());
        lemma_run_output_grows(s, events.drop_last());
        lemma_step_output_grows(mid, events.last());
    }
}

/// Closing a block quote undoes opening it.
pub proof fn lemma_blockquote_undo(s: ConvState)
    ensures
        end(start(s, MdTag::Bare(TagKind::BlockQuote)), TagKind::BlockQuote) == s,
{
    assert(end(start(s, MdTag::Bare(TagKind::BlockQuote)), TagKind::BlockQuote) =~= s);
}

/// Closing a list undoes opening it on the list stack, as long as fewer
/// than seven lists were open.
pub proof fn lemma_list_undo(s: ConvState, first: Option<u64>)
    requires
        s.list_stack.len() < 7,
    ensures
        end(start(s, MdTag::List(first)), TagKind::List).list_stack == s.list_stack,
{
    assert(start(s, MdTag::List(first)).list_stack.drop_last() =~= s.list_stack);
}

/// Text goes straight into the output: no footnote, table cell, code
/// block, metadata block or image is open.
pub open spec fn writes_output(s: ConvState) -> bool {
    !s.in_footnote && !s.in_table_cell && !s.in_code_block && !s.in_metadata && !s.in_image
}

/// The Norg delimiter of an inline markup kind.
pub open spec fn inline_delimiter(k: TagKind) -> Seq<char> {
    match k {
        TagKind::Emphasis => "/"@,
        TagKind::Strong => "*"@,
        _ => "-"@,
    }
}

/// Emphasised, strong or struck-through text is written escaped between
/// two Norg delimiters (`/`, `*`, `-`).
pub proof fn lemma_inline_markup(s: ConvState, k: TagKind, t: Vec<char>)
    requires
        writes_output(s),
        k == TagKind::Emphasis || k == TagKind::Strong || k == TagKind::Strikethrough,
    ensures
        run(s, seq![MdEvent::Start(MdTag::Bare(k)), MdEvent::Text(t), MdEvent::End(k)]).output
            == s.output + inline_delimiter(k) + escape(t@) + inline_delimiter(k),
{
    let evs = seq![MdEvent::Start(MdTag::Bare(k)), MdEvent::Text(t), MdEvent::End(k)];
    assert(evs.drop_last().drop_last().drop_last() =~= Seq::<MdEvent>::empty());
    assert(evs.drop_last().drop_last().last() == MdEvent::Start(MdTag::Bare(k)));
    assert(evs.drop_last().last() == MdEvent::Text(t));
    let s1 = step(s, MdEvent::Start(MdTag::Bare(k)));
    let s2 = step(s1, MdEvent::Text(t));
    assert(run(s, evs.drop_last().drop_last().drop_last()) == s);
    assert(run(s, evs.drop_last().drop_last()) == s1);
    assert(run(s, evs.drop_last()) == s2);
    assert(s1.output =~= s.output + inline_delimiter(k));
    assert(s2.output =~= s.output + inline_delimiter(k) + escape(t@));
    assert(run(s, evs).output =~= s.output + inline_delimiter(k) + escape(t@) + inline_delimiter(
        k,
    ));
}

/// A heading of level `n` is written as `n` stars, a space, its escaped
/// text and a blank line.
pub proof fn lemma_heading(s: ConvState, n: u8, t: Vec<char>)
    requires
        writes_output(s),
    ensures
        run(
            s,
            seq![MdEvent::Start(MdTag::Heading(n)), MdEvent::Text(t), MdEvent::End(TagKind::Heading)],
        ).output == s.output + repeat('*', n as nat) + " "@ + escape(t@) + "\n\n"@,
{
    let evs = seq![
        MdEvent::Start(MdTag::Heading(n)),
        MdEvent::Text(t),
        MdEvent::End(TagKind::Heading),
    ];
    assert(evs.drop_last().drop_last().drop_last() =~= Seq::<MdEvent>::empty());
    assert(evs.drop_last().drop_last().last() == MdEvent::Start(MdTag::Heading(n)));
    assert(evs.drop_last().last() == MdEvent::Text(t));
    let s1 = step(s, MdEvent::Start(MdTag::Heading(n)));
    let s2 = step(s1, MdEvent::Text(t));
    assert(run(s, evs.drop_last().drop_last().drop_last()) == s);
    assert(run(s, evs.drop_last().drop_last()) == s1);
    assert(run(s, evs.drop_last()) == s2);
    assert(s1.output =~= s.output + repeat('*', n as nat) + " "@);
    assert(s2.output =~= s.output + repeat('*', n as nat) + " "@ + escape(t@));
    assert(run(s, evs).output =~= s.output + repeat('*', n as nat) + " "@ + escape(t@) + "\n\n"@);
}

/// Text in a code block is kept as it is, not escaped: a code block is
/// written as `@code`, its info string, its text without trailing line
/// feeds, and `@end`.
pub proof fn lemma_code_block_verbatim(s: ConvState, lang: Option<Vec<char>>, t: Vec<char>)
    requires
        writes_output(s),
    ensures
        run(
            s,
            seq![
                MdEvent::Start(MdTag::CodeBlock(lang)),
                MdEvent::Text(t),
                MdEvent::End(TagKind::CodeBlock),
            ],
        ).output == s.output + code_block_text(
            match lang {
                Some(l) => l@,
                None => Seq::empty(),
            },
            t@,
        ),
{
    let evs = seq![
        MdEvent::Start(MdTag::CodeBlock(lang)),
        MdEvent::Text(t),
        MdEvent::End(TagKind::CodeBlock),
    ];
    assert(evs.drop_last().drop_last().drop_last() =~= Seq::<MdEvent>::empty());
    assert(evs.drop_last().drop_last().last() == MdEvent::Start(MdTag::CodeBlock(lang)));
    assert(evs.drop_last().last() == MdEvent::Text(t));
    let s1 = step(s, MdEvent::Start(MdTag::CodeBlock(lang)));
    let s2 = step(s1, MdEvent::Text(t));
    assert(run(s, evs.drop_last().drop_last().drop_last()) == s);
    assert(run(s, evs.drop_last().drop_last()) == s1);
    assert(run(s, evs.drop_last()) == s2);
    assert(s2.code_block_content =~= t@);
}

/// Inside a footnote definition nothing reaches the output: every event
/// but the one that closes the definition leaves the output as it is.
pub proof fn lemma_footnote_holds_output(s: ConvState, e: MdEvent)
    requires
        s.in_footnote,
        e != MdEvent::End(TagKind::FootnoteDefinition),
    ensures
        step(s, e).output == s.output,
{
}

/// Inside a table cell, outside any footnote definition, nothing reaches
/// the output: every event but the one that closes the cell leaves the
/// output as it is.
pub proof fn lemma_table_cell_holds_output(s: ConvState, e: MdEvent)
    requires
        s.in_table_cell,
        !s.in_footnote,
        e != MdEvent::End(TagKind::TableCell),
        e != MdEvent::End(TagKind::FootnoteDefinition),
    ensures
        step(s, e).output == s.output,
{
}

/// A run of three events is their steps one after the other.
proof fn lemma_run3(s: ConvState, a: MdEvent, b: MdEvent, c: MdEvent)
    ensures
        run(s, seq![a, b, c]) == step(step(step(s, a), b), c),
{
    let evs = seq![a, b, c];
    assert(evs.drop_last().drop_last().drop_last() =~= Seq::<MdEvent>::empty());
    assert(evs.drop_last().drop_last() =~= seq![a]);
    assert(evs.drop_last() =~= seq![a, b]);
    assert(run(s, evs.drop_last().drop_last().drop_last()) == s);
    assert(run(s, evs.drop_last().drop_last()) == step(s, a));
    assert(run(s, evs.drop_last()) == step(step(s, a), b));
}

/// A run of four events is their steps one after the other.
proof fn lemma_run4(s: ConvState, a: MdEvent, b: MdEvent, c: MdEvent, d: MdEvent)
    ensures
        run(s, seq![a, b, c, d]) == step(step(step(step(s, a), b), c), d),
{
    let evs = seq![a, b, c, d];
    assert(evs.drop_last() =~= seq![a, b, c]);
    lemma_run3(s, a, b, c);
}

/// A list item's marker follows the innermost list: right after a list
/// opens, an item is written as `~` (ordered) or `-` (bulleted), once per
/// tracked list including the new one, then a space, whatever lists
/// enclose it.
pub proof fn lemma_item_marker_follows_innermost_list(s: ConvState, first: Option<u64>)
    requires
        s.list_stack.len() < 7,
        !s.in_footnote,
        !s.in_table_cell,
    ensures
        ({
            let s1 = start(s, MdTag::List(first));
            start(s1, MdTag::Bare(TagKind::Item)).output == s1.output + Seq::new(
                (s.list_stack.len() + 1) as nat,
                |_i: int|
                    if first is Some {
                        '~'
                    } else {
                        '-'
                    },
            ) + " "@
        }),
{
    let s1 = start(s, MdTag::List(first));
    assert(s1.list_stack =~= s.list_stack.push(first is Some));
    let out = start(s1, MdTag::Bare(TagKind::Item)).output;
    assert(out =~= s1.output + Seq::new(
        (s.list_stack.len() + 1) as nat,
        |_i: int|
            if first is Some {
                '~'
            } else {
                '-'
            },
    ) + " "@);
}

/// Closing a footnote definition empties its name and text, so the next
/// definition starts from nothing.
pub proof fn lemma_footnote_end_clears(s: ConvState)
    ensures
        !end(s, TagKind::FootnoteDefinition).in_footnote,
        end(s, TagKind::FootnoteDefinition).footnote_name.len() == 0,
        end(s, TagKind::FootnoteDefinition).footnote_content.len() == 0,
{
}

/// Outside a footnote definition no footnote text is held: in every state
/// the conversion reaches, the text of a definition is only what was
/// written since it opened.
pub proof fn lemma_run_no_stale_footnote(events: Seq<MdEvent>)
    ensures
        !run(initial_state(), events).in_footnote ==> run(
            initial_state(),
            events,
        ).footnote_content.len() == 0,
    decreases events.len(),
{
    if events.len() > 0 {
        lemma_run_no_stale_footnote(events.drop_last());
    }
}

/// A footnote definition with text `t`, outside any other definition, is
/// written as `^^ name`, the escaped text trimmed, and `^^`.
pub proof fn lemma_footnote_definition(s: ConvState, name: Vec<char>, t: Vec<char>)
    requires
        writes_output(s),
        s.footnote_content.len() == 0,
    ensures
        ({
            let r = run(
                s,
                seq![
                    MdEvent::Start(MdTag::FootnoteDefinition(name)),
                    MdEvent::Text(t),
                    MdEvent::End(TagKind::FootnoteDefinition),
                ],
            );
            &&& r.output == s.output + "^^ "@ + name@ + "\n"@ + trim(escape(t@)) + "\n^^\n\n"@
            &&& r.footnote_content.len() == 0
            &&& !r.in_footnote
        }),
{
    lemma_run3(
        s,
        MdEvent::Start(MdTag::FootnoteDefinition(name)),
        MdEvent::Text(t),
        MdEvent::End(TagKind::FootnoteDefinition),
    );
    let s1 = step(s, MdEvent::Start(MdTag::FootnoteDefinition(name)));
    assert(step(s1, MdEvent::Text(t)).footnote_content =~= escape(t@));
}

/// Inside a code block every text event is added to the code: its text is
/// appended to what came before, and nothing is written yet.
pub proof fn lemma_code_block_text_accumulates(s: ConvState, t: Vec<char>)
    requires
        s.in_code_block,
    ensures
        step(s, MdEvent::Text(t)).code_block_content == s.code_block_content + t@,
        step(s, MdEvent::Text(t)).output == s.output,
        step(s, MdEvent::Text(t)).in_code_block,
{
}

/// A code block of two text events is written with both texts, in order,
/// unescaped: `@code`, the info string, the texts without trailing line
/// feeds, and `@end`.
pub proof fn lemma_code_block_two_texts(s: ConvState, lang: Vec<char>, t1: Vec<char>, t2: Vec<char>)
    requires
        writes_output(s),
    ensures
        run(
            s,
            seq![
                MdEvent::Start(MdTag::CodeBlock(Some(lang))),
                MdEvent::Text(t1),
                MdEvent::Text(t2),
                MdEvent::End(TagKind::CodeBlock),
            ],
        ).output == s.output + "@code "@ + lang@ + "\n"@ + trim_end_newlines(t1@ + t2@)
            + "\n@end\n\n"@,
{
    lemma_run4(
        s,
        MdEvent::Start(MdTag::CodeBlock(Some(lang))),
        MdEvent::Text(t1),
        MdEvent::Text(t2),
        MdEvent::End(TagKind::CodeBlock),
    );
    let s1 = step(s, MdEvent::Start(MdTag::CodeBlock(Some(lang))));
    let s2 = step(s1, MdEvent::Text(t1));
    let s3 = step(s2, MdEvent::Text(t2));
    assert(s3.code_block_content =~= t1@ + t2@);
}

/// An image is written as `.image`, its target and its alternative text;
/// outside a link it ends its line, inside a link it does not.
pub proof fn lemma_image(s: ConvState, url: Vec<char>, alt: Vec<char>)
    requires
        writes_output(s),
    ensures
        ({
            let r = run(
                s,
                seq![
                    MdEvent::Start(MdTag::Image(url)),
                    MdEvent::Text(alt),
                    MdEvent::End(TagKind::Image),
                ],
            );
            r.output == s.output + ".image "@ + url@ + (if alt@.len() > 0 {
                " "@ + alt@
            } else {
                Seq::empty()
            }) + (if s.in_link {
                Seq::empty()
            } else {
                "\n"@
            })
        }),
{
    lemma_run3(
        s,
        MdEvent::Start(MdTag::Image(url)),
        MdEvent::Text(alt),
        MdEvent::End(TagKind::Image),
    );
    let s1 = step(s, MdEvent::Start(MdTag::Image(url)));
    assert(step(s1, MdEvent::Text(alt)).image_alt =~= alt@);
}

/// Outside a link, an image's line ends with a line feed: the last
/// character written for it is `\n`.
pub proof fn lemma_image_ends_line(s: ConvState, url: Vec<char>, alt: Vec<char>)
    requires
        writes_output(s),
        !s.in_link,
    ensures
        ({
            let r = run(
                s,
                seq![
                    MdEvent::Start(MdTag::Image(url)),
                    MdEvent::Text(alt),
                    MdEvent::End(TagKind::Image),
                ],
            );
            r.output.len() > s.output.len() && r.output.last() == '\n'
        }),
{
    lemma_image(s, url, alt);
    reveal_strlit("\n");
}

/// The converted text never ends in whitespace.
pub proof fn lemma_convert_no_trailing_whitespace(input: Seq<char>)
    ensures
        convert_spec(input).len() == 0 || !is_ws(convert_spec(input).last()),
{
    lemma_trim_end(run(initial_state(), markdown_events(input)).output);
}

/// No event deepens the block-quote nesting by more than one.
pub proof fn lemma_step_depth(s: ConvState, e: MdEvent)
    ensures
        step(s, e).blockquote_depth <= s.blockquote_depth + 1,
{
}

/// How many of the open elements `open` are of kind `k`.
pub open spec fn count_open(open: Seq<TagKind>, k: TagKind) -> nat
    decreases open.len(),
{
    if open.len() == 0 {
        0
    } else {
        count_open(open.drop_last(), k) + if open.last() == k {
            1nat
        } else {
            0nat
        }
    }
}

/// Every mode of the state belongs to an element that is still open: a
/// flag is set only while an element of its kind is open, and there are no
/// more block-quote levels and tracked lists than open block quotes and
/// lists.
pub open spec fn tracks_open(s: ConvState, open: Seq<TagKind>) -> bool {
    &&& s.in_code_block ==> count_open(open, TagKind::CodeBlock) > 0
    &&& s.in_list_item ==> count_open(open, TagKind::Item) > 0
    &&& s.in_footnote ==> count_open(open, TagKind::FootnoteDefinition) > 0
    &&& s.in_image ==> count_open(open, TagKind::Image) > 0
    &&& s.in_link ==> count_open(open, TagKind::Link) > 0
    &&& s.in_metadata ==> count_open(open, TagKind::MetadataBlock) > 0
    &&& s.in_table ==> count_open(open, TagKind::Table) > 0
    &&& s.in_table_cell ==> count_open(open, TagKind::TableCell) > 0
    &&& s.blockquote_depth <= count_open(open, TagKind::BlockQuote)
    &&& s.list_stack.len() <= count_open(open, TagKind::List)
}

/// No mode is left on: nothing is open.
pub open spec fn all_closed(s: ConvState) -> bool {
    &&& !s.in_code_block
    &&& !s.in_list_item
    &&& !s.in_footnote
    &&& !s.in_image
    &&& !s.in_link
    &&& !s.in_metadata
    &&& !s.in_table
    &&& !s.in_table_cell
    &&& s.blockquote_depth == 0
    &&& s.list_stack.len() == 0
}

/// Opening an element of kind `k` adds one to its count.
proof fn lemma_count_push(open: Seq<TagKind>, k: TagKind, j: TagKind)
    ensures
        count_open(open.push(k), j) == count_open(open, j) + if k == j {
            1nat
        } else {
            0nat
        },
{
    assert(open.push(k).drop_last() =~= open);
}

/// Each event keeps the modes in step with the open elements.
#[verifier::rlimit(40)]
pub proof fn lemma_step_tracks(s: ConvState, open: Seq<TagKind>, e: MdEvent)
    requires
        tracks_open(s, open),
        open_step(open, e) is Some,
    ensures
        tracks_open(step(s, e), open_step(open, e)->0),
{
    match e {
        MdEvent::Start(t) => {
            let k = tag_kind_of(t);
            lemma_count_push(open, k, TagKind::CodeBlock);
            lemma_count_push(open, k, TagKind::Item);
            lemma_count_push(open, k, TagKind::FootnoteDefinition);
            lemma_count_push(open, k, TagKind::Image);
            lemma_count_push(open, k, TagKind::Link);
            lemma_count_push(open, k, TagKind::MetadataBlock);
            lemma_count_push(open, k, TagKind::Table);
            lemma_count_push(open, k, TagKind::TableCell);
            lemma_count_push(open, k, TagKind::BlockQuote);
            lemma_count_push(open, k, TagKind::List);
        },
        _ => {},
    }
}

/// After any prefix of a stream whose ends match, the modes are in step
/// with the elements still open.
pub proof fn lemma_run_tracks(events: Seq<MdEvent>)
    requires
        open_elements(events) is Some,
    ensures
        tracks_open(run(initial_state(), events), open_elements(events)->0),
    decreases events.len(),
{
    if events.len() > 0 {
        let prev = events.drop_last();
        lemma_run_tracks(prev);
        lemma_step_tracks(run(initial_state(), prev), open_elements(prev)->0, events.last());
    }
}

/// Every mode that an element opens is closed by its end: after a well
/// nested stream no flag is set, no block quote is open and no list is
/// tracked.
pub proof fn lemma_well_nested_closes_all(events: Seq<MdEvent>)
    requires
        well_nested(events),
    ensures
        all_closed(run(initial_state(), events)),
{
    lemma_run_tracks(events);
}

/// Opening a list writes a line feed when another list is open, and
/// tracks the list when fewer than seven are tracked.
pub proof fn lemma_list_start(s: ConvState, first: Option<u64>)
    requires
        state_inv(s),
        !s.in_footnote,
        !s.in_table_cell,
    ensures
        start(s, MdTag::List(first)).output == s.output + if s.list_stack.len() == 0 {
            Seq::<char>::empty()
        } else {
            "\n"@
        },
        start(s, MdTag::List(first)).list_stack == if s.list_stack.len() < 7 {
            s.list_stack.push(first is Some)
        } else {
            s.list_stack
        },
        state_inv(start(s, MdTag::List(first))),
{
    if s.list_stack.len() == 0 {
        assert(s.output + Seq::<char>::empty() =~= s.output);
    }
}

/// Renders a Markdown event stream as Norg text.
pub fn render_events(events: &[MdEvent]) -> (r: String)
    ensures
        r@ == render_spec(events@),
{
    let mut conv = Converter::new();
    let n = events.len();
    assert(conv@.blockquote_depth + events@.len() == n);
    conv.run_events(events);
    conv.finish()
}

/// Converts the Markdown document `input` to Norg text.
pub fn convert_markdown(input: &str) -> (r: String)
    ensures
        r@ == convert_spec(input@),
{
    let events = parse_markdown(input);
    render_events(events.as_slice())
}

} // verus!
