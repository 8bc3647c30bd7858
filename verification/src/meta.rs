//! Document metadata: the YAML front matter of a Markdown document, turned
//! into the body of a Norg `@document.meta` block.
//!
//! `serde_yaml` reads the YAML; the entries of a top-level mapping are
//! carried over into `MetaEntry` values, and their Norg text is written by
//! verified code.
use crate::text::{
    push_all, push_range, push_trimmed, str_chars, string_from_chars, trim, trim_end, trim_end_len,
};
use serde_yaml::Value;
use vstd::prelude::*;

verus! {

/// The value of one front-matter entry.
#[derive(Debug)]
pub enum MetaValue {
    /// `null` or `~`.
    Null,
    Bool(bool),
    /// A number, in the decimal form that `serde_yaml` displays it in.
    Number(Vec<char>),
    Str(Vec<char>),
    /// A tagged value (`!tag value`), as `serde_yaml` writes it out.
    Tagged(Vec<char>),
    /// A sequence or a mapping, as `serde_yaml` writes it out in block style.
    Nested(Vec<char>),
}

/// One entry of a front-matter mapping. The key is `None` when it is not a
/// string.
#[derive(Debug)]
pub struct MetaEntry {
    pub key: Option<Vec<char>>,
    pub value: MetaValue,
}

#[verifier::external_type_specification]
#[verifier::external_body]
pub struct ExValue(Value);

/// The entries of the top-level mapping of the YAML document `text`, in
/// document order, as `yaml_entries` carries them over; `None` when `text`
/// is not valid YAML or its top level is not a mapping.
pub uninterp spec fn yaml_front_matter(text: Seq<char>) -> Option<Seq<MetaEntry>>;

/// Reads `text` with `serde_yaml::from_str` and carries the entries of a
/// top-level mapping over. Trusted: the claim is only that the result is a
/// function of `text` alone, named `yaml_front_matter`.
#[verifier::external_body]
pub(crate) fn yaml_entries(text: &str) -> (r: Option<Vec<MetaEntry>>)
    ensures
        match r {
            Some(v) => yaml_front_matter(text@) == Some(v@),
            None => yaml_front_matter(text@) is None,
        },
{
    match serde_yaml::from_str::<Value>(text) {
        Ok(Value::Mapping(map)) => Some(
            map.iter().map(|(k, v)| MetaEntry { key: key_chars(k), value: meta_value(v) }).collect(),
        ),
        _ => None,
    }
}

/// The characters of a string key (`Value::as_str`).
#[verifier::external_body]
fn key_chars(k: &Value) -> Option<Vec<char>> {
    k.as_str().map(|s| s.chars().collect())
}

/// Carries a `serde_yaml::Value` over; tagged values, sequences and
/// mappings are written out with `serde_yaml::to_string` (empty if that
/// fails).
#[verifier::external_body]
fn meta_value(v: &Value) -> MetaValue {
    match v {
        Value::Null => MetaValue::Null,
        Value::Bool(b) => MetaValue::Bool(*b),
        Value::Number(n) => MetaValue::Number(n.to_string().chars().collect()),
        Value::String(s) => MetaValue::Str(s.chars().collect()),
        Value::Tagged(_) => MetaValue::Tagged(yaml_text(v)),
        Value::Sequence(_) | Value::Mapping(_) => MetaValue::Nested(yaml_text(v)),
    }
}

/// `v` written out as YAML by `serde_yaml::to_string`, empty if that fails.
#[verifier::external_body]
fn yaml_text(v: &Value) -> Vec<char> {
    serde_yaml::to_string(v).unwrap_or_default().chars().collect()
}

// ---------------------------------------------------------------------------
// Norg text of the entries
// ---------------------------------------------------------------------------

/// `t` with every line indented by two spaces.
pub open spec fn indent(t: Seq<char>) -> Seq<char> {
    "  "@ + indent_rest(t)
}

/// `t` with two spaces after every line feed.
pub open spec fn indent_rest(t: Seq<char>) -> Seq<char>
    decreases t.len(),
{
    if t.len() == 0 {
        Seq::empty()
    } else {
        indent_rest(t.drop_last()) + if t.last() == '\n' {
            "\n  "@
        } else {
            seq![t.last()]
        }
    }
}

/// What follows the key of an entry: `: ` and the value for a scalar
/// (`nil` for null), the trimmed YAML of a tagged value, and for a
/// sequence or mapping its YAML on the following lines, indented.
pub open spec fn value_text(v: MetaValue) -> Seq<char> {
    match v {
        MetaValue::Null => ": nil"@,
        MetaValue::Bool(b) => if b {
            ": true"@
        } else {
            ": false"@
        },
        MetaValue::Number(n) => ": "@ + n@,
        MetaValue::Str(s) => ": "@ + s@,
        MetaValue::Tagged(y) => ": "@ + trim(y@),
        MetaValue::Nested(y) => ":\n"@ + indent(trim_end(y@)),
    }
}

/// The line(s) of one entry: its key (empty when it is not a string), the
/// value text and a line feed.
pub open spec fn entry_text(e: MetaEntry) -> Seq<char> {
    let key = match e.key {
        Some(k) => k@,
        None => Seq::empty(),
    };
    key + value_text(e.value) + "\n"@
}

/// The lines of all entries, in order.
pub open spec fn entries_text(es: Seq<MetaEntry>) -> Seq<char>
    decreases es.len(),
{
    if es.len() == 0 {
        Seq::empty()
    } else {
        entries_text(es.drop_last()) + entry_text(es.last())
    }
}

/// The body of the `@document.meta` block for the front matter `yaml`:
/// the entries of its top-level mapping, or `yaml` itself followed by a
/// line feed when it is not a YAML mapping.
pub open spec fn meta_text(yaml: Seq<char>, entries: Option<Seq<MetaEntry>>) -> Seq<char> {
    match entries {
        Some(es) => entries_text(es),
        None => yaml + "\n"@,
    }
}

/// Appends the characters of `s` to `out`.
pub fn push_str(out: &mut Vec<char>, s: &str)
    ensures
        final(out)@ == old(out)@ + s@,
{
    let cs = str_chars(s);
    push_all(out, cs.as_slice());
}

/// Appends `indent(t)` to `out`.
fn push_indented(out: &mut Vec<char>, t: &[char])
    ensures
        final(out)@ == old(out)@ + indent(t@),
{
    push_str(out, "  ");
    let ghost start = out@;
    let mut i: usize = 0;
    assert(t@.subrange(0, 0) =~= Seq::<char>::empty());
    while i < t.len()
        invariant
            i <= t@.len(),
            out@ == start + indent_rest(t@.subrange(0, i as int)),
        decreases t@.len() - i,
    {
        if t[i] == '\n' {
            push_str(out, "\n  ");
        } else {
            out.push(t[i]);
        }
        assert(t@.subrange(0, i + 1).drop_last() =~= t@.subrange(0, i as int));
        i += 1;
        assert(out@ =~= start + indent_rest(t@.subrange(0, i as int)));
    }
    assert(t@.subrange(0, i as int) =~= t@);
}

/// Appends `value_text(v)` to `out`.
fn push_value(out: &mut Vec<char>, v: &MetaValue)
    ensures
        final(out)@ == old(out)@ + value_text(*v),
{
    let ghost start = out@;
    match v {
        MetaValue::Null => push_str(out, ": nil"),
        MetaValue::Bool(b) => {
            if *b {
                push_str(out, ": true");
            } else {
                push_str(out, ": false");
            }
        },
        MetaValue::Number(n) => {
            push_str(out, ": ");
            push_all(out, n.as_slice());
        },
        MetaValue::Str(s) => {
            push_str(out, ": ");
            push_all(out, s.as_slice());
        },
        MetaValue::Tagged(y) => {
            push_str(out, ": ");
            push_trimmed(out, y.as_slice());
        },
        MetaValue::Nested(y) => {
            push_str(out, ":\n");
            let n = trim_end_len(y.as_slice());
            let mut body: Vec<char> = Vec::new();
            push_range(&mut body, y.as_slice(), 0, n);
            assert(body@ =~= trim_end(y@));
            push_indented(out, body.as_slice());
        },
    }
    assert(out@ =~= start + value_text(*v));
}

/// Writes the body of the `@document.meta` block for the front matter
/// `yaml`, given what `yaml_front_matter` gives for it.
pub fn render_meta(yaml: &[char], entries: &Option<Vec<MetaEntry>>) -> (r: Vec<char>)
    ensures
        r@ == meta_text(
            yaml@,
            match entries {
                Some(v) => Some(v@),
                None => None,
            },
        ),
{
    let mut out: Vec<char> = Vec::new();
    match entries {
        Some(es) => {
            let mut i: usize = 0;
            assert(es@.subrange(0, 0) =~= Seq::<MetaEntry>::empty());
            while i < es.len()
                invariant
                    i <= es@.len(),
                    out@ == entries_text(es@.subrange(0, i as int)),
                decreases es@.len() - i,
            {
                let ghost before = out@;
                let e = &es[i];
                match &e.key {
                    Some(k) => push_all(&mut out, k.as_slice()),
                    None => {},
                }
                push_value(&mut out, &e.value);
                push_str(&mut out, "\n");
                assert(es@.subrange(0, i + 1).drop_last() =~= es@.subrange(0, i as int));
                i += 1;
                assert(out@ =~= entries_text(es@.subrange(0, i as int)));
            }
            assert(es@.subrange(0, i as int) =~= es@);
        },
        None => {
            push_all(&mut out, yaml);
            push_str(&mut out, "\n");
        },
    }
    out
}

/// The body of the `@document.meta` block for the front matter `yaml`.
pub fn yaml_to_norg(yaml: &[char]) -> (r: Vec<char>)
    ensures
        r@ == meta_text(yaml@, yaml_front_matter(yaml@)),
{
    let text = string_from_chars(yaml);
    let entries = yaml_entries(text.as_str());
    render_meta(yaml, &entries)
}

} // verus!
