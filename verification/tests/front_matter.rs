use nomark::meta::{render_meta, yaml_to_norg, MetaEntry, MetaValue};

fn chars(s: &str) -> Vec<char> {
    s.chars().collect()
}

fn text(v: Vec<char>) -> String {
    v.into_iter().collect()
}

#[test]
fn render_entries_of_every_kind() {
    let entries = vec![
        MetaEntry { key: Some(chars("a")), value: MetaValue::Nested(chars("- x\n- y\n")) },
        MetaEntry { key: Some(chars("t")), value: MetaValue::Tagged(chars("!t v\n")) },
        MetaEntry { key: Some(chars("n")), value: MetaValue::Null },
        MetaEntry { key: Some(chars("b")), value: MetaValue::Bool(true) },
        MetaEntry { key: None, value: MetaValue::Number(chars("1.5")) },
        MetaEntry { key: Some(chars("s")), value: MetaValue::Str(chars("hi")) },
    ];
    let out = render_meta(&chars("ignored"), &Some(entries));
    assert_eq!(text(out), "a:\n  - x\n  - y\nt: !t v\nn: nil\nb: true\n: 1.5\ns: hi\n");
}

#[test]
fn render_without_mapping_keeps_text() {
    assert_eq!(text(render_meta(&chars("just text"), &None)), "just text\n");
}

#[test]
fn yaml_to_norg_reads_a_mapping() {
    assert_eq!(text(yaml_to_norg(&chars("k: v\nm: 2"))), "k: v\nm: 2\n");
}

#[test]
fn yaml_to_norg_keeps_a_scalar_document() {
    assert_eq!(text(yaml_to_norg(&chars("hello"))), "hello\n");
}
