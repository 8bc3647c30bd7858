use nomark::convert;

fn norg(md: &str) -> String {
    convert(md).unwrap()
}

#[test]
fn table_with_alignments() {
    let md = "| a | b |\n|:-|-:|\n| 1 | 2 |";
    assert_eq!(norg(md), "@table\n| a | b |\n| :--- | ---: |\n| 1 | 2 |\n@end");
}

#[test]
fn table_center_and_plain_columns() {
    let md = "| x | y |\n|:-:|---|\n| 1 | 2 |";
    assert_eq!(norg(md), "@table\n| x | y |\n| :---: | --- |\n| 1 | 2 |\n@end");
}

#[test]
fn table_cells_are_escaped_and_trimmed() {
    let md = "| {a} |\n|---|\n| [b] |";
    assert_eq!(norg(md), "@table\n| \\{a\\} |\n| --- |\n| \\[b\\] |\n@end");
}

#[test]
fn autolink() {
    assert_eq!(norg("<https://a.example>"), "{https://a.example}[https://a.example]");
}

#[test]
fn mailto_link_is_external() {
    assert_eq!(norg("[m](mailto:me@x.org)"), "{mailto:me@x.org}[m]");
}

#[test]
fn empty_link_target() {
    assert_eq!(norg("[e]()"), "{}[e]");
}

#[test]
fn image_inside_link_has_no_line_break() {
    assert_eq!(norg("[![alt](i.png)](https://x.example)"), "{https://x.example}[.image i.png alt]");
}

#[test]
fn indented_code_block() {
    assert_eq!(norg("    code"), "@code \ncode\n@end");
}

#[test]
fn code_block_trailing_newlines_removed() {
    assert_eq!(norg("```\na\n\n\n```"), "@code \na\n@end");
}

#[test]
fn hard_break() {
    assert_eq!(norg("a  \nb"), "a\nb");
}

#[test]
fn nested_blockquote() {
    assert_eq!(norg("> > deep"), ">> deep");
}

#[test]
fn blockquote_closes_before_next_paragraph() {
    assert_eq!(norg("> q\n\nafter"), "> q\n\nafter");
}

#[test]
fn list_nesting_capped_at_seven() {
    let mut md = String::new();
    for (i, c) in "abcdefgh".chars().enumerate() {
        md.push_str(&"  ".repeat(i));
        md.push_str("- ");
        md.push(c);
        md.push('\n');
    }
    assert_eq!(
        norg(&md),
        "- a\n-- b\n--- c\n---- d\n----- e\n------ f\n------- g\n------- h"
    );
}

#[test]
fn inline_html_tags_removed() {
    assert_eq!(norg("a <b>bold</b> c"), "a bold c");
}

#[test]
fn html_block_embedded() {
    assert_eq!(norg("<div>\n</div>"), "@embed html\n<div>\n@end\n\n@embed html\n</div>\n@end");
}

#[test]
fn footnote_content_is_trimmed_and_escaped() {
    assert_eq!(norg("[^n]:   a {b}"), "^^ n\na \\{b\\}\n^^");
}

#[test]
fn front_matter_not_a_mapping_is_kept() {
    let md = "---\n- a\n- b\n---\n\nx";
    assert_eq!(norg(md), "@document.meta\n- a\n- b\n@end\n\nx");
}

#[test]
fn front_matter_scalars() {
    let md = "---\nn: 3\nok: true\nz: ~\ns: hi\n---\n\nx";
    assert_eq!(norg(md), "@document.meta\nn: 3\nok: true\nz: nil\ns: hi\n@end\n\nx");
}

#[test]
fn front_matter_false_and_non_string_key() {
    let md = "---\nno: false\n1: one\n---\n\nx";
    assert_eq!(norg(md), "@document.meta\nno: false\n: one\n@end\n\nx");
}

#[test]
fn front_matter_nested_values_indented() {
    let md = "---\nlist:\n  - one\n  - two\nmap:\n  k: v\n---\n\nx";
    assert_eq!(
        norg(md),
        "@document.meta\nlist:\n  - one\n  - two\nmap:\n  k: v\n@end\n\nx"
    );
}

#[test]
fn front_matter_invalid_yaml_is_kept() {
    let md = "---\na: b: c\n---\n\nx";
    assert_eq!(norg(md), "@document.meta\na: b: c\n@end\n\nx");
}

#[test]
fn output_never_ends_in_whitespace() {
    for md in ["# a\n\n", "- a\n- b\n\n", "```\nx\n```\n", "> q\n", "a  \n", "---\n"] {
        let out = norg(md);
        assert!(!out.ends_with(char::is_whitespace), "{md:?} gave {out:?}");
    }
}

#[test]
fn soft_break_is_a_space() {
    assert_eq!(norg("a\nb"), "a b");
}

#[test]
fn strong_and_strike_wrap_escaped_text() {
    assert_eq!(norg("**{x}** ~~[y]~~"), "*\\{x\\}* -\\[y\\]-");
}

#[test]
fn convert_markdown_agrees_with_convert() {
    let md = "# T\n\n*a* and `b`";
    assert_eq!(nomark::convert::convert_markdown(md), norg(md));
}

#[test]
fn converter_keeps_its_output_across_documents() {
    let mut conv = nomark::convert::Converter::new();
    assert_eq!(conv.try_convert("# A").unwrap(), "* A");
    assert_eq!(conv.try_convert("b").unwrap(), "* A\n\nb");
}

#[test]
fn converter_closes_lists_between_documents() {
    let mut conv = nomark::convert::Converter::new();
    assert_eq!(conv.try_convert("- a").unwrap(), "- a");
    assert_eq!(conv.try_convert("- b").unwrap(), "- a\n\n- b");
}
