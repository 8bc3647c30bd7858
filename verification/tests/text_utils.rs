use nomark::text::{escape_text, is_internal_path, str_chars, string_from_chars, strip_html};

#[test]
fn escape_all_specials() {
    assert_eq!(escape_text("\\{}[]"), "\\\\\\{\\}\\[\\]");
}

#[test]
fn escape_plain_text_unchanged() {
    assert_eq!(escape_text("plain text, 100% (ok)!"), "plain text, 100% (ok)!");
}

#[test]
fn escape_is_per_character() {
    let (a, b) = ("x{", "]y");
    assert_eq!(escape_text(&format!("{a}{b}")), format!("{}{}", escape_text(a), escape_text(b)));
}

#[test]
fn strip_html_removes_tags_and_stray_brackets() {
    assert_eq!(strip_html("a<b>c</b>d>e"), "acde");
}

#[test]
fn strip_html_unclosed_tag_drops_rest() {
    assert_eq!(strip_html("keep<lost"), "keep");
}

#[test]
fn strip_html_idempotent() {
    let once = strip_html("x <i>y</i> > z <");
    assert_eq!(strip_html(&once), once);
    assert!(!once.contains('<') && !once.contains('>'));
}

#[test]
fn internal_paths() {
    assert!(is_internal_path("/path/to/page"));
    assert!(is_internal_path("../other"));
    assert!(is_internal_path("notes.norg"));
}

#[test]
fn external_links() {
    assert!(!is_internal_path("https://example.com"));
    assert!(!is_internal_path("ftp://host/file"));
    assert!(!is_internal_path("mailto:me@x.org"));
    assert!(!is_internal_path("tel:123"));
    assert!(!is_internal_path("data:text/plain,hi"));
    assert!(!is_internal_path("javascript:void(0)"));
}

#[test]
fn scheme_separator_anywhere_is_external() {
    assert!(!is_internal_path("see://there"));
    assert!(is_internal_path("xmailto:me"));
}

#[test]
fn chars_round_trip() {
    let s = "héllo → wörld";
    assert_eq!(string_from_chars(&str_chars(s)), s);
}

