//! Character-level text utilities: whitespace trimming, escaping of Norg
//! markup characters, removal of inline HTML tags and link classification.
//!
//! All text is handled as sequences of `char`s; `str_chars` and
//! `string_from_chars` convert at the edges.
use vstd::prelude::*;

verus! {

// ---------------------------------------------------------------------------
// Conversions between strings and character vectors
// ---------------------------------------------------------------------------

/// Appends one character to a `String` (`String::push`).
#[verifier::external_body]
fn string_push(s: &mut String, c: char)
    ensures
        final(s)@ == old(s)@.push(c),
{
    s.push(c);
}

/// The characters of `s`, in order.
pub fn str_chars(s: &str) -> (v: Vec<char>)
    ensures
        v@ == s@,
{
    broadcast use vstd::string::group_string_axioms;

    let mut v: Vec<char> = Vec::new();
    for c in it: s.chars()
        invariant
            it.seq() == s@,
            v@ == s@.take(it.index() as int),
    {
        v.push(c);
        assert(s@.take(it.index() + 1) =~= v@);
    }
    v
}

/// The string made of the characters of `v`, in order.
pub fn string_from_chars(v: &[char]) -> (s: String)
    ensures
        s@ == v@,
{
    let mut s = String::new();
    let mut i: usize = 0;
    while i < v.len()
        invariant
            i <= v@.len(),
            s@ == v@.subrange(0, i as int),
        decreases v@.len() - i,
    {
        string_push(&mut s, v[i]);
        i += 1;
        assert(s@ =~= v@.subrange(0, i as int));
    }
    assert(v@.subrange(0, i as int) =~= v@);
    s
}

/// Appends all of `s` to `out`.
pub fn push_all(out: &mut Vec<char>, s: &[char])
    ensures
        final(out)@ == old(out)@ + s@,
{
    push_range(out, s, 0, s.len());
    assert(s@.subrange(0, s@.len() as int) =~= s@);
}

/// Appends `s[from..to]` to `out`.
pub fn push_range(out: &mut Vec<char>, s: &[char], from: usize, to: usize)
    requires
        from <= to <= s@.len(),
    ensures
        final(out)@ == old(out)@ + s@.subrange(from as int, to as int),
{
    let ghost start = out@;
    let mut i = from;
    while i < to
        invariant
            from <= i <= to <= s@.len(),
            out@ == start + s@.subrange(from as int, i as int),
        decreases to - i,
    {
        out.push(s[i]);
        i += 1;
        assert(out@ =~= start + s@.subrange(from as int, i as int));
    }
}

// ---------------------------------------------------------------------------
// Whitespace and trimming
// ---------------------------------------------------------------------------

/// The characters with the Unicode `White_Space` property: the whitespace
/// that `char::is_whitespace`, `str::trim` and `str::trim_end` remove.
pub open spec fn is_ws(c: char) -> bool {
    let n = c as u32;
    ||| 0x09 <= n <= 0x0D
    ||| n == 0x20
    ||| n == 0x85
    ||| n == 0xA0
    ||| n == 0x1680
    ||| 0x2000 <= n <= 0x200A
    ||| n == 0x2028
    ||| n == 0x2029
    ||| n == 0x202F
    ||| n == 0x205F
    ||| n == 0x3000
}

/// Whether `c` is whitespace in the sense of `is_ws`.
pub fn is_whitespace(c: char) -> (r: bool)
    ensures
        r == is_ws(c),
{
    let n = c as u32;
    (0x09 <= n && n <= 0x0D) || n == 0x20 || n == 0x85 || n == 0xA0 || n == 0x1680 || (0x2000
        <= n && n <= 0x200A) || n == 0x2028 || n == 0x2029 || n == 0x202F || n == 0x205F || n
        == 0x3000
}

/// `s` without its trailing whitespace.
pub open spec fn trim_end(s: Seq<char>) -> Seq<char>
    decreases s.len(),
{
    if s.len() > 0 && is_ws(s.last()) {
        trim_end(s.drop_last())
    } else {
        s
    }
}

/// `s` without its leading whitespace.
pub open spec fn trim_start(s: Seq<char>) -> Seq<char>
    decreases s.len(),
{
    if s.len() > 0 && is_ws(s.first()) {
        trim_start(s.drop_first())
    } else {
        s
    }
}

/// `s` without leading and trailing whitespace.
pub open spec fn trim(s: Seq<char>) -> Seq<char> {
    trim_start(trim_end(s))
}

/// `s` without its trailing line feeds (`trim_end_matches('\n')`).
pub open spec fn trim_end_newlines(s: Seq<char>) -> Seq<char>
    decreases s.len(),
{
    if s.len() > 0 && s.last() == '\n' {
        trim_end_newlines(s.drop_last())
    } else {
        s
    }
}

/// Trimming the end leaves a prefix of the text that does not end in
/// whitespace.
pub proof fn lemma_trim_end(s: Seq<char>)
    ensures
        trim_end(s).len() <= s.len(),
        trim_end(s) == s.subrange(0, trim_end(s).len() as int),
        trim_end(s).len() == 0 || !is_ws(trim_end(s).last()),
        forall|i: int| trim_end(s).len() <= i < s.len() ==> is_ws(#[trigger] s[i]),
    decreases s.len(),
{
    if s.len() > 0 && is_ws(s.last()) {
        lemma_trim_end(s.drop_last());
        assert(s.drop_last().subrange(0, trim_end(s).len() as int) =~= s.subrange(
            0,
            trim_end(s).len() as int,
        ));
        assert forall|i: int| trim_end(s).len() <= i < s.len() implies is_ws(#[trigger] s[i]) by {
            if i < s.len() - 1 {
                assert(s[i] == s.drop_last()[i]);
            }
        }
    } else {
        assert(s.subrange(0, s.len() as int) =~= s);
    }
}

/// Trimming the end twice trims no more than trimming it once.
pub proof fn lemma_trim_end_idempotent(s: Seq<char>)
    ensures
        trim_end(trim_end(s)) == trim_end(s),
{
    lemma_trim_end(s);
}

/// The length of `s` once its trailing whitespace is removed.
pub fn trim_end_len(s: &[char]) -> (n: usize)
    ensures
        n <= s@.len(),
        s@.subrange(0, n as int) == trim_end(s@),
{
    let mut j = s.len();
    assert(s@.subrange(0, j as int) =~= s@);
    while j > 0 && is_whitespace(s[j - 1])
        invariant
            j <= s@.len(),
            trim_end(s@) == trim_end(s@.subrange(0, j as int)),
        decreases j,
    {
        assert(s@.subrange(0, j as int).drop_last() =~= s@.subrange(0, j - 1));
        j -= 1;
    }
    j
}

/// The length of `s` once its trailing line feeds are removed.
pub fn trim_end_newlines_len(s: &[char]) -> (n: usize)
    ensures
        n <= s@.len(),
        s@.subrange(0, n as int) == trim_end_newlines(s@),
{
    let mut j = s.len();
    assert(s@.subrange(0, j as int) =~= s@);
    while j > 0 && s[j - 1] == '\n'
        invariant
            j <= s@.len(),
            trim_end_newlines(s@) == trim_end_newlines(s@.subrange(0, j as int)),
        decreases j,
    {
        assert(s@.subrange(0, j as int).drop_last() =~= s@.subrange(0, j - 1));
        j -= 1;
    }
    j
}

/// The bounds of `s` once leading and trailing whitespace are removed.
pub fn trim_bounds(s: &[char]) -> (r: (usize, usize))
    ensures
        r.0 <= r.1 <= s@.len(),
        s@.subrange(r.0 as int, r.1 as int) == trim(s@),
{
    let end = trim_end_len(s);
    let mut i: usize = 0;
    while i < end && is_whitespace(s[i])
        invariant
            i <= end <= s@.len(),
            trim(s@) == trim_start(s@.subrange(i as int, end as int)),
        decreases end - i,
    {
        assert(s@.subrange(i as int, end as int).drop_first() =~= s@.subrange(
            i + 1,
            end as int,
        ));
        i += 1;
    }
    (i, end)
}

/// Appends `s` without leading and trailing whitespace to `out`.
pub fn push_trimmed(out: &mut Vec<char>, s: &[char])
    ensures
        final(out)@ == old(out)@ + trim(s@),
{
    let (a, b) = trim_bounds(s);
    push_range(out, s, a, b);
}

/// A copy of `s` without leading and trailing whitespace.
pub fn trimmed(s: &[char]) -> (r: Vec<char>)
    ensures
        r@ == trim(s@),
{
    let mut r = Vec::new();
    push_trimmed(&mut r, s);
    assert(r@ =~= trim(s@));
    r
}

// ---------------------------------------------------------------------------
// Escaping
// ---------------------------------------------------------------------------

/// The characters that Norg gives a meaning in running text.
pub open spec fn is_special(c: char) -> bool {
    c == '\\' || c == '{' || c == '}' || c == '[' || c == ']'
}

/// One character of text as Norg source: specials get a backslash.
pub open spec fn escape_char(c: char) -> Seq<char> {
    if is_special(c) {
        seq!['\\', c]
    } else {
        seq![c]
    }
}

/// Text as Norg source: every special character preceded by a backslash.
pub open spec fn escape(s: Seq<char>) -> Seq<char>
    decreases s.len(),
{
    if s.len() == 0 {
        Seq::empty()
    } else {
        escape(s.drop_last()) + escape_char(s.last())
    }
}

/// Reads escaped text back: a special character at the end that follows
/// a backslash came with that backslash.
pub open spec fn unescape(t: Seq<char>) -> Seq<char>
    decreases t.len(),
{
    if t.len() == 0 {
        Seq::empty()
    } else if is_special(t.last()) && t.len() >= 2 && t[t.len() - 2] == '\\' {
        unescape(t.drop_last().drop_last()).push(t.last())
    } else {
        unescape(t.drop_last()).push(t.last())
    }
}

/// Escaping loses nothing: the text is read back from its escaped form.
pub proof fn lemma_escape_round_trip(s: Seq<char>)
    ensures
        unescape(escape(s)) == s,
    decreases s.len(),
{
    if s.len() > 0 {
        let p = s.drop_last();
        let c = s.last();
        lemma_escape_round_trip(p);
        let e = escape(s);
        assert(e == escape(p) + escape_char(c));
        if is_special(c) {
            assert(e.drop_last().drop_last() =~= escape(p));
        } else {
            assert(e.drop_last() =~= escape(p));
        }
        assert(unescape(e) =~= s);
    }
}

/// Two texts with the same escaped form are the same text.
pub proof fn lemma_escape_injective(a: Seq<char>, b: Seq<char>)
    requires
        escape(a) == escape(b),
    ensures
        a == b,
{
    lemma_escape_round_trip(a);
    lemma_escape_round_trip(b);
}

/// Escaping works character by character: the escaped form of a
/// concatenation is the concatenation of the escaped forms.
pub proof fn lemma_escape_concat(a: Seq<char>, b: Seq<char>)
    ensures
        escape(a + b) == escape(a) + escape(b),
    decreases b.len(),
{
    if b.len() == 0 {
        assert(a + b =~= a);
        assert(escape(a) + escape(b) =~= escape(a));
    } else {
        lemma_escape_concat(a, b.drop_last());
        assert((a + b).drop_last() =~= a + b.drop_last());
        assert(escape(a + b) =~= escape(a) + escape(b));
    }
}

/// Text without special characters is its own escaped form.
pub proof fn lemma_escape_plain(s: Seq<char>)
    requires
        forall|i: int| 0 <= i < s.len() ==> !is_special(#[trigger] s[i]),
    ensures
        escape(s) == s,
    decreases s.len(),
{
    if s.len() > 0 {
        lemma_escape_plain(s.drop_last());
        assert(escape(s) =~= s);
    }
}

/// Appends `escape(s)` to `out`.
pub fn push_escaped(out: &mut Vec<char>, s: &[char])
    ensures
        final(out)@ == old(out)@ + escape(s@),
{
    let ghost start = out@;
    let mut i: usize = 0;
    assert(s@.subrange(0, 0) =~= Seq::<char>::empty());
    while i < s.len()
        invariant
            i <= s@.len(),
            out@ == start + escape(s@.subrange(0, i as int)),
        decreases s@.len() - i,
    {
        let c = s[i];
        if c == '\\' || c == '{' || c == '}' || c == '[' || c == ']' {
            out.push('\\');
        }
        out.push(c);
        assert(s@.subrange(0, i + 1).drop_last() =~= s@.subrange(0, i as int));
        i += 1;
        assert(out@ =~= start + escape(s@.subrange(0, i as int)));
    }
    assert(s@.subrange(0, i as int) =~= s@);
}

/// Escapes the characters that Norg gives a meaning in running text
/// (`\`, `{`, `}`, `[`, `]`) with a backslash.
pub fn escape_text(s: &str) -> (r: String)
    ensures
        r@ == escape(s@),
{
    let cs = str_chars(s);
    let mut out = Vec::new();
    push_escaped(&mut out, cs.as_slice());
    assert(out@ =~= escape(s@));
    string_from_chars(out.as_slice())
}

// ---------------------------------------------------------------------------
// Inline HTML
// ---------------------------------------------------------------------------

/// Text left after inline HTML tags are removed, with whether the end of
/// `s` lies inside a tag. A tag runs from `<` to the next `>`; a `>`
/// outside a tag is dropped too.
pub open spec fn strip_html_run(s: Seq<char>) -> (Seq<char>, bool)
    decreases s.len(),
{
    if s.len() == 0 {
        (Seq::empty(), false)
    } else {
        let (out, in_tag) = strip_html_run(s.drop_last());
        let c = s.last();
        if c == '<' {
            (out, true)
        } else if c == '>' {
            (out, false)
        } else if in_tag {
            (out, true)
        } else {
            (out.push(c), false)
        }
    }
}

/// `s` with its HTML tags removed.
pub open spec fn strip_html_spec(s: Seq<char>) -> Seq<char> {
    strip_html_run(s).0
}

/// What is left once the tags are removed holds no `<` and no `>`.
pub proof fn lemma_strip_html_no_brackets(s: Seq<char>)
    ensures
        forall|i: int|
            0 <= i < strip_html_spec(s).len() ==> #[trigger] strip_html_spec(s)[i] != '<'
                && strip_html_spec(s)[i] != '>',
    decreases s.len(),
{
    if s.len() > 0 {
        lemma_strip_html_no_brackets(s.drop_last());
        let prev = strip_html_spec(s.drop_last());
        let out = strip_html_spec(s);
        assert forall|i: int| 0 <= i < out.len() implies #[trigger] out[i] != '<' && out[i]
            != '>' by {
            if i < prev.len() {
                assert(out[i] == prev[i]);
            }
        }
    }
}

/// Text without `<` and `>` has no tags: removing them leaves it as it is.
pub proof fn lemma_strip_html_plain(s: Seq<char>)
    requires
        forall|i: int| 0 <= i < s.len() ==> #[trigger] s[i] != '<' && s[i] != '>',
    ensures
        strip_html_run(s) == (s, false),
    decreases s.len(),
{
    if s.len() > 0 {
        lemma_strip_html_plain(s.drop_last());
        assert(s.drop_last().push(s.last()) =~= s);
    }
}

/// Removing the tags twice removes no more than removing them once.
pub proof fn lemma_strip_html_idempotent(s: Seq<char>)
    ensures
        strip_html_spec(strip_html_spec(s)) == strip_html_spec(s),
{
    lemma_strip_html_no_brackets(s);
    lemma_strip_html_plain(strip_html_spec(s));
}

/// Appends `strip_html_spec(s)` to `out`.
pub fn push_stripped(out: &mut Vec<char>, s: &[char])
    ensures
        final(out)@ == old(out)@ + strip_html_spec(s@),
{
    let ghost start = out@;
    let mut in_tag = false;
    let mut i: usize = 0;
    assert(s@.subrange(0, 0) =~= Seq::<char>::empty());
    while i < s.len()
        invariant
            i <= s@.len(),
            out@ == start + strip_html_run(s@.subrange(0, i as int)).0,
            in_tag == strip_html_run(s@.subrange(0, i as int)).1,
        decreases s@.len() - i,
    {
        let c = s[i];
        if c == '<' {
            in_tag = true;
        } else if c == '>' {
            in_tag = false;
        } else if !in_tag {
            out.push(c);
        }
        assert(s@.subrange(0, i + 1).drop_last() =~= s@.subrange(0, i as int));
        i += 1;
        assert(out@ =~= start + strip_html_run(s@.subrange(0, i as int)).0);
    }
    assert(s@.subrange(0, i as int) =~= s@);
}

/// Removes HTML tags (from `<` to the next `>`) from inline text.
pub fn strip_html(s: &str) -> (r: String)
    ensures
        r@ == strip_html_spec(s@),
{
    let cs = str_chars(s);
    let mut out = Vec::new();
    push_stripped(&mut out, cs.as_slice());
    assert(out@ =~= strip_html_spec(s@));
    string_from_chars(out.as_slice())
}

// ---------------------------------------------------------------------------
// Link targets
// ---------------------------------------------------------------------------

/// `p` occurs in `s` at position `i`.
pub open spec fn occurs_at(s: Seq<char>, i: int, p: Seq<char>) -> bool {
    0 <= i && i + p.len() <= s.len() && s.subrange(i, i + p.len()) == p
}

/// `p` occurs somewhere in `s`.
pub open spec fn contains_seq(s: Seq<char>, p: Seq<char>) -> bool {
    exists|i: int| #[trigger] occurs_at(s, i, p)
}

/// `s` begins with `p`.
pub open spec fn starts_with_seq(s: Seq<char>, p: Seq<char>) -> bool {
    occurs_at(s, 0, p)
}

/// Whether `p` occurs in `s` at position `i`.
fn matches_at(s: &[char], i: usize, p: &[char]) -> (r: bool)
    ensures
        r == occurs_at(s@, i as int, p@),
{
    if p.len() > s.len() || i > s.len() - p.len() {
        return false;
    }
    let mut k: usize = 0;
    while k < p.len()
        invariant
            k <= p@.len(),
            i + p.len() <= s.len(),
            forall|j: int| 0 <= j < k ==> s@[i + j] == p@[j],
        decreases p@.len() - k,
    {
        if s[i + k] != p[k] {
            assert(s@.subrange(i as int, i + p@.len())[k as int] != p@[k as int]);
            return false;
        }
        k += 1;
    }
    assert(s@.subrange(i as int, i + p@.len()) =~= p@);
    true
}

/// Whether `p` occurs somewhere in `s`.
fn contains_chars(s: &[char], p: &[char]) -> (r: bool)
    ensures
        r == contains_seq(s@, p@),
{
    if p.len() > s.len() {
        return false;
    }
    let last = s.len() - p.len();
    let mut i: usize = 0;
    while i < last
        invariant
            p@.len() <= s@.len(),
            last == s@.len() - p@.len(),
            i <= last,
            forall|j: int| 0 <= j < i ==> !occurs_at(s@, j, p@),
        decreases last - i,
    {
        if matches_at(s, i, p) {
            return true;
        }
        i += 1;
    }
    if matches_at(s, last, p) {
        return true;
    }
    assert forall|j: int| !occurs_at(s@, j, p@) by {
        if 0 <= j && j < i {
        }
    }
    false
}

pub open spec fn scheme_sep() -> Seq<char> {
    seq![':', '/', '/']
}

pub open spec fn mailto_prefix() -> Seq<char> {
    seq!['m', 'a', 'i', 'l', 't', 'o', ':']
}

pub open spec fn tel_prefix() -> Seq<char> {
    seq!['t', 'e', 'l', ':']
}

pub open spec fn data_prefix() -> Seq<char> {
    seq!['d', 'a', 't', 'a', ':']
}

pub open spec fn javascript_prefix() -> Seq<char> {
    seq!['j', 'a', 'v', 'a', 's', 'c', 'r', 'i', 'p', 't', ':']
}

/// A link target is internal (a path into the same workspace) unless it
/// has a URL scheme (`://`) or is a `mailto:`, `tel:`, `data:` or
/// `javascript:` link.
pub open spec fn is_internal_spec(url: Seq<char>) -> bool {
    !(contains_seq(url, scheme_sep()) || starts_with_seq(url, mailto_prefix()) || starts_with_seq(
        url,
        tel_prefix(),
    ) || starts_with_seq(url, data_prefix()) || starts_with_seq(url, javascript_prefix()))
}

/// Whether the link target `url` is internal, in the sense of
/// `is_internal_spec`.
pub fn is_internal_chars(url: &[char]) -> (r: bool)
    ensures
        r == is_internal_spec(url@),
{
    let sep = [':', '/', '/'];
    let mailto = ['m', 'a', 'i', 'l', 't', 'o', ':'];
    let tel = ['t', 'e', 'l', ':'];
    let data = ['d', 'a', 't', 'a', ':'];
    let js = ['j', 'a', 'v', 'a', 's', 'c', 'r', 'i', 'p', 't', ':'];
    assert(sep@ =~= scheme_sep());
    assert(mailto@ =~= mailto_prefix());
    assert(tel@ =~= tel_prefix());
    assert(data@ =~= data_prefix());
    assert(js@ =~= javascript_prefix());
    !(contains_chars(url, &sep) || matches_at(url, 0, &mailto) || matches_at(url, 0, &tel)
        || matches_at(url, 0, &data) || matches_at(url, 0, &js))
}

/// Whether the link target `url` is internal: no URL scheme (`://`) and
/// not a `mailto:`, `tel:`, `data:` or `javascript:` link.
pub fn is_internal_path(url: &str) -> (r: bool)
    ensures
        r == is_internal_spec(url@),
{
    let cs = str_chars(url);
    is_internal_chars(cs.as_slice())
}

} // verus!
