//! Markdown → HTML conversion with YAML frontmatter support.
//!
//! [`parse_doc`] strips a leading `---…---` frontmatter block (if present),
//! reads the well-known keys (`title`, `date`, `author`, `template`,
//! `primary_color`), then renders the remaining Markdown to an HTML fragment
//! with `pulldown-cmark`.
//!
//! The `# Title` convention: if no `title` key was found in frontmatter, the
//! first `<h1>` of the rendered body is promoted to `RenderedDoc::title` and
//! taken out of `body_html`.
use vstd::prelude::*;
use crate::text::{
    chars_of, extend_from, find_from, first_match, lemma_first_match_bounds, matches_at,
    opt_view, push_char, string_from, string_of,
};

verus! {

/// The result of parsing a Markdown document.
#[derive(Clone, Debug)]
pub struct RenderedDoc {
    /// Document title — from frontmatter `title:` or the first `# Heading`.
    pub title: String,
    /// Rendered HTML fragment (the body, without the title heading).
    pub body_html: String,
    /// Optional date string from frontmatter `date:`.
    pub date: Option<String>,
    /// Optional author from frontmatter `author:`.
    pub author: Option<String>,
    /// Optional template name from frontmatter `template:`.
    pub template: Option<String>,
    /// Optional accent colour (CSS hex) from frontmatter `primary_color:`.
    pub primary_color: Option<String>,
}

/// `s` with every leading repetition of the nonempty `pat` removed, as
/// `str::trim_start_matches` does.
pub open spec fn trim_start_all(s: Seq<char>, pat: Seq<char>) -> Seq<char>
    decreases s.len(),
{
    if pat.len() > 0 && matches_at(s, pat, 0) {
        trim_start_all(s.subrange(pat.len() as int, s.len() as int), pat)
    } else {
        s
    }
}

/// Removes every leading repetition of the nonempty `pat` from `s[from..]`
/// and gives the position where the rest begins.
fn trim_start_from(s: &Vec<char>, pat: &Vec<char>, from: usize) -> (r: usize)
    requires
        pat.len() > 0,
        from <= s.len(),
    ensures
        from <= r <= s.len(),
        s@.subrange(r as int, s@.len() as int) == trim_start_all(s@.subrange(from as int, s@.len() as int), pat@),
{
    let mut i = from;
    loop
        invariant
            pat.len() > 0,
            from <= i <= s.len(),
            trim_start_all(s@.subrange(i as int, s@.len() as int), pat@)
                == trim_start_all(s@.subrange(from as int, s@.len() as int), pat@),
        decreases s.len() - i,
    {
        let m = crate::text::is_match_at(s, pat, i);
        proof {
            let t = s@.subrange(i as int, s@.len() as int);
            if m {
                assert(t.subrange(0, pat@.len() as int) =~= s@.subrange(i as int, i + pat@.len()));
                assert(t.subrange(pat@.len() as int, t.len() as int) =~= s@.subrange(i + pat@.len(), s@.len() as int));
            } else {
                if matches_at(t, pat@, 0) {
                    assert(t.subrange(0, pat@.len() as int) =~= s@.subrange(i as int, i + pat@.len()));
                }
            }
        }
        if !m {
            return i;
        }
        i = i + pat.len();
    }
}

/// The frontmatter split of a source text: `(frontmatter, body)`.
///
/// After leading BOMs, the text must open with `---` (repeated marks are
/// all skipped) directly followed by a line break; the frontmatter then runs
/// up to the first `\n---`, and the body starts after it, past any line
/// breaks.  Without such a block the whole source is the body.
pub open spec fn split_frontmatter_spec(source: Seq<char>) -> (Option<Seq<char>>, Seq<char>) {
    let s = trim_start_all(source, seq!['\u{feff}']);
    if !matches_at(s, "---"@, 0) {
        (None, source)
    } else {
        let after_open = trim_start_all(s, "---"@);
        if !matches_at(after_open, seq!['\n'], 0) && !matches_at(after_open, "\r\n"@, 0) {
            (None, source)
        } else {
            let rest = trim_start_all(trim_start_all(after_open, "\r\n"@), seq!['\n']);
            match first_match(rest, "\n---"@, 0) {
                Some(close) => (
                    Some(rest.subrange(0, close)),
                    trim_start_all(
                        trim_start_all(rest.subrange(close + 4, rest.len() as int), "\r\n"@),
                        seq!['\n'],
                    ),
                ),
                None => (None, source),
            }
        }
    }
}

/// Split off a leading `---\n…\n---\n` block.
/// Returns `(Some(frontmatter), body)`, or `(None, source)` when there is
/// no such block.
pub fn split_frontmatter(source: &str) -> (r: (Option<String>, String))
    ensures
        match r.0 {
            Some(f) => split_frontmatter_spec(source@).0 == Some(f@),
            None => split_frontmatter_spec(source@).0 is None,
        },
        r.1@ == split_frontmatter_spec(source@).1,
{
    proof {
        reveal_strlit("---");
        reveal_strlit("\r\n");
        reveal_strlit("\n---");
    }
    let src = chars_of(source);
    let bom = vec!['\u{feff}'];
    let dashes = vec!['-', '-', '-'];
    let crlf = vec!['\r', '\n'];
    let lf = vec!['\n'];
    let close_mark = vec!['\n', '-', '-', '-'];
    assert(dashes@ =~= "---"@);
    assert(bom@ =~= seq!['\u{feff}']);
    assert(lf@ =~= seq!['\n']);
    assert(crlf@ =~= "\r\n"@);
    assert(close_mark@ =~= "\n---"@);
    assert(src@.subrange(0, src@.len() as int) =~= src@);
    let s0 = trim_start_from(&src, &bom, 0);
    let ghost s = src@.subrange(s0 as int, src@.len() as int);
    let opens = crate::text::is_match_at(&src, &dashes, s0);
    proof {
        if opens || matches_at(s, "---"@, 0) {
            assert(s.subrange(0, 3) =~= src@.subrange(s0 as int, s0 + 3));
        }
    }
    if !opens {
        return (None, String::from_str(source));
    }
    let a = trim_start_from(&src, &dashes, s0);
    let ghost after_open = src@.subrange(a as int, src@.len() as int);
    let lf_next = crate::text::is_match_at(&src, &lf, a);
    let crlf_next = crate::text::is_match_at(&src, &crlf, a);
    proof {
        if lf_next || matches_at(after_open, seq!['\n'], 0) {
            assert(after_open.subrange(0, 1) =~= src@.subrange(a as int, a + 1));
        }
        if crlf_next || matches_at(after_open, "\r\n"@, 0) {
            assert(after_open.subrange(0, 2) =~= src@.subrange(a as int, a + 2));
        }
    }
    if !lf_next && !crlf_next {
        return (None, String::from_str(source));
    }
    let b = trim_start_from(&src, &crlf, a);
    let c = trim_start_from(&src, &lf, b);
    let rest = string_from(&src, c, src.len());
    let rest_chars = chars_of(rest.as_str());
    match find_from(&rest_chars, &close_mark, 0) {
        Some(close) => {
            proof {
                lemma_first_match_bounds(rest_chars@, "\n---"@, 0);
            }
            let fm = string_from(&rest_chars, 0, close);
            let d = trim_start_from(&rest_chars, &crlf, close + 4);
            let e = trim_start_from(&rest_chars, &lf, d);
            let body = string_from(&rest_chars, e, rest_chars.len());
            (Some(fm), body)
        },
        None => (None, String::from_str(source)),
    }
}


/// The text of `s` outside HTML tags, `in_tag` telling whether `s` starts
/// inside a tag: `<` opens a tag and `>` closes one, and both are dropped.
pub open spec fn strip_tags_from(s: Seq<char>, in_tag: bool) -> Seq<char>
    decreases s.len(),
{
    if s.len() == 0 {
        Seq::empty()
    } else {
        let c = s[0];
        let rest = s.drop_first();
        if c == '<' {
            strip_tags_from(rest, true)
        } else if c == '>' {
            strip_tags_from(rest, false)
        } else if !in_tag {
            seq![c] + strip_tags_from(rest, in_tag)
        } else {
            strip_tags_from(rest, in_tag)
        }
    }
}

/// Remove HTML tags from a string, returning plain text.
pub fn strip_tags(s: &str) -> (r: String)
    ensures
        r@ == strip_tags_from(s@, false),
{
    let c = chars_of(s);
    let mut out = String::new();
    let mut in_tag = false;
    let mut i: usize = 0;
    assert(c@.subrange(0, c@.len() as int) =~= c@);
    while i < c.len()
        invariant
            0 <= i <= c.len(),
            c@ == s@,
            out@ + strip_tags_from(c@.subrange(i as int, c@.len() as int), in_tag) == strip_tags_from(s@, false),
        decreases c.len() - i,
    {
        let ch = c[i];
        let ghost t = c@.subrange(i as int, c@.len() as int);
        assert(t.drop_first() =~= c@.subrange(i + 1, c@.len() as int));
        assert(t[0] == ch);
        if ch == '<' {
            in_tag = true;
        } else if ch == '>' {
            in_tag = false;
        } else if !in_tag {
            let ghost before = out@;
            push_char(&mut out, ch);
            assert(out@ + strip_tags_from(c@.subrange(i + 1, c@.len() as int), in_tag) =~= before + (seq![ch]
                + strip_tags_from(c@.subrange(i + 1, c@.len() as int), in_tag)));
        }
        i = i + 1;
    }
    assert(out@ =~= strip_tags_from(s@, false));
    out
}

/// `char::is_whitespace`: the Unicode `White_Space` property.
pub open spec fn is_whitespace(c: char) -> bool {
    let v = c as u32;
    (0x09 <= v && v <= 0x0D) || v == 0x20 || v == 0x85 || v == 0xA0 || v == 0x1680
        || (0x2000 <= v && v <= 0x200A) || v == 0x2028 || v == 0x2029 || v == 0x202F
        || v == 0x205F || v == 0x3000
}

pub fn exec_is_whitespace(c: char) -> (r: bool)
    ensures
        r == is_whitespace(c),
{
    let v: u32 = c as u32;
    (0x09 <= v && v <= 0x0D) || v == 0x20 || v == 0x85 || v == 0xA0 || v == 0x1680
        || (0x2000 <= v && v <= 0x200A) || v == 0x2028 || v == 0x2029 || v == 0x202F
        || v == 0x205F || v == 0x3000
}

/// `i` is the first position of `s` holding a non-whitespace character.
pub open spec fn trim_start_at(s: Seq<char>, i: int) -> bool {
    0 <= i < s.len() && !is_whitespace(s[i]) && forall|k: int| 0 <= k < i ==> is_whitespace(#[trigger] s[k])
}

/// `j` is one past the last position of `s` holding a non-whitespace
/// character.
pub open spec fn trim_end_at(s: Seq<char>, j: int) -> bool {
    0 < j <= s.len() && !is_whitespace(s[j - 1]) && forall|k: int| j <= k < s.len() ==> is_whitespace(#[trigger] s[k])
}

/// `str::trim`: `s` without its leading and trailing whitespace.
pub open spec fn trimmed(s: Seq<char>) -> Seq<char> {
    if forall|k: int| 0 <= k < s.len() ==> is_whitespace(#[trigger] s[k]) {
        Seq::empty()
    } else {
        let i = choose|i: int| #[trigger] trim_start_at(s, i);
        let j = choose|j: int| #[trigger] trim_end_at(s, j);
        s.subrange(i, j)
    }
}

/// Removes leading and trailing whitespace.
pub fn trim(s: &Vec<char>) -> (r: String)
    ensures
        r@ == trimmed(s@),
{
    let mut i: usize = 0;
    while i < s.len() && exec_is_whitespace(s[i])
        invariant
            0 <= i <= s.len(),
            forall|k: int| 0 <= k < i ==> is_whitespace(#[trigger] s@[k]),
        decreases s.len() - i,
    {
        i = i + 1;
    }
    if i == s.len() {
        return String::new();
    }
    let mut j: usize = s.len();
    while j > i + 1 && exec_is_whitespace(s[j - 1])
        invariant
            i < j <= s.len(),
            !is_whitespace(s@[i as int]),
            forall|k: int| j <= k < s.len() ==> is_whitespace(#[trigger] s@[k]),
        decreases j,
    {
        j = j - 1;
    }
    proof {
        if j == i + 1 {
            assert(!is_whitespace(s@[j - 1]));
        }
        assert(trim_start_at(s@, i as int));
        assert(trim_end_at(s@, j as int));
        assert(!(forall|k: int| 0 <= k < s@.len() ==> is_whitespace(#[trigger] s@[k]))) by {
            assert(!is_whitespace(s@[i as int]));
        }
        let ci = choose|ci: int| #[trigger] trim_start_at(s@, ci);
        assert(ci == i) by {
            if ci < i {
                assert(is_whitespace(s@[ci]));
            }
            if ci > i {
                assert(is_whitespace(s@[i as int]));
            }
        }
        let cj = choose|cj: int| #[trigger] trim_end_at(s@, cj);
        assert(cj == j) by {
            if cj < j {
                assert(is_whitespace(s@[j - 1]));
            }
            if cj > j {
                assert(is_whitespace(s@[cj - 1]));
            }
        }
    }
    string_from(s, i, j)
}


/// The first `<h1>` of an HTML fragment, lifted out: its text without tags
/// and trimmed, and the fragment without that element.
pub open spec fn lift_h1_spec(h: Seq<char>) -> Option<(Seq<char>, Seq<char>)> {
    match first_match(h, "<h1"@, 0) {
        None => None,
        Some(open) => match first_match(h, ">"@, open) {
            None => None,
            Some(gt) => match first_match(h, "</h1>"@, gt + 1) {
                None => None,
                Some(close) => Some((
                    trimmed(strip_tags_from(h.subrange(gt + 1, close), false)),
                    h.subrange(0, open) + h.subrange(close + 5, h.len() as int),
                )),
            },
        },
    }
}

/// Find the first `<h1>…</h1>` in the HTML fragment, extract its inner text,
/// and return `(plain_title, html_without_that_h1)`.
pub fn lift_h1(html: &str) -> (r: Option<(String, String)>)
    ensures
        match r {
            Some((t, rest)) => lift_h1_spec(html@) == Some((t@, rest@)),
            None => lift_h1_spec(html@) is None,
        },
{
    proof {
        reveal_strlit("<h1");
        reveal_strlit(">");
        reveal_strlit("</h1>");
    }
    let h = chars_of(html);
    let open_pat = chars_of("<h1");
    let gt_pat = chars_of(">");
    let close_pat = chars_of("</h1>");
    let open = match find_from(&h, &open_pat, 0) {
        Some(o) => o,
        None => return None,
    };
    proof {
        lemma_first_match_bounds(h@, "<h1"@, 0);
    }
    let gt = match find_from(&h, &gt_pat, open) {
        Some(g) => g,
        None => return None,
    };
    proof {
        lemma_first_match_bounds(h@, ">"@, open as int);
    }
    let hl = h.len();
    assert(gt < hl);
    let tag_end = gt + 1;
    let close = match find_from(&h, &close_pat, tag_end) {
        Some(c) => c,
        None => return None,
    };
    proof {
        lemma_first_match_bounds(h@, "</h1>"@, tag_end as int);
    }
    let inner = string_from(&h, tag_end, close);
    let plain = strip_tags(inner.as_str());
    let title = trim(&chars_of(plain.as_str()));
    let mut rest = string_from(&h, 0, open);
    let tail = string_from(&h, close + 5, h.len());
    rest.append(tail.as_str());
    Some((title, rest))
}

/// The well-known frontmatter keys of a document.
#[derive(Clone, Debug)]
pub struct Frontmatter {
    pub title: Option<String>,
    pub date: Option<String>,
    pub author: Option<String>,
    pub template: Option<String>,
    pub primary_color: Option<String>,
}

/// The string value of a top-level key of a YAML text, as `serde_yaml`
/// reads it (`None` when the text is not a YAML mapping, the key is absent,
/// or its value is not a string).
pub uninterp spec fn yaml_top_level_string(yaml: Seq<char>, key: Seq<char>) -> Option<Seq<char>>;

/// Looks up a top-level string key with `serde_yaml`.
///
/// Trusted: parses `yaml` with `serde_yaml::from_str::<Value>` and returns
/// the string stored under `key` when the document is a mapping; the result
/// is named by [`yaml_top_level_string`].
#[verifier::external_body]
fn yaml_string_field(yaml: &str, key: &str) -> (r: Option<String>)
    ensures
        opt_view(r) == yaml_top_level_string(yaml@, key@),
{
    match serde_yaml::from_str::<serde_yaml::Value>(yaml) {
        Ok(value) => match value.as_mapping() {
            Some(map) => match map.get(key) {
                Some(v) => v.as_str().map(|s| s.to_string()),
                None => None,
            },
            None => None,
        },
        Err(_) => None,
    }
}

/// The frontmatter keys read from a YAML text: all absent for an empty
/// text; `primary_color` falls back to `primaryColor`.
pub open spec fn frontmatter_matches(fm: Frontmatter, yaml: Seq<char>) -> bool {
    if yaml.len() == 0 {
        fm.title is None && fm.date is None && fm.author is None && fm.template is None
            && fm.primary_color is None
    } else {
        &&& opt_view(fm.title) == yaml_top_level_string(yaml, "title"@)
        &&& opt_view(fm.date) == yaml_top_level_string(yaml, "date"@)
        &&& opt_view(fm.author) == yaml_top_level_string(yaml, "author"@)
        &&& opt_view(fm.template) == yaml_top_level_string(yaml, "template"@)
        &&& opt_view(fm.primary_color) == (match yaml_top_level_string(yaml, "primary_color"@) {
            Some(c) => Some(c),
            None => yaml_top_level_string(yaml, "primaryColor"@),
        })
    }
}

/// Parse the YAML frontmatter string into the known fields.
/// Falls back gracefully on parse errors.
pub fn parse_frontmatter(yaml: &str) -> (r: Frontmatter)
    ensures
        frontmatter_matches(r, yaml@),
{
    if yaml.is_empty() {
        return Frontmatter { title: None, date: None, author: None, template: None, primary_color: None };
    }
    let primary_color = match yaml_string_field(yaml, "primary_color") {
        Some(c) => Some(c),
        None => yaml_string_field(yaml, "primaryColor"),
    };
    Frontmatter {
        title: yaml_string_field(yaml, "title"),
        date: yaml_string_field(yaml, "date"),
        author: yaml_string_field(yaml, "author"),
        template: yaml_string_field(yaml, "template"),
        primary_color,
    }
}

/// The Markdown extensions documents are rendered with, as the bits of
/// `pulldown_cmark::Options`: tables (2), footnotes (4), strikethrough (8),
/// task lists (16) and smart punctuation (32).
pub const MARKDOWN_OPTIONS: u32 = 62u32;

/// The HTML `pulldown-cmark` renders for a Markdown text with the
/// extensions whose `Options` bits are set in `options`.
pub uninterp spec fn markdown_html(markdown: Seq<char>, options: u32) -> Seq<char>;

/// Renders Markdown to HTML with `pulldown-cmark`.
///
/// Trusted: runs `pulldown_cmark::Parser::new_ext` with the options whose
/// bits are given (`Options::from_bits_truncate`) and `html::push_html`
/// into an empty string; the result is named by [`markdown_html`].
#[verifier::external_body]
fn render_markdown(markdown: &str, options: u32) -> (r: String)
    ensures
        r@ == markdown_html(markdown@, options),
{
    let options = pulldown_cmark::Options::from_bits_truncate(options);
    let mut html = String::new();
    pulldown_cmark::html::push_html(&mut html, pulldown_cmark::Parser::new_ext(markdown, options));
    html
}

/// A frontmatter key of a YAML text (nothing for an empty text).
pub open spec fn fm_field(yaml: Seq<char>, key: Seq<char>) -> Option<Seq<char>> {
    if yaml.len() == 0 {
        None
    } else {
        yaml_top_level_string(yaml, key)
    }
}

/// The accent colour of a frontmatter: `primary_color`, else `primaryColor`.
pub open spec fn fm_color(yaml: Seq<char>) -> Option<Seq<char>> {
    match fm_field(yaml, "primary_color"@) {
        Some(c) => Some(c),
        None => fm_field(yaml, "primaryColor"@),
    }
}

/// The frontmatter text of a source (empty when there is none).
pub open spec fn frontmatter_text(source: Seq<char>) -> Seq<char> {
    match split_frontmatter_spec(source).0 {
        Some(t) => t,
        None => Seq::empty(),
    }
}

/// The document a Markdown source renders to: frontmatter keys, the body as
/// HTML, and the title from frontmatter, else lifted from the first `<h1>`
/// (which then leaves the body), else empty.
pub open spec fn rendered_as(r: RenderedDoc, source: Seq<char>) -> bool {
    let yaml = frontmatter_text(source);
    let html = markdown_html(split_frontmatter_spec(source).1, MARKDOWN_OPTIONS);
    &&& opt_view(r.date) == fm_field(yaml, "date"@)
    &&& opt_view(r.author) == fm_field(yaml, "author"@)
    &&& opt_view(r.template) == fm_field(yaml, "template"@)
    &&& opt_view(r.primary_color) == fm_color(yaml)
    &&& match fm_field(yaml, "title"@) {
        Some(t) => r.title@ == t && r.body_html@ == html,
        None => match lift_h1_spec(html) {
            Some((t, rest)) => r.title@ == t && r.body_html@ == rest,
            None => r.title@ == Seq::<char>::empty() && r.body_html@ == html,
        },
    }
}

/// Parse a Markdown string (with optional YAML frontmatter) into a
/// [`RenderedDoc`].
pub fn parse_doc(source: &str) -> (r: RenderedDoc)
    ensures
        rendered_as(r, source@),
{
    let (frontmatter, body) = split_frontmatter(source);
    let yaml = match frontmatter {
        Some(f) => f,
        None => String::new(),
    };
    let fm = parse_frontmatter(yaml.as_str());
    let full_html = render_markdown(body.as_str(), MARKDOWN_OPTIONS);
    proof {
        reveal_strlit("title");
    }
    assert(yaml@ == frontmatter_text(source@));
    let (title, body_html) = match fm.title {
        Some(t) => (t, full_html),
        None => match lift_h1(full_html.as_str()) {
            Some((t, rest)) => (t, rest),
            None => (String::new(), full_html),
        },
    };
    let r = RenderedDoc {
        title,
        body_html,
        date: fm.date,
        author: fm.author,
        template: fm.template,
        primary_color: fm.primary_color,
    };
    r
}

/// Without a frontmatter block nothing of the source is lost: the whole
/// text is the body.
pub proof fn law_no_frontmatter_keeps_source(source: Seq<char>)
    ensures
        split_frontmatter_spec(source).0 is None ==> split_frontmatter_spec(source).1 == source,
{
}

/// A frontmatter title wins over a leading `# Heading`, which then stays in
/// the body; without one the first heading becomes the title and leaves the
/// body.
pub proof fn law_title_choice(r: RenderedDoc, source: Seq<char>)
    requires
        rendered_as(r, source),
    ensures
        fm_field(frontmatter_text(source), "title"@) matches Some(t) ==> r.title@ == t
            && r.body_html@ == markdown_html(split_frontmatter_spec(source).1, MARKDOWN_OPTIONS),
        fm_field(frontmatter_text(source), "title"@) is None ==> match lift_h1_spec(markdown_html(split_frontmatter_spec(source).1, MARKDOWN_OPTIONS)) {
            Some((t, rest)) => r.title@ == t && r.body_html@ == rest,
            None => r.title@.len() == 0 && r.body_html@ == markdown_html(split_frontmatter_spec(source).1, MARKDOWN_OPTIONS),
        },
{
}

} // verus!
