//! `folio doc`: client-scoped Markdown documents.
//!
//! Documents live at `clients/<slug>/documents/**/*.md`; rendered PDFs
//! mirror that layout under `output/clients/`.  A PDF is up to date when it
//! is at least as new as its source.
use vstd::prelude::*;
use crate::cmd::list::RowColor;
use crate::doc_store::documents_dir;
use crate::error::FolioError;
use crate::paths::{file_stem_of, join_path, path_file_stem, path_has_prefix, path_starts_with, views};
use crate::text::{chars_of, concat3, debug_str, debug_text, push_char, string_of, uppercase_of, uppercase_text};

verus! {

/// Arguments of `folio doc`.
#[derive(Clone, Debug)]
pub struct DocArgs {
    pub command: DocCommand,
}

/// The subcommands of `folio doc`.
#[derive(Clone, Debug)]
pub enum DocCommand {
    /// Render documents to PDF.
    Build(BuildArgs),
    /// List documents and their PDF status.
    List(ListArgs),
    /// Create a new Markdown document with starter frontmatter.
    New(NewArgs),
}

/// Arguments of `folio doc build`.
#[derive(Clone, Debug)]
pub struct BuildArgs {
    /// Client slug. Required unless `--all` is set.
    pub client: Option<String>,
    /// Relative path within `documents/` to build (file or directory prefix).
    pub path: Option<String>,
    /// Build documents for all clients.
    pub all: bool,
    /// Override the template for this build.
    pub template: Option<String>,
    /// Rebuild even if the PDF is already newer than the source.
    pub force: bool,
    /// Open the PDF after building (only effective for single-file builds).
    pub open: bool,
}

/// Arguments of `folio doc list`.
#[derive(Clone, Debug)]
pub struct ListArgs {
    /// Restrict listing to this client slug.
    pub client: Option<String>,
}

/// Arguments of `folio doc new`.
#[derive(Clone, Debug)]
pub struct NewArgs {
    /// Client slug.
    pub client: String,
    /// Document name or relative path (e.g. `proposal` or `2026/q3-brief`).
    pub name: String,
    /// Template to set in the frontmatter (default: omitted, inherits folio.toml).
    pub template: Option<String>,
}

/// At most `max` characters: a longer text keeps its first `max - 1`
/// characters and ends in `…`.
pub open spec fn truncate_spec(s: Seq<char>, max: nat) -> Seq<char> {
    if s.len() <= max {
        s
    } else {
        s.take(max - 1) + "…"@
    }
}

/// Shortens a text for a table column.
pub fn truncate(s: &str, max: usize) -> (r: String)
    requires
        s@.len() <= max || max >= 1,
    ensures
        r@ == truncate_spec(s@, max as nat),
{
    let c = chars_of(s);
    if c.len() <= max {
        return String::from_str(s);
    }
    let mut out: Vec<char> = Vec::new();
    let mut i: usize = 0;
    while i < max - 1
        invariant
            max >= 1,
            max <= c.len(),
            0 <= i <= max - 1,
            out@ == c@.take(i as int),
        decreases max - 1 - i,
    {
        out.push(c[i]);
        i = i + 1;
        assert(out@ =~= c@.take(i as int));
    }
    let mut r = string_of(&out);
    r.append("…");
    r
}

/// Does the name end in `.md`?
pub open spec fn ends_with_md(name: Seq<char>) -> bool {
    name.len() >= 3 && name.subrange(name.len() - 3, name.len() as int) == ".md"@
}

/// The file name of a new document: the name given, with `.md` appended
/// unless it already ends so.
pub fn doc_file_name(name: &str) -> (r: String)
    ensures
        r@ == if ends_with_md(name@) { name@ } else { name@ + ".md"@ },
{
    let c = chars_of(name);
    let n = c.len();
    proof {
        reveal_strlit(".md");
    }
    if n >= 3 && c[n - 3] == '.' && c[n - 2] == 'm' && c[n - 1] == 'd' {
        assert(c@.subrange(n - 3, n as int) =~= ".md"@);
        String::from_str(name)
    } else {
        proof {
            if ends_with_md(name@) {
                assert(c@.subrange(n - 3, n as int)[0] == '.');
                assert(c@.subrange(n - 3, n as int)[1] == 'm');
                assert(c@.subrange(n - 3, n as int)[2] == 'd');
            }
        }
        let mut r = String::from_str(name);
        r.append(".md");
        r
    }
}

/// `-` and `_` become spaces.
pub open spec fn spaced(s: Seq<char>) -> Seq<char> {
    s.map_values(|c: char| if c == '-' || c == '_' { ' ' } else { c })
}

/// The first character in upper case, the rest unchanged.
pub open spec fn capitalized(s: Seq<char>) -> Seq<char> {
    if s.len() == 0 {
        s
    } else {
        uppercase_text(s[0]) + s.drop_first()
    }
}

/// The title a new document starts with: its file stem with `-` and `_`
/// made spaces, capitalised.
pub open spec fn doc_title_spec(file_name: Seq<char>) -> Seq<char> {
    let stem = match path_file_stem(file_name) {
        Some(s) => s,
        None => Seq::empty(),
    };
    capitalized(spaced(stem))
}

pub fn doc_title(file_name: &str) -> (r: String)
    ensures
        r@ == doc_title_spec(file_name@),
{
    let stem = match file_stem_of(file_name) {
        Some(s) => s,
        None => String::new(),
    };
    let c = chars_of(stem.as_str());
    let mut spaced_chars: Vec<char> = Vec::new();
    let mut i: usize = 0;
    while i < c.len()
        invariant
            0 <= i <= c.len(),
            spaced_chars@ == spaced(c@.take(i as int)),
        decreases c.len() - i,
    {
        let ch = c[i];
        spaced_chars.push(if ch == '-' || ch == '_' { ' ' } else { ch });
        i = i + 1;
        assert(spaced_chars@ =~= spaced(c@.take(i as int)));
    }
    assert(c@.take(c@.len() as int) =~= c@);
    if spaced_chars.len() == 0 {
        return String::new();
    }
    let mut r = uppercase_of(spaced_chars[0]);
    let mut k: usize = 1;
    while k < spaced_chars.len()
        invariant
            1 <= k <= spaced_chars.len(),
            r@ == uppercase_text(spaced_chars@[0]) + spaced_chars@.subrange(1, k as int),
        decreases spaced_chars.len() - k,
    {
        push_char(&mut r, spaced_chars[k]);
        k = k + 1;
        assert(r@ =~= uppercase_text(spaced_chars@[0]) + spaced_chars@.subrange(1, k as int));
    }
    assert(spaced_chars@.subrange(1, spaced_chars@.len() as int) =~= spaced_chars@.drop_first());
    r
}

/// The starter text of a new document.
pub open spec fn doc_scaffold_spec(title: Seq<char>, date: Seq<char>, author: Seq<char>, template: Option<Seq<char>>) -> Seq<char> {
    let template_line = match template {
        Some(t) => "template: "@ + t + "\n"@,
        None => Seq::empty(),
    };
    "---\ntitle: "@ + title + "\ndate: "@ + date + "\nauthor: "@ + author + "\n"@ + template_line + "---\n\n# "@
        + title + "\n\n"@
}

pub fn doc_scaffold(title: &str, date: &str, author: &str, template: &Option<String>) -> (r: String)
    ensures
        r@ == doc_scaffold_spec(title@, date@, author@, match template {
            Some(t) => Some(t@),
            None => None,
        }),
{
    let mut r = String::from_str("---\ntitle: ");
    r.append(title);
    r.append("\ndate: ");
    r.append(date);
    r.append("\nauthor: ");
    r.append(author);
    r.append("\n");
    let ghost head = r@;
    match template {
        Some(t) => {
            r.append("template: ");
            r.append(t.as_str());
            r.append("\n");
            assert(r@ =~= head + ("template: "@ + t@ + "\n"@));
        },
        None => {
            assert(r@ =~= head + Seq::<char>::empty());
        },
    }
    r.append("---\n\n# ");
    r.append(title);
    r.append("\n\n");
    r
}

/// The template of a document: the `--template` flag, else the
/// frontmatter's, else `[defaults].template`, else `basic`.
pub open spec fn doc_template_spec(flag: Option<Seq<char>>, frontmatter: Option<Seq<char>>, config_default: Option<Seq<char>>) -> Seq<char> {
    match flag {
        Some(t) => t,
        None => match frontmatter {
            Some(t) => t,
            None => match config_default {
                Some(t) => t,
                None => "basic"@,
            },
        },
    }
}

pub fn doc_template_name(flag: &Option<String>, frontmatter: &Option<String>, config_default: &Option<String>) -> (r: String)
    ensures
        r@ == doc_template_spec(
            match flag { Some(t) => Some(t@), None => None },
            match frontmatter { Some(t) => Some(t@), None => None },
            match config_default { Some(t) => Some(t@), None => None },
        ),
{
    match flag {
        Some(t) => t.clone(),
        None => match frontmatter {
            Some(t) => t.clone(),
            None => match config_default {
                Some(t) => t.clone(),
                None => String::from_str("basic"),
            },
        },
    }
}

/// The paths among the first `n` that lie under `base`, in order.
pub open spec fn under(paths: Seq<Seq<char>>, base: Seq<char>, n: int) -> Seq<Seq<char>>
    decreases n,
{
    if n <= 0 {
        Seq::empty()
    } else if path_has_prefix(paths[n - 1], base) {
        under(paths, base, n - 1).push(paths[n - 1])
    } else {
        under(paths, base, n - 1)
    }
}

/// The documents of a client that lie under `base` (a file or a directory).
pub fn docs_under(docs: &Vec<String>, base: &str) -> (r: Vec<String>)
    ensures
        views(r@) == under(views(docs@), base@, docs@.len() as int),
{
    let mut out: Vec<String> = Vec::new();
    let mut i: usize = 0;
    while i < docs.len()
        invariant
            0 <= i <= docs.len(),
            views(out@) == under(views(docs@), base@, i as int),
        decreases docs.len() - i,
    {
        let ghost before = out@;
        if path_starts_with(docs[i].as_str(), base) {
            out.push(docs[i].clone());
            assert(views(out@) =~= views(before).push(docs@[i as int]@));
        }
        i = i + 1;
    }
    out
}

/// The client whose documents a build covers: without `--all` a slug is required.
pub fn build_client(args: &BuildArgs) -> (r: Result<String, FolioError>)
    ensures
        match args.client {
            Some(c) => r matches Ok(s) && s@ == c@,
            None => r matches Err(FolioError::Other(m)) && m@ == "Provide a client slug or use --all"@,
        },
{
    match &args.client {
        Some(c) => Ok(c.clone()),
        None => Err(FolioError::Other(String::from_str("Provide a client slug or use --all"))),
    }
}

/// `Client "<slug>" not found`.
pub fn client_not_found(slug: &str) -> (r: FolioError)
    ensures
        r matches FolioError::Other(m) && m@ == "Client "@ + debug_str(slug@) + " not found"@,
{
    let q = debug_text(slug);
    FolioError::Other(concat3("Client ", q.as_str(), " not found"))
}

/// The documents a build of one client covers: all of them, or, with a
/// path, those under `documents/<path>`, of which there must be at least one.
pub fn build_selection(clients_dir: &str, slug: &str, path: &Option<String>, docs: Vec<String>) -> (r: Result<Vec<String>, FolioError>)
    ensures
        match path {
            None => r matches Ok(v) && v@ == docs@,
            Some(rel) => {
                let base = crate::paths::join_spec(crate::doc_store::documents_dir_spec(clients_dir@, slug@), rel@);
                let chosen = under(views(docs@), base, docs@.len() as int);
                if chosen.len() == 0 {
                    r matches Err(FolioError::Other(m)) && m@ == "No .md files found under "@ + clients_dir@ + "/"@
                        + slug@ + "/documents/"@ + rel@
                } else {
                    r matches Ok(v) && views(v@) == chosen
                }
            },
        },
{
    match path {
        None => Ok(docs),
        Some(rel) => {
            let dir = documents_dir(clients_dir, slug);
            let base = join_path(dir.as_str(), rel.as_str());
            let chosen = docs_under(&docs, base.as_str());
            if chosen.len() == 0 {
                let mut m = concat3("No .md files found under ", clients_dir, "/");
                m.append(slug);
                m.append("/documents/");
                m.append(rel.as_str());
                Err(FolioError::Other(m))
            } else {
                Ok(chosen)
            }
        },
    }
}

/// A modification time, in nanoseconds from the Unix epoch (negative before it).
pub type FileTime = i128;

/// Whether a document's PDF reflects its source.
#[derive(Clone, Copy, Debug, PartialEq, Eq, Structural)]
pub enum DocPdfState {
    /// The PDF is at least as new as its source.
    Fresh,
    /// The PDF is older than its source, or a time could not be read.
    Stale,
    /// No PDF has been built.
    Missing,
}

/// The state of a document's PDF from whether it exists and the two times.
pub open spec fn doc_pdf_state_spec(pdf_exists: bool, source: Option<FileTime>, pdf: Option<FileTime>) -> DocPdfState {
    if !pdf_exists {
        DocPdfState::Missing
    } else {
        match (source, pdf) {
            (Some(s), Some(p)) => if p >= s { DocPdfState::Fresh } else { DocPdfState::Stale },
            _ => DocPdfState::Stale,
        }
    }
}

pub fn doc_pdf_state(pdf_exists: bool, source: Option<FileTime>, pdf: Option<FileTime>) -> (r: DocPdfState)
    ensures
        r == doc_pdf_state_spec(pdf_exists, source, pdf),
{
    if !pdf_exists {
        DocPdfState::Missing
    } else {
        match (source, pdf) {
            (Some(s), Some(p)) => if p >= s { DocPdfState::Fresh } else { DocPdfState::Stale },
            _ => DocPdfState::Stale,
        }
    }
}

/// A build skips a document whose PDF is fresh, unless forced.
pub fn doc_up_to_date(force: bool, state: DocPdfState) -> (r: bool)
    ensures
        r == (!force && state == DocPdfState::Fresh),
{
    !force && state == DocPdfState::Fresh
}

/// The mark shown for a document's PDF: `✓`, `~` or `—`.
pub fn doc_pdf_indicator(state: DocPdfState) -> (r: String)
    ensures
        r@ == match state {
            DocPdfState::Fresh => "✓"@,
            DocPdfState::Stale => "~"@,
            DocPdfState::Missing => "—"@,
        },
{
    match state {
        DocPdfState::Fresh => String::from_str("✓"),
        DocPdfState::Stale => String::from_str("~"),
        DocPdfState::Missing => String::from_str("—"),
    }
}

/// Fresh rows are dimmed, stale ones yellow, the rest plain.
pub fn doc_row_color(state: DocPdfState) -> (r: RowColor)
    ensures
        r == match state {
            DocPdfState::Fresh => RowColor::Dimmed,
            DocPdfState::Stale => RowColor::Yellow,
            DocPdfState::Missing => RowColor::Plain,
        },
{
    match state {
        DocPdfState::Fresh => RowColor::Dimmed,
        DocPdfState::Stale => RowColor::Yellow,
        DocPdfState::Missing => RowColor::Plain,
    }
}

/// `--open` opens the PDF only when a single document was selected and built.
pub fn opens_pdf(open: bool, built: bool, targets: usize) -> (r: bool)
    ensures
        r == (open && built && targets == 1),
{
    open && built && targets == 1
}

} // verus!
