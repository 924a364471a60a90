//! Where documents and clients are filed, and which of them a listing
//! selects.
//!
//! Invoices live at `<invoices>/{year}/{id}.toml`, quotes at
//! `<quotes>/{year}/{id}.toml` and clients at `<clients>/{slug}.toml`, the
//! directories being those of [`PathsConfig`] under the repository root.
use vstd::prelude::*;
use crate::error::FolioError;
use crate::paths::{extension_of, file_stem_of, join_path, join_spec, path_extension, path_file_stem};
use crate::text::{chars_of, first_match, opt_view, parse_i32, parse_i32_spec, push_char, string_from};
use crate::types::{setting_or, InvoiceFilter, PathsConfig, QuoteFilter};

verus! {

/// The filesystem-backed store of a repository.
#[derive(Clone, Debug)]
pub struct FilesystemStore {
    pub root: String,
    pub paths: PathsConfig,
}

/// The text of the second `-`-separated part of an ID, which is where the
/// year sits (`INV-2026-001`), or `unknown` when the ID has no `-`.
pub open spec fn id_year_part(id: Seq<char>) -> Seq<char> {
    match first_match(id, "-"@, 0) {
        None => "unknown"@,
        Some(a) => match first_match(id, "-"@, a + 1) {
            Some(b) => id.subrange(a + 1, b),
            None => id.subrange(a + 1, id.len() as int),
        },
    }
}

/// `{id}.toml`.
pub open spec fn toml_file_name(id: Seq<char>) -> Seq<char> {
    id + ".toml"@
}

impl FilesystemStore {
    /// A store at `root` with the conventional directory names.
    pub fn new(root: &str) -> (r: FilesystemStore)
        ensures
            r.root@ == root@,
            r.paths.clients is None && r.paths.invoices is None && r.paths.templates is None
                && r.paths.output is None,
    {
        FilesystemStore { root: String::from_str(root), paths: PathsConfig::default() }
    }

    /// A store at `root` with the given directory layout.
    pub fn with_paths(root: &str, paths: PathsConfig) -> (r: FilesystemStore)
        ensures
            r.root@ == root@,
            r.paths == paths,
    {
        FilesystemStore { root: String::from_str(root), paths }
    }

    /// The clients directory.
    pub fn clients_dir(&self) -> (r: String)
        ensures
            r@ == join_spec(self.root@, setting_or(self.paths.clients, "clients"@)),
    {
        join_path(self.root.as_str(), self.paths.clients().as_str())
    }

    /// The invoices directory.
    pub fn invoices_dir(&self) -> (r: String)
        ensures
            r@ == join_spec(self.root@, setting_or(self.paths.invoices, "invoices"@)),
    {
        join_path(self.root.as_str(), self.paths.invoices().as_str())
    }

    /// The quotes directory.
    pub fn quotes_dir(&self) -> (r: String)
        ensures
            r@ == join_spec(self.root@, "quotes"@),
    {
        join_path(self.root.as_str(), "quotes")
    }

    /// The custom templates directory.
    pub fn templates_dir(&self) -> (r: String)
        ensures
            r@ == join_spec(self.root@, setting_or(self.paths.templates, "templates"@)),
    {
        join_path(self.root.as_str(), self.paths.templates().as_str())
    }

    /// The output directory for PDFs.
    pub fn output_dir(&self) -> (r: String)
        ensures
            r@ == join_spec(self.root@, setting_or(self.paths.output, "output"@)),
    {
        join_path(self.root.as_str(), self.paths.output().as_str())
    }

    /// The file of the invoice `id`: `<invoices>/{year}/{id}.toml`, the year
    /// being the second part of the ID.
    pub fn invoice_path(&self, id: &str) -> (r: String)
        ensures
            r@ == join_spec(
                join_spec(join_spec(self.root@, setting_or(self.paths.invoices, "invoices"@)), id_year_part(id@)),
                toml_file_name(id@),
            ),
    {
        let dir = self.invoices_dir();
        self.document_path(dir.as_str(), id)
    }

    /// The file of the quote `id`: `<quotes>/{year}/{id}.toml`.
    pub fn quote_path(&self, id: &str) -> (r: String)
        ensures
            r@ == join_spec(join_spec(join_spec(self.root@, "quotes"@), id_year_part(id@)), toml_file_name(id@)),
    {
        let dir = self.quotes_dir();
        self.document_path(dir.as_str(), id)
    }

    /// The file of the client `slug`: `<clients>/{slug}.toml`.
    pub fn client_path(&self, slug: &str) -> (r: String)
        ensures
            r@ == join_spec(join_spec(self.root@, setting_or(self.paths.clients, "clients"@)), toml_file_name(slug@)),
    {
        let dir = self.clients_dir();
        let mut name = String::from_str(slug);
        name.append(".toml");
        join_path(dir.as_str(), name.as_str())
    }

    /// `<dir>/{year}/{id}.toml`.
    fn document_path(&self, dir: &str, id: &str) -> (r: String)
        ensures
            r@ == join_spec(join_spec(dir@, id_year_part(id@)), toml_file_name(id@)),
    {
        proof {
            reveal_strlit("-");
            crate::text::lemma_first_match_bounds(id@, "-"@, 0);
        }
        let c = chars_of(id);
        let dash = chars_of("-");
        let year = match crate::text::find_from(&c, &dash, 0) {
            None => String::from_str("unknown"),
            Some(a) => {
                proof {
                    crate::text::lemma_first_match_bounds(id@, "-"@, a + 1);
                }
                let cl = c.len();
                assert(a < cl);
                match crate::text::find_from(&c, &dash, a + 1) {
                    Some(b) => string_from(&c, a + 1, b),
                    None => string_from(&c, a + 1, c.len()),
                }
            },
        };
        let mut name = String::from_str(id);
        name.append(".toml");
        let year_dir = join_path(dir, year.as_str());
        join_path(year_dir.as_str(), name.as_str())
    }
}

/// Does a year directory take part in a listing?  A directory whose name is
/// a year other than the filter's is skipped; every other one is read.
pub open spec fn year_dir_selected_spec(dir_name: Seq<char>, year: Option<i32>) -> bool {
    match (parse_i32_spec(dir_name), year) {
        (Some(y), Some(want)) => y == want,
        _ => true,
    }
}


/// Whether a year directory takes part in a listing.
pub fn year_dir_selected(dir_name: &str, year: Option<i32>) -> (r: bool)
    ensures
        r == year_dir_selected_spec(dir_name@, year),
{
    match (parse_i32(&chars_of(dir_name)), year) {
        (Some(y), Some(want)) => y == want,
        _ => true,
    }
}

/// Whether a document of `client` passes a listing's client filter.
pub fn client_selected(client: &str, filter_client: &Option<String>) -> (r: bool)
    ensures
        r == match filter_client {
            Some(c) => c@ == client@,
            None => true,
        },
{
    match filter_client {
        Some(c) => crate::text::same_text(c.as_str(), client),
        None => true,
    }
}

/// Is this the path of a TOML file, one whose extension is `toml`?
pub fn is_toml_file(path: &str) -> (r: bool)
    ensures
        r == (path_extension(path@) == Some("toml"@)),
{
    match extension_of(path) {
        Some(e) => crate::text::same_text(e.as_str(), "toml"),
        None => false,
    }
}

/// The slug of a client file: its file stem (empty when there is none).
pub fn client_slug_of(path: &str) -> (r: String)
    ensures
        r@ == match path_file_stem(path@) {
            Some(s) => s,
            None => Seq::empty(),
        },
{
    match file_stem_of(path) {
        Some(s) => s,
        None => String::new(),
    }
}

/// `ClientNotFound` for the client `slug` expected at `path`.
pub fn client_not_found(slug: &str, path: &str) -> (r: FolioError)
    ensures
        r matches FolioError::ClientNotFound { slug: s, path: p } && s@ == slug@ && p@ == path@,
{
    FolioError::ClientNotFound { slug: String::from_str(slug), path: String::from_str(path) }
}

/// `InvoiceNotFound` for the invoice `id`.
pub fn invoice_not_found(id: &str) -> (r: FolioError)
    ensures
        r matches FolioError::InvoiceNotFound { id: i } && i@ == id@,
{
    FolioError::InvoiceNotFound { id: String::from_str(id) }
}

/// `QuoteNotFound` for the quote `id`.
pub fn quote_not_found(id: &str) -> (r: FolioError)
    ensures
        r matches FolioError::QuoteNotFound { id: i } && i@ == id@,
{
    FolioError::QuoteNotFound { id: String::from_str(id) }
}

/// A document file's text with a TOML block (`[sent]`, `[paid]`,
/// `[voided]`) written after it: the text already there is kept as it is,
/// a missing final newline is added, and a blank line comes before the
/// block.
pub open spec fn appended_text(text: Seq<char>, block: Seq<char>) -> Seq<char> {
    if text.len() == 0 {
        block
    } else if text.last() == '\n' {
        text + seq!['\n'] + block
    } else {
        text + seq!['\n', '\n'] + block
    }
}

/// Appends a block to a document file's text, keeping that text in place.
pub fn append_block(text: &str, block: &str) -> (r: String)
    ensures
        r@ == appended_text(text@, block@),
        r@.take(text@.len() as int) == text@,
        r@.skip(r@.len() - block@.len()) == block@,
{
    let c = chars_of(text);
    let mut r = String::from_str(text);
    if c.len() > 0 {
        if c[c.len() - 1] != '\n' {
            push_char(&mut r, '\n');
        }
        push_char(&mut r, '\n');
    }
    r.append(block);
    assert(r@ =~= appended_text(text@, block@));
    assert(r@.take(text@.len() as int) =~= text@);
    assert(r@.skip(r@.len() - block@.len()) =~= block@);
    r
}

} // verus!
