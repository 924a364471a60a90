//! Paths of client-scoped Markdown documents.
//!
//! Documents live at `<clients_dir>/<slug>/documents/**/*.md`.
//! Their PDFs are mirrored under `<output_dir>/clients/<slug>/documents/**/*.pdf`.
use vstd::prelude::*;
use crate::paths::{
    extension_of, is_absolute_path, join_path, join_spec, joined, path_extension, path_file_stem, path_has_prefix, path_le, path_strip_prefix,
    path_with_extension, same_path, sort_paths, sorted_paths, strip_path_prefix, valid_extension, views, with_extension,
};
use crate::text::same_text;

verus! {

/// `<clients_dir>/<slug>/documents`.
pub open spec fn documents_dir_spec(clients_dir: Seq<char>, slug: Seq<char>) -> Seq<char> {
    join_spec(join_spec(clients_dir, slug), "documents"@)
}

/// Return the `documents/` directory for a client.
pub fn documents_dir(clients_dir: &str, slug: &str) -> (r: String)
    ensures
        r@ == documents_dir_spec(clients_dir@, slug@),
{
    let client = join_path(clients_dir, slug);
    join_path(client.as_str(), "documents")
}

/// Compute the mirrored output PDF path for a source `.md` file.
///
/// The relative path of `source` under `clients_dir` is reproduced under
/// `output_dir/clients/`, with the extension changed to `.pdf` (a source
/// outside `clients_dir` is taken whole).
///
/// Example:
/// - `clients_dir` = `<root>/clients`
/// - `source`      = `<root>/clients/acme/documents/proposals/q3.md`
/// - `output_dir`  = `<root>/output`
/// - result        = `<root>/output/clients/acme/documents/proposals/q3.pdf`
pub fn doc_output_path(source: &str, clients_dir: &str, output_dir: &str) -> (r: String)
    ensures
        r@ == join_spec(
            join_spec(output_dir@, "clients"@),
            path_with_extension(
                match path_strip_prefix(source@, clients_dir@) {
                    Some(rel) => rel,
                    None => source@,
                },
                "pdf"@,
            ),
        ),
        // A source under `clients_dir` is mirrored: its relative path joined
        // back onto `clients_dir` is the source.
        path_has_prefix(source@, clients_dir@)
            ==> same_path(join_spec(clients_dir@, path_strip_prefix(source@, clients_dir@)->0), source@),
        // The PDF of a file under a nonempty `clients_dir` lies under
        // `output_dir/clients`, has the extension `pdf` and keeps the
        // source's file stem.
        (path_has_prefix(source@, clients_dir@) && clients_dir@.len() > 0
            && path_file_stem(path_strip_prefix(source@, clients_dir@)->0) is Some) ==> {
            &&& path_has_prefix(r@, join_spec(output_dir@, "clients"@))
            &&& path_extension(r@) == Some("pdf"@)
            &&& path_file_stem(r@) == path_file_stem(path_strip_prefix(source@, clients_dir@)->0)
        },
{
    let rel = match strip_path_prefix(source, clients_dir) {
        Some(r) => r,
        None => String::from_str(source),
    };
    proof {
        reveal_strlit("pdf");
        assert(!"pdf"@.contains('.')) by {
            assert("pdf"@[0] != '.' && "pdf"@[1] != '.' && "pdf"@[2] != '.');
        }
    }
    let pdf_rel = with_extension(rel.as_str(), "pdf");
    let base = join_path(output_dir, "clients");
    joined(base.as_str(), pdf_rel.as_str())
}

/// Return the path of a source `.md` relative to a client's `documents/` dir.
///
/// Used for display purposes. Falls back to the full path if stripping fails.
pub fn doc_rel_path(source: &str, clients_dir: &str, slug: &str) -> (r: String)
    ensures
        r@ == match path_strip_prefix(source@, documents_dir_spec(clients_dir@, slug@)) {
            Some(rel) => rel,
            None => source@,
        },
        // Under the documents directory, the result is a relative path that,
        // joined back onto it, is the source (equal as `Path`s); elsewhere it
        // is the source itself.
        path_has_prefix(source@, documents_dir_spec(clients_dir@, slug@)) ==> {
            &&& !is_absolute_path(r@)
            &&& same_path(join_spec(documents_dir_spec(clients_dir@, slug@), r@), source@)
        },
        !path_has_prefix(source@, documents_dir_spec(clients_dir@, slug@)) ==> r@ == source@,
{
    let docs_dir = documents_dir(clients_dir, slug);
    proof {
        reveal_strlit("documents");
        assert(docs_dir@.len() > 0) by {
            let c = join_spec(clients_dir@, slug@);
            assert("documents"@.len() == 9);
            assert("documents"@[0] == 'd');
        }
    }
    match strip_path_prefix(source, docs_dir.as_str()) {
        Some(r) => r,
        None => String::from_str(source),
    }
}

/// Is this the path of a Markdown document, one whose extension is `md`?
pub open spec fn is_markdown(path: Seq<char>) -> bool {
    path_extension(path) == Some("md"@)
}

/// The Markdown documents among the first `n` paths, in order.
pub open spec fn markdown_among(paths: Seq<Seq<char>>, n: int) -> Seq<Seq<char>>
    decreases n,
{
    if n <= 0 {
        Seq::empty()
    } else if is_markdown(paths[n - 1]) {
        markdown_among(paths, n - 1).push(paths[n - 1])
    } else {
        markdown_among(paths, n - 1)
    }
}

/// The paths among the first `n` are exactly those in `markdown_among`.
proof fn lemma_markdown_among_contains(paths: Seq<Seq<char>>, n: int, x: Seq<char>)
    requires
        0 <= n <= paths.len(),
    ensures
        markdown_among(paths, n).contains(x) <==> (is_markdown(x) && exists|i: int| 0 <= i < n && paths[i] == x),
    decreases n,
{
    if n > 0 {
        lemma_markdown_among_contains(paths, n - 1, x);
        let prev = markdown_among(paths, n - 1);
        if is_markdown(paths[n - 1]) {
            assert(markdown_among(paths, n) == prev.push(paths[n - 1]));
            if x == paths[n - 1] {
                assert(prev.push(paths[n - 1])[prev.len() as int] == x);
            }
            let next = prev.push(paths[n - 1]);
            if next.contains(x) && x != paths[n - 1] {
                let k = choose|k: int| 0 <= k < next.len() && #[trigger] next[k] == x;
                assert(prev[k] == x);
            }
            if prev.contains(x) {
                let k = choose|k: int| 0 <= k < prev.len() && #[trigger] prev[k] == x;
                assert(next[k] == x);
            }
        }
        if is_markdown(x) && (exists|i: int| 0 <= i < n && paths[i] == x) {
            let i = choose|i: int| 0 <= i < n && paths[i] == x;
            if i < n - 1 {
                assert(exists|j: int| 0 <= j < n - 1 && paths[j] == x);
            }
        }
    }
}

/// Taking the Markdown paths of a list with no repeats gives none.
proof fn lemma_markdown_among_no_duplicates(paths: Seq<Seq<char>>, n: int)
    requires
        0 <= n <= paths.len(),
        paths.no_duplicates(),
    ensures
        markdown_among(paths, n).no_duplicates(),
    decreases n,
{
    if n > 0 {
        lemma_markdown_among_no_duplicates(paths, n - 1);
        let prev = markdown_among(paths, n - 1);
        if is_markdown(paths[n - 1]) {
            lemma_markdown_among_contains(paths, n - 1, paths[n - 1]);
            let next = prev.push(paths[n - 1]);
            assert forall|i: int, j: int| 0 <= i < next.len() && 0 <= j < next.len() && i != j implies next[i] != next[j] by {
                if i == prev.len() || j == prev.len() {
                    let k = if i == prev.len() { j } else { i };
                    assert(prev[k] == next[k]);
                    if prev[k] == paths[n - 1] {
                        assert(prev.contains(paths[n - 1]));
                    }
                } else {
                    assert(prev[i] == next[i] && prev[j] == next[j]);
                }
            }
        }
    }
}

/// Two lists with the same elements, as many times each, have repeats together.
proof fn lemma_same_multiset_no_duplicates(a: Seq<Seq<char>>, b: Seq<Seq<char>>)
    requires
        a.to_multiset() == b.to_multiset(),
        a.no_duplicates(),
    ensures
        b.no_duplicates(),
{
    a.lemma_multiset_has_no_duplicates();
    b.lemma_multiset_has_no_duplicates_conv();
}

/// No two of the paths, at different places, name the same file: they
/// differ as strings and as `Path`s.  A directory walk finds each file once.
pub open spec fn distinct_paths(s: Seq<Seq<char>>) -> bool {
    &&& s.no_duplicates()
    &&& forall|i: int, j: int| 0 <= i < s.len() && 0 <= j < s.len() && i != j ==> !same_path(#[trigger] s[i], #[trigger] s[j])
}

/// The `.md` files among the files found under a client's `documents/`
/// directory, sorted by path for a deterministic order: ascending in the
/// order of `Path`, each of the Markdown files found, and no other, and no
/// path twice when none was found twice.  When the files found are distinct
/// paths, the order is strictly ascending; when they are absolute, so are
/// the paths listed.
pub fn list_docs(found: &Vec<String>) -> (r: Vec<String>)
    ensures
        views(r@) == sorted_paths(markdown_among(views(found@), found@.len() as int)),
        forall|i: int, j: int| 0 <= i < j < r@.len() ==> path_le(#[trigger] views(r@)[i], #[trigger] views(r@)[j]),
        views(r@).to_multiset() == markdown_among(views(found@), found@.len() as int).to_multiset(),
        forall|x: Seq<char>| views(r@).contains(x) <==> (is_markdown(x) && views(found@).contains(x)),
        views(found@).no_duplicates() ==> views(r@).no_duplicates(),
        distinct_paths(views(found@)) ==> forall|i: int, j: int| 0 <= i < j < r@.len()
            ==> path_le(#[trigger] views(r@)[i], #[trigger] views(r@)[j]) && !same_path(views(r@)[i], views(r@)[j]),
        (forall|k: int| 0 <= k < found@.len() ==> is_absolute_path(#[trigger] found@[k]@))
            ==> forall|i: int| 0 <= i < r@.len() ==> is_absolute_path(#[trigger] r@[i]@),
{
    let mut docs: Vec<String> = Vec::new();
    let mut i: usize = 0;
    while i < found.len()
        invariant
            0 <= i <= found.len(),
            views(docs@) == markdown_among(views(found@), i as int),
        decreases found.len() - i,
    {
        let ext = extension_of(found[i].as_str());
        let md = match &ext {
            Some(e) => same_text(e.as_str(), "md"),
            None => false,
        };
        let ghost before = docs@;
        if md {
            docs.push(found[i].clone());
            assert(views(docs@) =~= views(before).push(found@[i as int]@));
        }
        i = i + 1;
    }
    let ghost chosen = views(docs@);
    let r = sort_paths(docs);
    proof {
        let all = views(found@);
        let n = found@.len() as int;
        assert forall|x: Seq<char>| #[trigger] views(r@).contains(x) <==> (is_markdown(x) && all.contains(x)) by {
            lemma_markdown_among_contains(all, n, x);
            assert(views(r@).to_multiset().count(x) == chosen.to_multiset().count(x));
            broadcast use vstd::seq_lib::group_to_multiset_ensures;
            if all.contains(x) {
                let k = choose|k: int| 0 <= k < all.len() && all[k] == x;
                assert(exists|i: int| 0 <= i < n && all[i] == x);
            }
            if exists|i: int| 0 <= i < n && all[i] == x {
                let k = choose|i: int| 0 <= i < n && all[i] == x;
                assert(all.contains(x));
            }
        }
        if all.no_duplicates() {
            lemma_markdown_among_no_duplicates(all, n);
            lemma_same_multiset_no_duplicates(chosen, views(r@));
        }
        let rv = views(r@);
        if distinct_paths(all) {
            assert forall|i: int, j: int| 0 <= i < j < r@.len() implies
                path_le(#[trigger] rv[i], #[trigger] rv[j]) && !same_path(rv[i], rv[j]) by {
                assert(rv.contains(rv[i]) && rv.contains(rv[j]));
                assert(views(r@).contains(rv[i]) && views(r@).contains(rv[j]));
                assert(all.contains(rv[i]) && all.contains(rv[j]));
                let k1 = choose|k: int| 0 <= k < all.len() && all[k] == rv[i];
                let k2 = choose|k: int| 0 <= k < all.len() && all[k] == rv[j];
                assert(rv[i] != rv[j]);
                assert(all[k1] == rv[i] && all[k2] == rv[j]);
            }
        }
        if forall|k: int| 0 <= k < found@.len() ==> is_absolute_path(#[trigger] found@[k]@) {
            assert forall|i: int| 0 <= i < r@.len() implies is_absolute_path(#[trigger] r@[i]@) by {
                assert(rv[i] == r@[i]@);
                assert(rv.contains(rv[i]));
                assert(views(r@).contains(rv[i]));
                assert(all.contains(rv[i]));
                let k = choose|k: int| 0 <= k < all.len() && all[k] == rv[i];
                assert(all[k] == found@[k]@);
            }
        }
    }
    r
}

} // verus!
