//! Paths, held as UTF-8 strings with `/` separators.
//!
//! This is the Unix path model: `/` is the only separator.  Joining follows
//! `PathBuf::push` on Unix, written out here; taking a prefix off, changing
//! an extension and finding a parent go through `std::path`, whose
//! component rules are long, and the names below stand for what `std` does
//! on Unix targets.
use vstd::prelude::*;
use crate::text::{chars_of, opt_view, push_char};

verus! {

/// `base.join(part)`: an absolute `part` replaces `base`; otherwise `part`
/// is appended, after a `/` unless `base` is empty or already ends in one.
pub open spec fn join_spec(base: Seq<char>, part: Seq<char>) -> Seq<char> {
    if part.len() > 0 && part[0] == '/' {
        part
    } else if base.len() > 0 && base.last() != '/' {
        base + seq!['/'] + part
    } else {
        base + part
    }
}

/// An absolute path: one that begins at the root `/` (`Path::is_absolute`
/// on Unix).
pub open spec fn is_absolute_path(p: Seq<char>) -> bool {
    p.len() > 0 && p[0] == '/'
}

/// Joins a path component onto a base path, as `Path::join` does on Unix.
pub fn join_path(base: &str, part: &str) -> (r: String)
    ensures
        r@ == join_spec(base@, part@),
{
    let b = chars_of(base);
    let p = chars_of(part);
    if p.len() > 0 && p[0] == '/' {
        return String::from_str(part);
    }
    let mut r = String::from_str(base);
    if b.len() > 0 && b[b.len() - 1] != '/' {
        push_char(&mut r, '/');
    }
    r.append(part);
    r
}


/// Joins a path onto a base with `Path::join`, for the facts `std` gives
/// of the joined path.
///
/// Trusted: on Unix, `Path::join` (through `PathBuf::push`) replaces the
/// base by an absolute `part` and otherwise appends `part` after a `/`
/// when the base is nonempty and does not end in one ([`join_spec`]).  The
/// components of a relative `part` follow those of `base`, so the result
/// starts with `base`, and its last component, hence its file stem and
/// extension, is that of `part` when `part` has a file name.
#[verifier::external_body]
pub(crate) fn joined(base: &str, part: &str) -> (r: String)
    ensures
        r@ == join_spec(base@, part@),
        !is_absolute_path(part@) ==> path_has_prefix(r@, base@),
        (!is_absolute_path(part@) && path_file_stem(part@) is Some) ==> path_file_stem(r@) == path_file_stem(part@)
            && path_extension(r@) == path_extension(part@),
{
    std::path::Path::new(base).join(part).to_string_lossy().into_owned()
}

/// `path.strip_prefix(base)` from `std::path`: the rest of `path` after the
/// components of `base`, or `None` when `base` is not a prefix.
pub uninterp spec fn path_strip_prefix(path: Seq<char>, base: Seq<char>) -> Option<Seq<char>>;

/// `a == b` for `std::path::Path`: the two paths have the same components.
pub uninterp spec fn same_path(a: Seq<char>, b: Seq<char>) -> bool;

/// Takes a leading base off a path, with `Path::strip_prefix`.
///
/// Trusted: the result is `std`'s (named by [`path_strip_prefix`]); it is
/// valid UTF-8 because both inputs are.  As `std` documents, there is a
/// result exactly when `path.starts_with(base)`, and joined onto `base` it
/// gives back `path`.  Below a nonempty base, what is left starts after the
/// base's last component, so it is a relative path.
#[verifier::external_body]
pub(crate) fn strip_path_prefix(path: &str, base: &str) -> (r: Option<String>)
    ensures
        opt_view(r) == path_strip_prefix(path@, base@),
        r is Some <==> path_has_prefix(path@, base@),
        r matches Some(rel) ==> same_path(join_spec(base@, rel@), path@),
        r matches Some(rel) ==> (base@.len() > 0 ==> !is_absolute_path(rel@)),
{
    match std::path::Path::new(path).strip_prefix(base) {
        Ok(p) => Some(p.to_string_lossy().into_owned()),
        Err(_) => None,
    }
}

/// `path.with_extension(ext)` from `std::path`.
pub uninterp spec fn path_with_extension(path: Seq<char>, ext: Seq<char>) -> Seq<char>;

/// An extension that `Path::set_extension` accepts without panicking: it
/// holds no path separator (`/`, nor `\\`, a separator on Windows).
pub open spec fn valid_extension(ext: Seq<char>) -> bool {
    forall|i: int| 0 <= i < ext.len() ==> ext[i] != '/' && ext[i] != '\\'
}

/// Replaces a path's extension, with `Path::with_extension`.
///
/// Trusted: the result is `std`'s (named by [`path_with_extension`]).  As
/// `std` documents, a path without a file name is left as it is; otherwise
/// a nonempty extension without `.` becomes the extension, and the file
/// stem stays; only the file name changes, so the path stays absolute or
/// relative.  `std` panics on an extension holding a separator, which the
/// precondition rules out.
#[verifier::external_body]
pub(crate) fn with_extension(path: &str, ext: &str) -> (r: String)
    requires
        valid_extension(ext@),
    ensures
        r@ == path_with_extension(path@, ext@),
        path_file_stem(path@) is None ==> r@ == path@,
        (path_file_stem(path@) is Some && ext@.len() > 0 && !ext@.contains('.')) ==> path_extension(r@) == Some(ext@)
            && path_file_stem(r@) == path_file_stem(path@),
        is_absolute_path(r@) == is_absolute_path(path@),
{
    std::path::Path::new(path).with_extension(ext).to_string_lossy().into_owned()
}

/// `path.parent()` from `std::path`: the path without its last component,
/// or `None` for a root or an empty path.
pub uninterp spec fn path_parent(path: Seq<char>) -> Option<Seq<char>>;

/// The parent of a path, with `Path::parent`.
///
/// Trusted: the result is `std`'s (named by [`path_parent`]); a parent is
/// always a prefix of the path, hence shorter.
#[verifier::external_body]
pub(crate) fn parent_of(path: &str) -> (r: Option<String>)
    ensures
        opt_view(r) == path_parent(path@),
        r matches Some(p) ==> p@.len() < path@.len(),
{
    match std::path::Path::new(path).parent() {
        Some(p) => Some(p.to_string_lossy().into_owned()),
        None => None,
    }
}

/// `path.file_stem()` from `std::path`: the last component without its
/// extension, or `None` when the path has no file name.
pub uninterp spec fn path_file_stem(path: Seq<char>) -> Option<Seq<char>>;

/// The file stem of a path, with `Path::file_stem`.
///
/// Trusted: the result is `std`'s (named by [`path_file_stem`]).
#[verifier::external_body]
pub(crate) fn file_stem_of(path: &str) -> (r: Option<String>)
    ensures
        opt_view(r) == path_file_stem(path@),
{
    match std::path::Path::new(path).file_stem() {
        Some(s) => Some(s.to_string_lossy().into_owned()),
        None => None,
    }
}

/// `path.extension()` from `std::path`: the part of the file name after its
/// last `.`, or `None` when there is none.
pub uninterp spec fn path_extension(path: Seq<char>) -> Option<Seq<char>>;

/// The extension of a path, with `Path::extension`.
///
/// Trusted: the result is `std`'s (named by [`path_extension`]).
#[verifier::external_body]
pub(crate) fn extension_of(path: &str) -> (r: Option<String>)
    ensures
        opt_view(r) == path_extension(path@),
{
    match std::path::Path::new(path).extension() {
        Some(s) => Some(s.to_string_lossy().into_owned()),
        None => None,
    }
}

/// `path.starts_with(base)` from `std::path`: whole components of `base`
/// begin `path`.
pub uninterp spec fn path_has_prefix(path: Seq<char>, base: Seq<char>) -> bool;

/// Does `path` begin with the components of `base`? With `Path::starts_with`.
///
/// Trusted: the result is `std`'s (named by [`path_has_prefix`]).
#[verifier::external_body]
pub(crate) fn path_starts_with(path: &str, base: &str) -> (r: bool)
    ensures
        r == path_has_prefix(path@, base@),
{
    std::path::Path::new(path).starts_with(base)
}

/// The order `sort` gives a list of paths, comparing them component by
/// component as `Ord for Path` does.
pub uninterp spec fn sorted_paths(paths: Seq<Seq<char>>) -> Seq<Seq<char>>;

/// `a <= b` for `std::path::Path`: the components of `a` come no later,
/// compared one by one, than those of `b`.
pub uninterp spec fn path_le(a: Seq<char>, b: Seq<char>) -> bool;

/// The characters of each string.
pub open spec fn views(v: Seq<String>) -> Seq<Seq<char>> {
    v.map_values(|s: String| s@)
}

/// Sorts paths with `slice::sort` on `PathBuf`s.
///
/// Trusted: the order is `std`'s (named by [`sorted_paths`]); as `sort`
/// documents, the result is ascending in the `Ord` of `Path` (named by
/// [`path_le`]), and a sort only reorders, so the same paths come out, as
/// many times each.
#[verifier::external_body]
pub(crate) fn sort_paths(paths: Vec<String>) -> (r: Vec<String>)
    ensures
        views(r@) == sorted_paths(views(paths@)),
        forall|i: int, j: int| 0 <= i < j < r@.len() ==> path_le(#[trigger] views(r@)[i], #[trigger] views(r@)[j]),
        views(r@).to_multiset() == views(paths@).to_multiset(),
{
    let mut v: Vec<std::path::PathBuf> = paths.into_iter().map(std::path::PathBuf::from).collect();
    v.sort();
    v.into_iter().map(|p| p.to_string_lossy().into_owned()).collect()
}

} // verus!
