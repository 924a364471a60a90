//! Locating the folio repository.
//!
//! The repository root is the nearest directory, starting from the current
//! one and going up through its parents, that holds a `folio.toml`.
//! Whether a directory holds one is a question for the file system; the
//! search itself is a step function that is told the answer for each
//! directory in turn.
use vstd::prelude::*;
use crate::paths::{join_path, join_spec, parent_of, path_parent};

verus! {

/// The name of the configuration file that marks a repository root.
pub open spec fn config_file_name() -> Seq<char> {
    "folio.toml"@
}

/// The file whose existence makes `dir` the repository root.
pub fn config_path(dir: &str) -> (r: String)
    ensures
        r@ == join_spec(dir@, config_file_name()),
{
    join_path(dir, "folio.toml")
}

/// The next move of the root search.
#[derive(Clone, Debug)]
pub enum RootSearch {
    /// `folio.toml` is here: this directory is the root.
    Found(String),
    /// Look in this directory next.
    Continue(String),
    /// There is no parent left to look in.
    NotFound,
}

/// One step of the root search in `current`, given whether
/// `current/folio.toml` exists: stop here when it does, else go to the
/// parent, else give up.
pub fn find_root(current: &str, has_config: bool) -> (r: RootSearch)
    ensures
        has_config ==> (r matches RootSearch::Found(d) && d@ == current@),
        !has_config ==> match path_parent(current@) {
            Some(p) => (r matches RootSearch::Continue(d) && d@ == p && d@.len() < current@.len()),
            None => r is NotFound,
        },
{
    if has_config {
        return RootSearch::Found(String::from_str(current));
    }
    match parent_of(current) {
        Some(p) => RootSearch::Continue(p),
        None => RootSearch::NotFound,
    }
}

} // verus!
