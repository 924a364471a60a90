//! `folio render`: a Markdown file to a styled PDF.
//!
//! Works outside a repository too.  The template is the `--template` flag,
//! else the frontmatter's, else `basic`; the PDF goes to `--output`, else
//! beside the input with a `.pdf` extension.
use vstd::prelude::*;
use crate::cmd::send::pdf_file_name;
use crate::paths::{file_stem_of, join_path, join_spec, parent_of, path_file_stem, path_parent};

verus! {

/// Arguments of `folio render`.
#[derive(Clone, Debug)]
pub struct RenderArgs {
    /// Path to the Markdown file to render.
    pub file: String,
    /// Output PDF path (defaults to the input's directory, with `.pdf`).
    pub output: Option<String>,
    /// Template to use. Overrides frontmatter `template:`.
    pub template: Option<String>,
    /// Open the PDF after rendering.
    pub open: bool,
}

/// The template of a rendered file: the flag, else the frontmatter's, else `basic`.
pub fn render_template_name(flag: &Option<String>, frontmatter: &Option<String>) -> (r: String)
    ensures
        r@ == match flag {
            Some(t) => t@,
            None => match frontmatter {
                Some(t) => t@,
                None => "basic"@,
            },
        },
{
    match flag {
        Some(t) => t.clone(),
        None => match frontmatter {
            Some(t) => t.clone(),
            None => String::from_str("basic"),
        },
    }
}

/// Where the PDF of a rendered file goes.
pub open spec fn render_output_spec(file: Seq<char>, output: Option<Seq<char>>) -> Seq<char> {
    match output {
        Some(o) => o,
        None => {
            let stem = match path_file_stem(file) {
                Some(s) => s,
                None => Seq::empty(),
            };
            let dir = match path_parent(file) {
                Some(p) => p,
                None => "."@,
            };
            join_spec(dir, stem + ".pdf"@)
        },
    }
}

pub fn render_output_path(file: &str, output: &Option<String>) -> (r: String)
    ensures
        r@ == render_output_spec(file@, match output {
            Some(o) => Some(o@),
            None => None,
        }),
{
    match output {
        Some(o) => o.clone(),
        None => {
            let stem = match file_stem_of(file) {
                Some(s) => s,
                None => String::new(),
            };
            let dir = match parent_of(file) {
                Some(p) => p,
                None => String::from_str("."),
            };
            let name = pdf_file_name(stem.as_str());
            join_path(dir.as_str(), name.as_str())
        },
    }
}

} // verus!
