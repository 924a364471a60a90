//! `folio templates`: list the templates, or export a bundled one.
use vstd::prelude::*;

verus! {

/// Arguments of `folio templates`.
#[derive(Clone, Debug)]
pub struct TemplatesArgs {
    pub command: Option<TemplatesCommands>,
}

/// The subcommands of `folio templates`.
#[derive(Clone, Debug)]
pub enum TemplatesCommands {
    /// Copy a bundled template into a directory for customising.
    Export { name: String, output: String },
}

} // verus!
