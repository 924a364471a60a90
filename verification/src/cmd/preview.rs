//! `folio preview`: the rendered HTML of an invoice, opened in a browser.
use vstd::prelude::*;

verus! {

/// Arguments of `folio preview`.
#[derive(Clone, Debug)]
pub struct PreviewArgs {
    /// Invoice ID to preview (e.g. `INV-2026-001`).
    pub id: String,
    /// Override the template for this preview only.
    pub template: Option<String>,
}

} // verus!
