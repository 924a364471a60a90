//! `folio build`: which invoices a build covers and when one is skipped.
//!
//! A build names one ID, or selects invoices by year and client (`--all`
//! selects them all).  A document is skipped when its recorded source hash
//! matches and its PDF exists, unless `--force` is given.  An ID with no
//! invoice file but a quote file is built as a quote.
use vstd::prelude::*;
use crate::error::FolioError;
use crate::index::PdfState;
use crate::paths::{join_path, join_spec};
use crate::cmd::send::pdf_file_name;
use crate::types::InvoiceFilter;

verus! {

/// Arguments of `folio build`.
#[derive(Clone, Debug)]
pub struct BuildArgs {
    /// Invoice ID to build (e.g. `INV-2026-001`).
    pub id: Option<String>,
    /// Build all invoices.
    pub all: bool,
    /// Build all invoices for the given year.
    pub year: Option<i32>,
    /// Build all invoices for the given client slug.
    pub client: Option<String>,
    /// Build invoices matching the given status.
    pub status: Option<String>,
    /// Rebuild even if the source hash is unchanged.
    pub force: bool,
    /// Open the PDF in the default viewer after building.
    pub open: bool,
    /// Override the template for this build only.
    pub template: Option<String>,
    /// Write the PDF to this path instead of `output/{id}.pdf`.
    pub output: Option<String>,
}

/// What a build covers.
#[derive(Clone, Debug)]
pub enum BuildTarget {
    /// The one document with this ID.
    One(String),
    /// Every invoice the filter selects.
    Selected(InvoiceFilter),
}

/// The build target: the ID when given; else, when any of `--all`,
/// `--year`, `--client` or `--status` is given, the invoices of the year
/// and client given (the status selects nothing by itself); else an error.
pub fn build_target(args: &BuildArgs) -> (r: Result<BuildTarget, FolioError>)
    ensures
        match args.id {
            Some(id) => r matches Ok(BuildTarget::One(x)) && x@ == id@,
            None => if args.all || args.year is Some || args.client is Some || args.status is Some {
                r matches Ok(BuildTarget::Selected(f)) && f.year == args.year
                    && f.client == args.client && f.status is None
            } else {
                r matches Err(FolioError::Other(m)) && m@ == "Specify an invoice ID, --all, --year, or --client"@
            },
        },
{
    match &args.id {
        Some(id) => Ok(BuildTarget::One(id.clone())),
        None => {
            if args.all || args.year.is_some() || args.client.is_some() || args.status.is_some() {
                Ok(BuildTarget::Selected(InvoiceFilter { year: args.year, client: args.client.clone(), status: None }))
            } else {
                Err(FolioError::Other(String::from_str("Specify an invoice ID, --all, --year, or --client")))
            }
        },
    }
}

/// An ID is built as a quote when there is no invoice file for it but a
/// quote file.
pub fn builds_as_quote(invoice_exists: bool, quote_exists: bool) -> (r: bool)
    ensures
        r == (!invoice_exists && quote_exists),
{
    !invoice_exists && quote_exists
}

/// The template used: the override when given, else the resolved one.
pub fn template_choice(template_override: &Option<String>, resolved: &str) -> (r: String)
    ensures
        r@ == match template_override {
            Some(t) => t@,
            None => resolved@,
        },
{
    match template_override {
        Some(t) => t.clone(),
        None => String::from_str(resolved),
    }
}

/// A build is skipped when it is not forced, the recorded hash matches
/// and the PDF is on disk.
pub fn up_to_date(force: bool, state: PdfState, pdf_exists: bool) -> (r: bool)
    ensures
        r == (!force && state == PdfState::Fresh && pdf_exists),
{
    !force && state == PdfState::Fresh && pdf_exists
}

/// Where an invoice's PDF goes: `--output` when given, else
/// `<output_dir>/{id}.pdf`.
pub fn invoice_output_path(output: &Option<String>, output_dir: &str, id: &str) -> (r: String)
    ensures
        r@ == match output {
            Some(o) => o@,
            None => join_spec(output_dir@, id@ + ".pdf"@),
        },
{
    match output {
        Some(o) => o.clone(),
        None => {
            let name = pdf_file_name(id);
            join_path(output_dir, name.as_str())
        },
    }
}

} // verus!
