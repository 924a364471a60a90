//! `folio invoice`: the invoice subcommands under one group.
use vstd::prelude::*;
use crate::cmd::builds::BuildArgs;
use crate::cmd::list::ListArgs;
use crate::cmd::new::NewArgs;
use crate::cmd::paid::PaidArgs;
use crate::cmd::preview::PreviewArgs;
use crate::cmd::send::SendArgs;
use crate::cmd::summary::SummaryArgs;
use crate::cmd::void::VoidArgs;

verus! {

/// Arguments of `folio invoice`.
#[derive(Clone, Debug)]
pub struct InvoiceArgs {
    pub command: InvoiceCommand,
}

/// The subcommands of `folio invoice`.
#[derive(Clone, Debug)]
pub enum InvoiceCommand {
    /// Create a new invoice interactively.
    New(NewArgs),
    /// List invoices in a colour-coded table.
    List(ListArgs),
    /// Render one or more invoices to PDF.
    Build(BuildArgs),
    /// Send an invoice by email and record the [sent] block.
    Send(SendArgs),
    /// Mark an invoice as paid.
    Paid(PaidArgs),
    /// Void an invoice.
    Void(VoidArgs),
    /// Open the rendered invoice HTML in the default browser.
    Preview(PreviewArgs),
    /// Show an aggregate financial summary.
    Summary(SummaryArgs),
}

} // verus!
