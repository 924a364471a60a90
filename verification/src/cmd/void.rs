//! `folio void`: void an invoice.
use vstd::prelude::*;
use crate::date::Date;
use crate::types::{Invoice, VoidedInfo};

verus! {

/// Arguments of `folio void`.
#[derive(Clone, Debug)]
pub struct VoidArgs {
    /// Invoice ID to void.
    pub id: String,
    /// Why the invoice is voided.
    pub reason: Option<String>,
}

/// Writes the `[voided]` block, replacing any earlier one; nothing else changes.
pub fn record_void(invoice: Invoice, at: Date, reason: Option<String>) -> (r: Invoice)
    ensures
        r == (Invoice { voided: Some(VoidedInfo { at, reason }), ..invoice }),
{
    let mut invoice = invoice;
    invoice.voided = Some(VoidedInfo { at, reason });
    invoice
}

} // verus!
