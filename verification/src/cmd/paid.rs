//! `folio paid`: record a payment against an invoice.
//!
//! The `[paid]` block holds the payment date, amount, method and an
//! optional reference.  The amount defaults to the invoice total; an
//! invoice can be marked paid only once.
use vstd::prelude::*;
use crate::date::Date;
use crate::decimal::Decimal;
use crate::error::FolioError;
use crate::types::{Invoice, PaidInfo};

verus! {

/// Arguments of `folio paid`.
#[derive(Clone, Debug)]
pub struct PaidArgs {
    /// Invoice ID to mark as paid (e.g. `INV-2026-001`).
    pub id: String,
    /// Payment amount (defaults to the invoice total).
    pub amount: Option<Decimal>,
    /// Payment method (e.g. `bank_transfer`, `paypal`).
    pub method: Option<String>,
    /// Payment reference or transaction ID.
    pub reference: Option<String>,
    /// Payment date in `YYYY-MM-DD` format (defaults to today).
    pub date: Option<String>,
}

/// The amount recorded: the one given, or else the invoice total.
pub open spec fn payment_amount(amount: Option<Decimal>, total: Decimal) -> Decimal {
    match amount {
        Some(a) => a,
        None => total,
    }
}

/// Writes the `[paid]` block on an invoice that has none.
///
/// Fails with `AlreadyPaid` exactly when the invoice already carries one;
/// otherwise only the `[paid]` block changes.
pub fn record_payment(
    invoice: Invoice,
    total: Decimal,
    amount: Option<Decimal>,
    at: Date,
    method: Option<String>,
    reference: Option<String>,
) -> (r: Result<Invoice, FolioError>)
    ensures
        invoice.paid is Some <==> r is Err,
        r matches Err(e) ==> (e matches FolioError::AlreadyPaid { id } && id@ == invoice.id@),
        r matches Ok(inv) ==> inv == (Invoice {
            paid: Some(PaidInfo { at, amount: payment_amount(amount, total), method, reference }),
            ..invoice
        }),
        // A given amount is recorded as given; only without one is the total.
        r matches Ok(inv) ==> (amount matches Some(a) ==> inv.paid->0.amount == a),
        r matches Ok(inv) ==> (amount is None ==> inv.paid->0.amount == total),
{
    if invoice.paid.is_some() {
        return Err(FolioError::AlreadyPaid { id: invoice.id.clone() });
    }
    let value = match amount {
        Some(a) => a,
        None => total,
    };
    let mut invoice = invoice;
    invoice.paid = Some(PaidInfo { at, amount: value, method, reference });
    Ok(invoice)
}

/// The amount recorded is the one the user gives, whatever the invoice
/// total; the total is recorded only when no amount is given.  So a payment
/// below the total is kept as such (and the invoice shows as partially
/// paid).
pub proof fn law_given_amount_is_recorded(amount: Option<Decimal>, total: Decimal, other_total: Decimal)
    ensures
        amount matches Some(a) ==> payment_amount(amount, total) == a,
        amount is Some ==> payment_amount(amount, total) == payment_amount(amount, other_total),
        amount is None ==> payment_amount(amount, total) == total,
{
}

} // verus!
