//! `folio list`: which documents a listing shows and how each row looks.
//!
//! PDF state indicators: `✓` up to date, `~` stale, `—` never built.
//! The status filter `unpaid` matches the invoice statuses `draft`, `sent`
//! and `overdue`; any other filter matches the status of that name.
use vstd::prelude::*;
use crate::index::PdfState;
use crate::text::same_text;
use crate::types::{invoice_status_name, quote_status_name, InvoiceStatus, QuoteStatus};

verus! {

/// Arguments of `folio list`.
#[derive(Clone, Debug)]
pub struct ListArgs {
    /// Show only documents for the given year.
    pub year: Option<i32>,
    /// Show only documents for the given client slug.
    pub client: Option<String>,
    /// Show only documents with the given status (or `unpaid`).
    pub status: Option<String>,
    /// Document type to list: `invoice`, `quote`, or `all` (the default).
    pub doc_type: String,
}

/// Which documents a listing covers.
#[derive(Clone, Copy, Debug, PartialEq, Eq, Structural)]
pub enum ListKind {
    Invoices,
    Quotes,
    All,
}

/// `invoice` lists invoices, `quote` quotes, anything else both.
pub open spec fn list_kind_spec(doc_type: Seq<char>) -> ListKind {
    if doc_type == "invoice"@ {
        ListKind::Invoices
    } else if doc_type == "quote"@ {
        ListKind::Quotes
    } else {
        ListKind::All
    }
}

pub fn list_kind(doc_type: &str) -> (r: ListKind)
    ensures
        r == list_kind_spec(doc_type@),
{
    if same_text(doc_type, "invoice") {
        ListKind::Invoices
    } else if same_text(doc_type, "quote") {
        ListKind::Quotes
    } else {
        ListKind::All
    }
}

/// Does an invoice with this status pass the status filter?
pub open spec fn invoice_selected_spec(status: InvoiceStatus, filter: Option<Seq<char>>) -> bool {
    match filter {
        None => true,
        Some(f) => if f == "unpaid"@ {
            status == InvoiceStatus::Draft || status == InvoiceStatus::Sent || status == InvoiceStatus::Overdue
        } else {
            invoice_status_name(status) == f
        },
    }
}

pub fn invoice_status_selected(status: InvoiceStatus, filter: &Option<String>) -> (r: bool)
    ensures
        r == invoice_selected_spec(status, match filter {
            Some(f) => Some(f@),
            None => None,
        }),
{
    match filter {
        None => true,
        Some(f) => if same_text(f.as_str(), "unpaid") {
            match status {
                InvoiceStatus::Draft | InvoiceStatus::Sent | InvoiceStatus::Overdue => true,
                _ => false,
            }
        } else {
            let name = status.to_string();
            same_text(name.as_str(), f.as_str())
        },
    }
}

/// Does a quote with this status pass the status filter?
pub open spec fn quote_selected_spec(status: QuoteStatus, filter: Option<Seq<char>>) -> bool {
    match filter {
        None => true,
        Some(f) => quote_status_name(status) == f,
    }
}

pub fn quote_status_selected(status: QuoteStatus, filter: &Option<String>) -> (r: bool)
    ensures
        r == quote_selected_spec(status, match filter {
            Some(f) => Some(f@),
            None => None,
        }),
{
    match filter {
        None => true,
        Some(f) => {
            let name = status.to_string();
            same_text(name.as_str(), f.as_str())
        },
    }
}

/// The mark shown for a PDF state.
pub open spec fn pdf_indicator_spec(state: PdfState) -> Seq<char> {
    match state {
        PdfState::Fresh => "✓"@,
        PdfState::Stale => "~"@,
        PdfState::NeverBuilt => "—"@,
    }
}

pub fn pdf_indicator(state: PdfState) -> (r: String)
    ensures
        r@ == pdf_indicator_spec(state),
{
    match state {
        PdfState::Fresh => String::from_str("✓"),
        PdfState::Stale => String::from_str("~"),
        PdfState::NeverBuilt => String::from_str("—"),
    }
}

/// How a table row is coloured.
#[derive(Clone, Copy, Debug, PartialEq, Eq, Structural)]
pub enum RowColor {
    Red,
    Yellow,
    Green,
    Dimmed,
    Plain,
}

/// Invoices: overdue red, sent yellow, paid green, draft dimmed, the rest plain.
pub fn invoice_row_color(status: InvoiceStatus) -> (r: RowColor)
    ensures
        r == match status {
            InvoiceStatus::Overdue => RowColor::Red,
            InvoiceStatus::Sent => RowColor::Yellow,
            InvoiceStatus::Paid => RowColor::Green,
            InvoiceStatus::Draft => RowColor::Dimmed,
            _ => RowColor::Plain,
        },
{
    match status {
        InvoiceStatus::Overdue => RowColor::Red,
        InvoiceStatus::Sent => RowColor::Yellow,
        InvoiceStatus::Paid => RowColor::Green,
        InvoiceStatus::Draft => RowColor::Dimmed,
        _ => RowColor::Plain,
    }
}

/// Quotes: expired red, sent yellow, accepted green, draft and declined dimmed.
pub fn quote_row_color(status: QuoteStatus) -> (r: RowColor)
    ensures
        r == match status {
            QuoteStatus::Expired => RowColor::Red,
            QuoteStatus::Sent => RowColor::Yellow,
            QuoteStatus::Accepted => RowColor::Green,
            QuoteStatus::Draft | QuoteStatus::Declined => RowColor::Dimmed,
        },
{
    match status {
        QuoteStatus::Expired => RowColor::Red,
        QuoteStatus::Sent => RowColor::Yellow,
        QuoteStatus::Accepted => RowColor::Green,
        QuoteStatus::Draft | QuoteStatus::Declined => RowColor::Dimmed,
    }
}

} // verus!
