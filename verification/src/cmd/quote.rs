//! `folio quote`: the decisions of the quote subcommands.
//!
//! A quote is accepted once and declined once; accepting it with
//! `--convert` files a new invoice carrying the quote's client, currency,
//! template, colour, tax rate, notes and items, dated the day of acceptance.
use vstd::prelude::*;
use crate::cmd::send::{configured_body, configured_subject, email_body_setting, email_subject_setting, template_or};
use crate::date::Date;
use crate::error::FolioError;
use crate::text::concat3;
use crate::types::{copy_items, setting_or, AcceptedInfo, DeclinedInfo, FolioConfig, Invoice, Quote, SentInfo};

verus! {

/// Arguments of `folio quote`.
#[derive(Clone, Debug)]
pub struct QuoteArgs {
    pub command: QuoteCommand,
}

/// The subcommands of `folio quote`.
#[derive(Clone, Debug)]
pub enum QuoteCommand {
    /// Create a new quote interactively.
    New(QuoteNewArgs),
    /// List quotes in a colour-coded table.
    List(QuoteListArgs),
    /// Render a quote to PDF.
    Build(QuoteBuildArgs),
    /// Email a quote and record the [sent] block.
    Send(QuoteSendArgs),
    /// Mark a quote as accepted, optionally converting it to an invoice.
    Accept(QuoteAcceptArgs),
    /// Mark a quote as declined.
    Decline(QuoteDeclineArgs),
    /// Open the rendered quote HTML in the default browser.
    Preview(QuotePreviewArgs),
}

/// Arguments of `folio quote new`.
#[derive(Clone, Debug)]
pub struct QuoteNewArgs {
    /// Client slug (must match a file in `clients/`).
    pub client: Option<String>,
    /// Quote date in `YYYY-MM-DD` format (defaults to today).
    pub date: Option<String>,
}

/// Arguments of `folio quote list`.
#[derive(Clone, Debug)]
pub struct QuoteListArgs {
    /// Show only quotes for the given year.
    pub year: Option<i32>,
    /// Show only quotes for the given client slug.
    pub client: Option<String>,
    /// Filter by status: draft, sent, expired, accepted, declined.
    pub status: Option<String>,
}

/// Arguments of `folio quote build`.
#[derive(Clone, Debug)]
pub struct QuoteBuildArgs {
    /// Quote ID to build (e.g. `QUO-2026-001`).
    pub id: String,
    /// Rebuild even if the source hash is unchanged.
    pub force: bool,
    /// Open the PDF after building.
    pub open: bool,
    /// Override the template for this build only.
    pub template: Option<String>,
}

/// Arguments of `folio quote send`.
#[derive(Clone, Debug)]
pub struct QuoteSendArgs {
    /// Quote ID to send.
    pub id: String,
    /// Override the recipient email address.
    pub to: Option<String>,
    /// Preview without actually sending.
    pub dry_run: bool,
    /// Resend even if already sent.
    pub force: bool,
    /// Rebuild the PDF before sending.
    pub rebuild: bool,
    /// Record as sent without emailing (method = "manual").
    pub manual: bool,
}

/// Arguments of `folio quote accept`.
#[derive(Clone, Debug)]
pub struct QuoteAcceptArgs {
    /// Quote ID to accept.
    pub id: String,
    /// Convert to an invoice after accepting.
    pub convert: bool,
}

/// Arguments of `folio quote decline`.
#[derive(Clone, Debug)]
pub struct QuoteDeclineArgs {
    /// Quote ID to decline.
    pub id: String,
    /// Reason for declining.
    pub reason: Option<String>,
}

/// Arguments of `folio quote preview`.
#[derive(Clone, Debug)]
pub struct QuotePreviewArgs {
    /// Quote ID to preview.
    pub id: String,
    /// Override the template for this preview only.
    pub template: Option<String>,
}

/// A quote may be sent unless it was sent before and `force` is off.
pub fn check_quote_sendable(quote: &Quote, force: bool) -> (r: Result<(), FolioError>)
    ensures
        r is Err <==> (quote.sent is Some && !force),
        r matches Err(e) ==> (e matches FolioError::Other(m)
            && m@ == "Quote "@ + quote.id@ + " is already marked as sent — use --force to overwrite"@),
{
    if quote.sent.is_some() && !force {
        Err(FolioError::Other(concat3("Quote ", quote.id.as_str(), " is already marked as sent — use --force to overwrite")))
    } else {
        Ok(())
    }
}

/// The subject template of a quote email when none is configured.
pub open spec fn default_quote_subject() -> Seq<char> {
    "{{ document_type }} {{ invoice.id }} from {{ me.company }}"@
}

/// The body template of a quote email when none is configured.
pub open spec fn default_quote_body() -> Seq<char> {
    "Hi {{ client.contact }},\n\nPlease find attached {{ document_type | lower }} {{ invoice.id }}.\n\n{{ me.name }}\n"@
}

/// The subject and body templates of a quote email.  The subject is the
/// configured one or the default; the body is the template's own email
/// body when it has one, else the configured one, else the default.
pub fn quote_email_templates(config: &FolioConfig, template_email: Option<String>) -> (r: (String, String))
    ensures
        r.0@ == template_or(configured_subject(*config), default_quote_subject()),
        r.1@ == match template_email {
            Some(t) => t@,
            None => template_or(configured_body(*config), default_quote_body()),
        },
{
    let subject = match email_subject_setting(config) {
        Some(s) => s,
        None => String::from_str("{{ document_type }} {{ invoice.id }} from {{ me.company }}"),
    };
    let body = match template_email {
        Some(t) => t,
        None => match email_body_setting(config) {
            Some(b) => b,
            None => String::from_str(
                "Hi {{ client.contact }},\n\nPlease find attached {{ document_type | lower }} {{ invoice.id }}.\n\n{{ me.name }}\n",
            ),
        },
    };
    (subject, body)
}

/// Writes the `[sent]` block, replacing any earlier one; nothing else changes.
pub fn mark_quote_sent(quote: Quote, sent: SentInfo) -> (r: Quote)
    ensures
        r == (Quote { sent: Some(sent), ..quote }),
{
    let mut quote = quote;
    quote.sent = Some(sent);
    quote
}

/// The ID format of an invoice converted from a quote: `[defaults].id_format`,
/// else `INV-{year}-{seq:03}`.
pub fn conversion_id_format(config: &FolioConfig) -> (r: String)
    ensures
        r@ == setting_or(config.defaults.id_format, "INV-{year}-{seq:03}"@),
{
    match &config.defaults.id_format {
        Some(f) => f.clone(),
        None => String::from_str("INV-{year}-{seq:03}"),
    }
}

/// The invoice a quote converts into, filed under `id` and dated `today`.
pub fn invoice_from_quote(quote: &Quote, id: String, today: Date) -> (r: Invoice)
    ensures
        r.id == id,
        r.client == quote.client,
        r.date == today,
        r.due is None,
        r.currency == quote.currency,
        r.template == quote.template,
        r.primary_color == quote.primary_color,
        r.tax_rate == quote.tax_rate,
        r.notes == quote.notes,
        r.items@ == quote.items@,
        r.sent is None,
        r.paid is None,
        r.voided is None,
{
    Invoice {
        id,
        client: quote.client.clone(),
        date: today,
        due: None,
        currency: quote.currency.clone(),
        template: quote.template.clone(),
        primary_color: quote.primary_color.clone(),
        tax_rate: quote.tax_rate,
        notes: quote.notes.clone(),
        items: copy_items(&quote.items),
        sent: None,
        paid: None,
        voided: None,
    }
}

/// Writes the `[accepted]` block on a quote that has none, with the ID of
/// the invoice it was converted into, if any; nothing else changes.
pub fn accept_quote(quote: Quote, today: Date, invoice_id: Option<String>) -> (r: Result<Quote, FolioError>)
    ensures
        quote.accepted is Some <==> r is Err,
        r matches Err(e) ==> (e matches FolioError::Other(m) && m@ == "Quote "@ + quote.id@ + " is already accepted"@),
        r matches Ok(q) ==> q == (Quote { accepted: Some(AcceptedInfo { at: today, invoice_id }), ..quote }),
{
    if quote.accepted.is_some() {
        return Err(FolioError::Other(concat3("Quote ", quote.id.as_str(), " is already accepted")));
    }
    let mut quote = quote;
    quote.accepted = Some(AcceptedInfo { at: today, invoice_id });
    Ok(quote)
}

/// Writes the `[declined]` block on a quote that has none; nothing else changes.
pub fn decline_quote(quote: Quote, today: Date, reason: Option<String>) -> (r: Result<Quote, FolioError>)
    ensures
        quote.declined is Some <==> r is Err,
        r matches Err(e) ==> (e matches FolioError::Other(m) && m@ == "Quote "@ + quote.id@ + " is already declined"@),
        r matches Ok(q) ==> q == (Quote { declined: Some(DeclinedInfo { at: today, reason }), ..quote }),
{
    if quote.declined.is_some() {
        return Err(FolioError::Other(concat3("Quote ", quote.id.as_str(), " is already declined")));
    }
    let mut quote = quote;
    quote.declined = Some(DeclinedInfo { at: today, reason });
    Ok(quote)
}

} // verus!
