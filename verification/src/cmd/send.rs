//! `folio send`: the decisions around emailing an invoice.
//!
//! An invoice that already has a `[sent]` block is sent again only with
//! `--force`.  The PDF is built first when it is missing or `--rebuild` is
//! given.  The recipient is `--to`, or else the client's email; CC comes
//! from the client's `[email_opts]`.  `--manual` records the `[sent]` block
//! with method `manual` and no CC, without sending anything.
use vstd::prelude::*;
use crate::date::Timestamp;
use crate::email::EmailMessage;
use crate::error::FolioError;
use crate::types::{copy_strings, Client, FolioConfig, Invoice, SentInfo};

verus! {

/// Arguments of `folio send`.
#[derive(Clone, Debug)]
pub struct SendArgs {
    /// Invoice ID to send (e.g. `INV-2026-001`).
    pub id: String,
    /// Override the recipient email address.
    pub to: Option<String>,
    /// Preview the email without actually sending it.
    pub dry_run: bool,
    /// Resend even if a `[sent]` block already exists.
    pub force: bool,
    /// Rebuild the PDF before sending, even if it is already up to date.
    pub rebuild: bool,
    /// Mark the invoice as sent without emailing it (method = "manual").
    pub manual: bool,
}

/// An invoice may be sent unless it was sent before and `force` is off.
pub fn check_invoice_sendable(invoice: &Invoice, force: bool) -> (r: Result<(), FolioError>)
    ensures
        r is Err <==> (invoice.sent is Some && !force),
        r matches Err(e) ==> (e matches FolioError::AlreadySent { id } && id@ == invoice.id@),
{
    if invoice.sent.is_some() && !force {
        Err(FolioError::AlreadySent { id: invoice.id.clone() })
    } else {
        Ok(())
    }
}

/// The PDF is built before sending when it is missing or a rebuild is asked for.
pub fn needs_pdf_build(pdf_exists: bool, rebuild: bool) -> (r: bool)
    ensures
        r == (!pdf_exists || rebuild),
{
    !pdf_exists || rebuild
}

/// The recipient: `--to` when given, else the client's email.
pub fn recipient(to: &Option<String>, client: &Client) -> (r: String)
    ensures
        r@ == match to {
            Some(t) => t@,
            None => client.email@,
        },
{
    match to {
        Some(t) => t.clone(),
        None => client.email.clone(),
    }
}

/// The addresses copied on every email to the client.
pub open spec fn client_cc_spec(client: Client) -> Seq<String> {
    match client.email_opts {
        Some(opts) => match opts.cc {
            Some(cc) => cc@,
            None => Seq::empty(),
        },
        None => Seq::empty(),
    }
}

pub fn client_cc(client: &Client) -> (r: Vec<String>)
    ensures
        r@ == client_cc_spec(*client),
{
    match &client.email_opts {
        Some(opts) => match &opts.cc {
            Some(cc) => copy_strings(cc),
            None => Vec::new(),
        },
        None => Vec::new(),
    }
}

/// The `[email.templates]` subject, if configured.
pub open spec fn configured_subject(config: FolioConfig) -> Option<Seq<char>> {
    match config.email {
        Some(e) => match e.templates {
            Some(t) => match t.subject {
                Some(s) => Some(s@),
                None => None,
            },
            None => None,
        },
        None => None,
    }
}

/// The `[email.templates]` body, if configured.
pub open spec fn configured_body(config: FolioConfig) -> Option<Seq<char>> {
    match config.email {
        Some(e) => match e.templates {
            Some(t) => match t.body {
                Some(s) => Some(s@),
                None => None,
            },
            None => None,
        },
        None => None,
    }
}

/// A configured template, or the fallback.
pub open spec fn template_or(o: Option<Seq<char>>, fallback: Seq<char>) -> Seq<char> {
    match o {
        Some(s) => s,
        None => fallback,
    }
}

pub fn email_subject_setting(config: &FolioConfig) -> (r: Option<String>)
    ensures
        match r {
            Some(s) => configured_subject(*config) == Some(s@),
            None => configured_subject(*config) is None,
        },
{
    match &config.email {
        Some(e) => match &e.templates {
            Some(t) => match &t.subject {
                Some(s) => Some(s.clone()),
                None => None,
            },
            None => None,
        },
        None => None,
    }
}

pub fn email_body_setting(config: &FolioConfig) -> (r: Option<String>)
    ensures
        match r {
            Some(s) => configured_body(*config) == Some(s@),
            None => configured_body(*config) is None,
        },
{
    match &config.email {
        Some(e) => match &e.templates {
            Some(t) => match &t.body {
                Some(s) => Some(s.clone()),
                None => None,
            },
            None => None,
        },
        None => None,
    }
}

/// The subject template of an invoice email when none is configured.
pub open spec fn default_invoice_subject() -> Seq<char> {
    "Invoice {{ invoice.id }} from {{ me.company }}"@
}

/// The body template of an invoice email when none is configured.
pub open spec fn default_invoice_body() -> Seq<char> {
    "Hi {{ client.contact }},\n\nPlease find attached invoice {{ invoice.id }}.\n\n{{ me.name }}\n"@
}

/// The subject and body templates of an invoice email: the configured
/// ones, each falling back to its default.
pub fn invoice_email_templates(config: &FolioConfig) -> (r: (String, String))
    ensures
        r.0@ == template_or(configured_subject(*config), default_invoice_subject()),
        r.1@ == template_or(configured_body(*config), default_invoice_body()),
{
    let subject = match email_subject_setting(config) {
        Some(s) => s,
        None => String::from_str("Invoice {{ invoice.id }} from {{ me.company }}"),
    };
    let body = match email_body_setting(config) {
        Some(b) => b,
        None => String::from_str("Hi {{ client.contact }},\n\nPlease find attached invoice {{ invoice.id }}.\n\n{{ me.name }}\n"),
    };
    (subject, body)
}

/// `{id}.pdf`, the name of a document's PDF.
pub fn pdf_file_name(id: &str) -> (r: String)
    ensures
        r@ == id@ + ".pdf"@,
{
    let mut name = String::from_str(id);
    name.append(".pdf");
    name
}

/// The email carrying a document's PDF.
pub fn document_email(to: String, cc: Vec<String>, subject: String, body: String, pdf_path: String, id: &str) -> (r: EmailMessage)
    ensures
        r.to == to,
        r.cc@ == cc@,
        r.bcc@.len() == 0,
        r.subject == subject,
        r.body == body,
        r.attachment_path == Some(pdf_path),
        r.attachment_name matches Some(n) && n@ == id@ + ".pdf"@,
{
    EmailMessage {
        to,
        cc,
        bcc: Vec::new(),
        subject,
        body,
        attachment_path: Some(pdf_path),
        attachment_name: Some(pdf_file_name(id)),
    }
}

/// The `[sent]` block written after delivery: method `manual` without CC
/// for a manual send, else method `email` with the CC list when it is not
/// empty.
pub fn sent_record(at: Timestamp, manual: bool, to: String, cc: Vec<String>) -> (r: SentInfo)
    ensures
        r.at == at,
        r.to == to,
        r.method@ == (if manual { "manual"@ } else { "email"@ }),
        manual ==> r.cc is None,
        !manual ==> match r.cc {
            None => cc@.len() == 0,
            Some(c) => c@ == cc@ && cc@.len() > 0,
        },
{
    if manual {
        SentInfo { at, method: String::from_str("manual"), to, cc: None }
    } else {
        let has_cc = cc.len() > 0;
        SentInfo { at, method: String::from_str("email"), to, cc: if has_cc { Some(cc) } else { None } }
    }
}

/// Writes the `[sent]` block, replacing any earlier one; nothing else changes.
pub fn mark_invoice_sent(invoice: Invoice, sent: SentInfo) -> (r: Invoice)
    ensures
        r == (Invoice { sent: Some(sent), ..invoice }),
{
    let mut invoice = invoice;
    invoice.sent = Some(sent);
    invoice
}

} // verus!
