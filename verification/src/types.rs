//! The data model: configuration, clients, invoices and quotes.
//!
//! Money is a [`Decimal`], a calendar day a [`Date`] and an instant a
//! [`Timestamp`]; everything else is plain strings and numbers, exactly as it
//! is written in the TOML files.
use vstd::prelude::*;
use crate::date::{Date, Timestamp};
use crate::decimal::Decimal;

verus! {

/// `[me]` in `folio.toml`: the sender of every document.
#[derive(Clone, Debug)]
pub struct MeConfig {
    pub name: String,
    pub company: Option<String>,
    pub email: String,
    pub address: Vec<String>,
    pub logo: Option<String>,
}

/// `[defaults]` in `folio.toml`: shared by invoices and quotes.
#[derive(Clone, Debug)]
pub struct Defaults {
    pub currency: Option<String>,
    pub tax_rate: Option<Decimal>,
    pub due_days: Option<u32>,
    pub template: Option<String>,
    pub id_format: Option<String>,
    /// Primary/accent color as a CSS hex string, e.g. "#7c3aed".
    /// Overrides the template's built-in default when set.
    pub primary_color: Option<String>,
    /// Default notes appended to every invoice when the invoice itself has no notes.
    pub notes: Option<String>,
    /// Default quote ID format.
    pub quote_id_format: Option<String>,
    /// Default number of days a quote stays valid.
    pub expires_days: Option<u32>,
}

/// `[email]` in `folio.toml`.
#[derive(Clone, Debug)]
pub struct EmailConfig {
    pub provider: Option<String>,
    pub from: Option<String>,
    pub from_name: Option<String>,
    pub smtp: Option<SmtpConfig>,
    pub sendgrid: Option<SendgridConfig>,
    pub resend: Option<ResendConfig>,
    pub templates: Option<EmailTemplates>,
}

/// `[email.smtp]`.
#[derive(Clone, Debug)]
pub struct SmtpConfig {
    pub host: String,
    pub port: u16,
    pub username: String,
    /// Set to `false` to use an unencrypted connection (e.g. local Mailpit).
    /// Defaults to `true`.
    pub tls: Option<bool>,
}

/// `[email.sendgrid]`.
#[derive(Clone, Debug)]
pub struct SendgridConfig {}

/// `[email.resend]`.
#[derive(Clone, Debug)]
pub struct ResendConfig {}

/// `[email.templates]`: Tera templates for the subject and the body.
#[derive(Clone, Debug)]
pub struct EmailTemplates {
    pub subject: Option<String>,
    pub body: Option<String>,
}

/// Directory layout configuration. All values are relative to the repo root.
/// Omitting `[paths]` in `folio.toml` is equivalent to the defaults.
#[derive(Clone, Debug)]
pub struct PathsConfig {
    /// Directory containing `{slug}.toml` client files. Default: `"clients"`.
    pub clients: Option<String>,
    /// Directory containing `{year}/{id}.toml` invoice files. Default: `"invoices"`.
    pub invoices: Option<String>,
    /// Directory searched for custom Tera HTML templates. Default: `"templates"`.
    pub templates: Option<String>,
    /// Directory where rendered PDFs are written. Default: `"output"`.
    pub output: Option<String>,
}

/// The value of an optional setting, or `fallback` when it is unset.
pub open spec fn setting_or(o: Option<String>, fallback: Seq<char>) -> Seq<char> {
    match o {
        Some(s) => s@,
        None => fallback,
    }
}

/// The effective value of an optional setting.
fn setting_or_default(o: &Option<String>, fallback: &str) -> (r: String)
    ensures
        r@ == setting_or(*o, fallback@),
{
    match o {
        Some(s) => s.clone(),
        None => String::from_str(fallback),
    }
}

impl PathsConfig {
    /// All four directories at their conventional names.
    pub fn default() -> (r: PathsConfig)
        ensures
            r.clients is None,
            r.invoices is None,
            r.templates is None,
            r.output is None,
    {
        PathsConfig { clients: None, invoices: None, templates: None, output: None }
    }

    /// Return the effective `clients` path, falling back to `"clients"`.
    pub fn clients(&self) -> (r: String)
        ensures
            r@ == setting_or(self.clients, "clients"@),
    {
        setting_or_default(&self.clients, "clients")
    }

    /// Return the effective `invoices` path, falling back to `"invoices"`.
    pub fn invoices(&self) -> (r: String)
        ensures
            r@ == setting_or(self.invoices, "invoices"@),
    {
        setting_or_default(&self.invoices, "invoices")
    }

    /// Return the effective `templates` path, falling back to `"templates"`.
    pub fn templates(&self) -> (r: String)
        ensures
            r@ == setting_or(self.templates, "templates"@),
    {
        setting_or_default(&self.templates, "templates")
    }

    /// Return the effective `output` path, falling back to `"output"`.
    pub fn output(&self) -> (r: String)
        ensures
            r@ == setting_or(self.output, "output"@),
    {
        setting_or_default(&self.output, "output")
    }
}

/// `[build]` in `folio.toml`.
#[derive(Clone, Debug)]
pub struct BuildConfig {
    pub chrome_path: Option<String>,
}

/// `[invoice]` in `folio.toml`: invoice-only defaults.
#[derive(Clone, Debug)]
pub struct InvoiceConfig {
    pub id_format: Option<String>,
    pub due_days: Option<u32>,
    pub template: Option<String>,
}

/// `[quote]` in `folio.toml`: quote-only defaults.
#[derive(Clone, Debug)]
pub struct QuoteConfig {
    pub id_format: Option<String>,
    pub expires_days: Option<u32>,
    pub template: Option<String>,
}

/// The whole of `folio.toml`.
#[derive(Clone, Debug)]
pub struct FolioConfig {
    pub me: MeConfig,
    pub defaults: Defaults,
    pub email: Option<EmailConfig>,
    pub build: Option<BuildConfig>,
    /// Optional directory layout overrides. Defaults to conventional names when absent.
    pub paths: Option<PathsConfig>,
    pub invoice: Option<InvoiceConfig>,
    pub quote: Option<QuoteConfig>,
}

impl FolioConfig {
    /// The resolved `PathsConfig`, using defaults if the `[paths]` section
    /// was omitted from `folio.toml`.
    pub fn paths(&self) -> (r: PathsConfig)
        ensures
            match self.paths {
                Some(p) => r == p,
                None => r.clients is None && r.invoices is None && r.templates is None
                    && r.output is None,
            },
    {
        match &self.paths {
            Some(p) => PathsConfig {
                clients: p.clients.clone(),
                invoices: p.invoices.clone(),
                templates: p.templates.clone(),
                output: p.output.clone(),
            },
            None => PathsConfig::default(),
        }
    }
}

/// A client, from `clients/{slug}.toml`.
#[derive(Clone, Debug)]
pub struct Client {
    pub name: String,
    pub contact: Option<String>,
    pub email: String,
    pub address: Vec<String>,
    pub currency: Option<String>,
    pub due_days: Option<u32>,
    pub template: Option<String>,
    pub email_opts: Option<ClientEmailOpts>,
    pub notes: Option<String>,
    /// Per-client invoice defaults.
    pub defaults: Option<ClientDefaults>,
    /// Not stored in the file: the file name without `.toml`.
    pub slug: String,
}

/// `[defaults]` in a client file.
#[derive(Clone, Debug)]
pub struct ClientDefaults {
    /// Default notes for invoices raised against this client (e.g. payment details).
    /// Takes priority over `[defaults].notes` in `folio.toml` but loses to a
    /// note written directly on the invoice.
    pub notes: Option<String>,
}

/// `[email_opts]` in a client file.
#[derive(Clone, Debug)]
pub struct ClientEmailOpts {
    pub cc: Option<Vec<String>>,
    pub bcc: Option<Vec<String>>,
}

/// One `[[items]]` entry.
#[derive(Clone, Debug)]
pub struct LineItem {
    pub description: String,
    pub quantity: Decimal,
    pub unit: Option<String>,
    pub rate: Decimal,
}

impl LineItem {
    /// A copy of this item.
    pub fn copy(&self) -> (r: LineItem)
        ensures
            r == *self,
    {
        let unit = match &self.unit {
            Some(u) => Some(u.clone()),
            None => None,
        };
        LineItem { description: self.description.clone(), quantity: self.quantity, unit, rate: self.rate }
    }
}

/// Copies a list of line items.
pub fn copy_items(v: &Vec<LineItem>) -> (r: Vec<LineItem>)
    ensures
        r@ == v@,
{
    let mut r: Vec<LineItem> = Vec::new();
    let mut i: usize = 0;
    while i < v.len()
        invariant
            0 <= i <= v.len(),
            r@ == v@.take(i as int),
        decreases v.len() - i,
    {
        r.push(v[i].copy());
        i = i + 1;
        assert(r@ =~= v@.take(i as int));
    }
    assert(v@.take(v.len() as int) =~= v@);
    r
}

/// `[sent]`: when and how a document was delivered.
#[derive(Clone, Debug)]
pub struct SentInfo {
    pub at: Timestamp,
    pub method: String,
    pub to: String,
    pub cc: Option<Vec<String>>,
}

/// Copies a list of strings.
pub fn copy_strings(v: &Vec<String>) -> (r: Vec<String>)
    ensures
        r@ == v@,
{
    let mut r: Vec<String> = Vec::new();
    let mut i: usize = 0;
    while i < v.len()
        invariant
            0 <= i <= v.len(),
            r@ == v@.take(i as int),
        decreases v.len() - i,
    {
        r.push(v[i].clone());
        i = i + 1;
        assert(r@ =~= v@.take(i as int));
    }
    assert(v@.take(v.len() as int) =~= v@);
    r
}

/// An optional list of strings, taken by its contents.
pub open spec fn opt_strings(o: Option<Vec<String>>) -> Option<Seq<String>> {
    match o {
        Some(v) => Some(v@),
        None => None,
    }
}

/// Copies an optional list of strings.
pub fn copy_opt_strings(o: &Option<Vec<String>>) -> (r: Option<Vec<String>>)
    ensures
        opt_strings(r) == opt_strings(*o),
{
    match o {
        Some(v) => Some(copy_strings(v)),
        None => None,
    }
}

impl SentInfo {
    /// The same delivery record.
    pub open spec fn same_as(self, other: SentInfo) -> bool {
        &&& self.at == other.at
        &&& self.method == other.method
        &&& self.to == other.to
        &&& opt_strings(self.cc) == opt_strings(other.cc)
    }

    /// A copy of this record.
    pub fn copy(&self) -> (r: SentInfo)
        ensures
            r.same_as(*self),
    {
        SentInfo { at: self.at, method: self.method.clone(), to: self.to.clone(), cc: copy_opt_strings(&self.cc) }
    }
}

/// Two optional delivery records are the same.
pub open spec fn same_sent(a: Option<SentInfo>, b: Option<SentInfo>) -> bool {
    match (a, b) {
        (Some(x), Some(y)) => x.same_as(y),
        (None, None) => true,
        _ => false,
    }
}

/// Copies an optional delivery record.
pub fn copy_sent(o: &Option<SentInfo>) -> (r: Option<SentInfo>)
    ensures
        same_sent(r, *o),
{
    match o {
        Some(s) => Some(s.copy()),
        None => None,
    }
}

/// `[paid]`: a payment against an invoice.
#[derive(Clone, Debug)]
pub struct PaidInfo {
    pub at: Date,
    pub amount: Decimal,
    pub method: Option<String>,
    pub reference: Option<String>,
}

impl PaidInfo {
    /// A copy of this record.
    pub fn copy(&self) -> (r: PaidInfo)
        ensures
            r == *self,
    {
        PaidInfo { at: self.at, amount: self.amount, method: self.method.clone(), reference: self.reference.clone() }
    }
}

/// Copies an optional payment record.
pub fn copy_paid(o: &Option<PaidInfo>) -> (r: Option<PaidInfo>)
    ensures
        r == *o,
{
    match o {
        Some(p) => Some(p.copy()),
        None => None,
    }
}

/// `[voided]`.
#[derive(Clone, Debug)]
pub struct VoidedInfo {
    pub at: Date,
    pub reason: Option<String>,
}

impl VoidedInfo {
    /// A copy of this record.
    pub fn copy(&self) -> (r: VoidedInfo)
        ensures
            r == *self,
    {
        VoidedInfo { at: self.at, reason: self.reason.clone() }
    }
}

/// Copies an optional void record.
pub fn copy_voided(o: &Option<VoidedInfo>) -> (r: Option<VoidedInfo>)
    ensures
        r == *o,
{
    match o {
        Some(v) => Some(v.copy()),
        None => None,
    }
}

/// An invoice, from `invoices/{year}/{id}.toml`.
#[derive(Clone, Debug)]
pub struct Invoice {
    pub id: String,
    pub client: String,
    pub date: Date,
    pub due: Option<Date>,
    pub currency: Option<String>,
    pub template: Option<String>,
    /// Per-invoice primary color override (takes priority over defaults).
    pub primary_color: Option<String>,
    pub tax_rate: Option<Decimal>,
    pub notes: Option<String>,
    pub items: Vec<LineItem>,
    pub sent: Option<SentInfo>,
    pub paid: Option<PaidInfo>,
    pub voided: Option<VoidedInfo>,
}

/// The status of an invoice, always derived, never stored.
#[derive(Clone, Copy, Debug, PartialEq, Eq, Structural)]
pub enum InvoiceStatus {
    Draft,
    Sent,
    Overdue,
    Paid,
    PartiallyPaid,
    Voided,
}

/// The name under which a status is shown and filtered.
pub open spec fn invoice_status_name(s: InvoiceStatus) -> Seq<char> {
    match s {
        InvoiceStatus::Draft => "draft"@,
        InvoiceStatus::Sent => "sent"@,
        InvoiceStatus::Overdue => "overdue"@,
        InvoiceStatus::Paid => "paid"@,
        InvoiceStatus::PartiallyPaid => "partially_paid"@,
        InvoiceStatus::Voided => "voided"@,
    }
}

impl InvoiceStatus {
    /// The status as shown to the user: `draft`, `sent`, `overdue`, `paid`,
    /// `partially_paid` or `voided`.
    pub fn to_string(&self) -> (r: String)
        ensures
            r@ == invoice_status_name(*self),
    {
        match self {
            InvoiceStatus::Draft => String::from_str("draft"),
            InvoiceStatus::Sent => String::from_str("sent"),
            InvoiceStatus::Overdue => String::from_str("overdue"),
            InvoiceStatus::Paid => String::from_str("paid"),
            InvoiceStatus::PartiallyPaid => String::from_str("partially_paid"),
            InvoiceStatus::Voided => String::from_str("voided"),
        }
    }
}

/// An invoice with every derived field resolved.
#[derive(Clone, Debug)]
pub struct ComputedInvoice {
    pub id: String,
    pub client: String,
    pub date: Date,
    pub due: Date,
    pub currency: String,
    pub template: String,
    /// Resolved primary color (may be None if neither the invoice nor defaults set one).
    pub primary_color: Option<String>,
    pub tax_rate: Decimal,
    pub notes: Option<String>,
    pub items: Vec<ComputedLineItem>,
    pub subtotal: Decimal,
    pub tax_amount: Decimal,
    pub total: Decimal,
    pub outstanding: Decimal,
    pub status: InvoiceStatus,
    pub sent: Option<SentInfo>,
    pub paid: Option<PaidInfo>,
    pub voided: Option<VoidedInfo>,
}

/// A line item with its total.
#[derive(Clone, Debug)]
pub struct ComputedLineItem {
    pub description: String,
    pub quantity: Decimal,
    pub unit: Option<String>,
    pub rate: Decimal,
    pub total: Decimal,
}

/// Which invoices to list.
#[derive(Clone, Debug)]
pub struct InvoiceFilter {
    pub year: Option<i32>,
    pub client: Option<String>,
    pub status: Option<String>,
}

impl Default for InvoiceFilter {
    /// The filter that selects everything.
    fn default() -> (r: InvoiceFilter)
        ensures
            r.year is None,
            r.client is None,
            r.status is None,
    {
        InvoiceFilter { year: None, client: None, status: None }
    }
}

/// `[accepted]`: the client accepted a quote.
#[derive(Clone, Debug)]
pub struct AcceptedInfo {
    pub at: Date,
    /// The invoice the quote was converted into, if any.
    pub invoice_id: Option<String>,
}

/// `[declined]`: the client declined a quote.
#[derive(Clone, Debug)]
pub struct DeclinedInfo {
    pub at: Date,
    pub reason: Option<String>,
}

/// A quote, from `quotes/{year}/{id}.toml`.
#[derive(Clone, Debug)]
pub struct Quote {
    pub id: String,
    pub client: String,
    pub date: Date,
    pub expires: Option<Date>,
    pub currency: Option<String>,
    pub template: Option<String>,
    pub primary_color: Option<String>,
    pub tax_rate: Option<Decimal>,
    pub notes: Option<String>,
    pub items: Vec<LineItem>,
    pub sent: Option<SentInfo>,
    pub accepted: Option<AcceptedInfo>,
    pub declined: Option<DeclinedInfo>,
}

/// The status of a quote, always derived, never stored.
#[derive(Clone, Copy, Debug, PartialEq, Eq, Structural)]
pub enum QuoteStatus {
    Draft,
    Sent,
    Expired,
    Accepted,
    Declined,
}

/// The name under which a quote status is shown and filtered.
pub open spec fn quote_status_name(s: QuoteStatus) -> Seq<char> {
    match s {
        QuoteStatus::Draft => "draft"@,
        QuoteStatus::Sent => "sent"@,
        QuoteStatus::Expired => "expired"@,
        QuoteStatus::Accepted => "accepted"@,
        QuoteStatus::Declined => "declined"@,
    }
}

impl QuoteStatus {
    /// The status as shown to the user: `draft`, `sent`, `expired`,
    /// `accepted` or `declined`.
    pub fn to_string(&self) -> (r: String)
        ensures
            r@ == quote_status_name(*self),
    {
        match self {
            QuoteStatus::Draft => String::from_str("draft"),
            QuoteStatus::Sent => String::from_str("sent"),
            QuoteStatus::Expired => String::from_str("expired"),
            QuoteStatus::Accepted => String::from_str("accepted"),
            QuoteStatus::Declined => String::from_str("declined"),
        }
    }
}

/// A quote with every derived field resolved.
#[derive(Clone, Debug)]
pub struct ComputedQuote {
    pub id: String,
    pub client: String,
    pub date: Date,
    pub expires: Date,
    pub currency: String,
    pub template: String,
    pub primary_color: Option<String>,
    pub tax_rate: Decimal,
    pub notes: Option<String>,
    pub items: Vec<ComputedLineItem>,
    pub subtotal: Decimal,
    pub tax_amount: Decimal,
    pub total: Decimal,
    pub status: QuoteStatus,
    pub sent: Option<SentInfo>,
    pub accepted: Option<AcceptedInfo>,
    pub declined: Option<DeclinedInfo>,
}

/// Which quotes to list.
#[derive(Clone, Debug)]
pub struct QuoteFilter {
    pub year: Option<i32>,
    pub client: Option<String>,
    pub status: Option<String>,
}

impl Default for QuoteFilter {
    /// The filter that selects everything.
    fn default() -> (r: QuoteFilter)
        ensures
            r.year is None,
            r.client is None,
            r.status is None,
    {
        QuoteFilter { year: None, client: None, status: None }
    }
}

impl Default for MeConfig {
    /// The sender used outside a repository: every field empty.
    fn default() -> (r: MeConfig)
        ensures
            r.name@.len() == 0,
            r.company is None,
            r.email@.len() == 0,
            r.address@.len() == 0,
            r.logo is None,
    {
        MeConfig { name: String::new(), company: None, email: String::new(), address: Vec::new(), logo: None }
    }
}

} // verus!
