//! Derived quote fields: totals, tax, expiry date and status.
//!
//! Quotes share the invoice arithmetic ([`crate::compute::compute_amounts`]);
//! they have no payments, and expire instead of falling due.
use vstd::prelude::*;
use crate::compute::{
    amounts_of, compute_amounts, first_set, first_set_of, items_computed, items_wf,
    line_totals_exact, resolved_tax_rate,
};
use crate::date::{today, Date, MAX_DAY, MIN_DAY};
use crate::decimal::Decimal;
use crate::types::{
    copy_sent, same_sent, setting_or, AcceptedInfo, Client, ComputedQuote, DeclinedInfo,
    FolioConfig, Quote, QuoteStatus,
};

verus! {

impl Quote {
    /// Every decimal and date of the quote is one `rust_decimal` and
    /// `chrono` can hold.
    pub open spec fn wf(self) -> bool {
        &&& self.date.wf()
        &&& (self.expires matches Some(d) ==> d.wf())
        &&& (self.tax_rate matches Some(t) ==> t.wf())
        &&& items_wf(self.items@)
    }
}


/// The number of days a quote stays valid: `[quote].expires_days`, else
/// `[defaults].expires_days`, else 30.
pub open spec fn resolved_expires_days(config: FolioConfig) -> u32 {
    match config.quote {
        Some(q) if q.expires_days is Some => q.expires_days->0,
        _ => match config.defaults.expires_days {
            Some(d) => d,
            None => 30,
        },
    }
}

/// The expiry date: the quote's own, else its date plus the validity
/// period, if that day is one `chrono` can represent.
pub open spec fn resolved_expires(quote: Quote, config: FolioConfig) -> Option<Date> {
    match quote.expires {
        Some(d) => Some(d),
        None => {
            let n = quote.date.days + resolved_expires_days(config);
            if MIN_DAY <= n <= MAX_DAY {
                Some(Date { days: n as i32 })
            } else {
                None
            }
        },
    }
}

/// The quote's template: its own, else the client's, else `[quote].template`,
/// else `[defaults].template`, else `basic`.
pub open spec fn resolved_quote_template(quote: Quote, client: Client, config: FolioConfig) -> Seq<char> {
    let quote_default = match config.quote {
        Some(q) => q.template,
        None => None,
    };
    setting_or(
        first_set(quote.template, client.template, first_set(quote_default, config.defaults.template, None)),
        "basic"@,
    )
}

/// The status table: accepted, else declined, else draft when unsent, else
/// expired once the expiry date has passed, else sent.
pub open spec fn quote_status_of(quote: Quote, expires: Date, today: Date) -> QuoteStatus {
    if quote.accepted is Some {
        QuoteStatus::Accepted
    } else if quote.declined is Some {
        QuoteStatus::Declined
    } else if quote.sent is None {
        QuoteStatus::Draft
    } else if expires.days < today.days {
        QuoteStatus::Expired
    } else {
        QuoteStatus::Sent
    }
}

/// The arithmetic of the quote stays within what `rust_decimal` and
/// `chrono` can represent.
pub open spec fn quote_computable(quote: Quote, config: FolioConfig) -> bool {
    &&& amounts_of(quote.items@, resolved_tax_rate(quote.tax_rate, config)) is Some
    &&& resolved_expires(quote, config) is Some
}

/// `ComputedQuote` is exactly what the quote, client, configuration and
/// today's date determine.
pub open spec fn quote_computed_as(r: ComputedQuote, quote: Quote, client: Client, config: FolioConfig, today: Date) -> bool {
    let rate = resolved_tax_rate(quote.tax_rate, config);
    let (subtotal, tax, total) = amounts_of(quote.items@, rate)->0;
    let expires = resolved_expires(quote, config)->0;
    &&& r.id == quote.id
    &&& r.client == quote.client
    &&& r.date == quote.date
    &&& r.expires == expires
    &&& r.currency@ == setting_or(first_set(quote.currency, client.currency, config.defaults.currency), "USD"@)
    &&& r.template@ == resolved_quote_template(quote, client, config)
    &&& r.primary_color == first_set(quote.primary_color, config.defaults.primary_color, None)
    &&& r.notes == first_set(
        quote.notes,
        match client.defaults { Some(d) => d.notes, None => None },
        config.defaults.notes,
    )
    &&& r.tax_rate == rate
    &&& items_computed(quote.items@, r.items@)
    &&& line_totals_exact(quote.items@, r.items@)
    &&& r.subtotal == subtotal
    &&& r.tax_amount == tax
    &&& r.total == total
    &&& r.status == quote_status_of(quote, expires, today)
    &&& same_sent(r.sent, quote.sent)
    &&& r.accepted == quote.accepted
    &&& r.declined == quote.declined
}

/// The quote's status on `today`: accepted, else declined, else draft when
/// unsent, else expired once `expires` has passed, else sent.
pub fn derive_quote_status(quote: &Quote, expires: &Date, today: &Date) -> (r: QuoteStatus)
    ensures
        r == quote_status_of(*quote, *expires, *today),
        (quote.accepted is None && quote.declined is None && quote.sent is Some) ==> {
            &&& (r == QuoteStatus::Expired) == (expires.days < today.days)
            &&& (r == QuoteStatus::Sent) == (expires.days >= today.days)
        },
{
    if quote.accepted.is_some() {
        return QuoteStatus::Accepted;
    }
    if quote.declined.is_some() {
        return QuoteStatus::Declined;
    }
    if quote.sent.is_none() {
        return QuoteStatus::Draft;
    }
    if expires.before(today) {
        QuoteStatus::Expired
    } else {
        QuoteStatus::Sent
    }
}

/// Copies an optional acceptance record.
fn copy_accepted(o: &Option<AcceptedInfo>) -> (r: Option<AcceptedInfo>)
    ensures
        r == *o,
{
    match o {
        Some(a) => Some(AcceptedInfo { at: a.at, invoice_id: a.invoice_id.clone() }),
        None => None,
    }
}

/// Copies an optional decline record.
fn copy_declined(o: &Option<DeclinedInfo>) -> (r: Option<DeclinedInfo>)
    ensures
        r == *o,
{
    match o {
        Some(d) => Some(DeclinedInfo { at: d.at, reason: d.reason.clone() }),
        None => None,
    }
}

/// Computes every derived field of a quote as of `today`, or `None` when the
/// amounts overflow `rust_decimal` or the expiry date leaves `chrono`'s
/// range.
pub fn try_compute_quote_at(quote: &Quote, client: &Client, config: &FolioConfig, today: Date) -> (r: Option<ComputedQuote>)
    requires
        quote.wf(),
        config.wf(),
    ensures
        r is Some <==> quote_computable(*quote, *config),
        r matches Some(c) ==> quote_computed_as(c, *quote, *client, *config, today),
        r matches Some(c) ==> ((quote.accepted is None && quote.declined is None && quote.sent is Some) ==> {
            &&& (c.status == QuoteStatus::Expired) == (c.expires.days < today.days)
            &&& (c.status == QuoteStatus::Sent) == (c.expires.days >= today.days)
        }),
{
    let tax_rate = match quote.tax_rate {
        Some(t) => t,
        None => match config.defaults.tax_rate {
            Some(t) => t,
            None => Decimal::zero(),
        },
    };
    let currency = match first_set_of(&quote.currency, &client.currency, &config.defaults.currency) {
        Some(c) => c,
        None => String::from_str("USD"),
    };
    let quote_default = match &config.quote {
        Some(q) => q.template.clone(),
        None => None,
    };
    let fallback = first_set_of(&quote_default, &config.defaults.template, &None);
    let template = match first_set_of(&quote.template, &client.template, &fallback) {
        Some(t) => t,
        None => String::from_str("basic"),
    };
    let primary_color = first_set_of(&quote.primary_color, &config.defaults.primary_color, &None);
    let client_notes = match &client.defaults {
        Some(d) => d.notes.clone(),
        None => None,
    };
    let notes = first_set_of(&quote.notes, &client_notes, &config.defaults.notes);
    let quote_days = match &config.quote {
        Some(q) => q.expires_days,
        None => None,
    };
    let expires_days: u32 = match quote_days {
        Some(d) => d,
        None => match config.defaults.expires_days {
            Some(d) => d,
            None => 30,
        },
    };
    let expires = match quote.expires {
        Some(d) => d,
        None => match quote.date.checked_add_days(expires_days as i64) {
            Some(d) => d,
            None => return None,
        },
    };
    let (items, subtotal, tax_amount, total) = match compute_amounts(&quote.items, tax_rate) {
        Some(x) => x,
        None => return None,
    };
    let status = derive_quote_status(quote, &expires, &today);
    Some(ComputedQuote {
        id: quote.id.clone(),
        client: quote.client.clone(),
        date: quote.date,
        expires,
        currency,
        template,
        primary_color,
        tax_rate,
        notes,
        items,
        subtotal,
        tax_amount,
        total,
        status,
        sent: copy_sent(&quote.sent),
        accepted: copy_accepted(&quote.accepted),
        declined: copy_declined(&quote.declined),
    })
}

/// Computes every derived field of a quote as of `today`.
pub fn compute_quote_at(quote: &Quote, client: &Client, config: &FolioConfig, today: Date) -> (r: ComputedQuote)
    requires
        quote.wf(),
        config.wf(),
        quote_computable(*quote, *config),
    ensures
        quote_computed_as(r, *quote, *client, *config, today),
        (quote.accepted is None && quote.declined is None && quote.sent is Some) ==> {
            &&& (r.status == QuoteStatus::Expired) == (r.expires.days < today.days)
            &&& (r.status == QuoteStatus::Sent) == (r.expires.days >= today.days)
        },
{
    match try_compute_quote_at(quote, client, config, today) {
        Some(c) => c,
        None => vstd::pervasive::unreached(),
    }
}

/// Computes every derived field of a quote as of today's local date.
pub fn compute_quote(quote: &Quote, client: &Client, config: &FolioConfig) -> (r: ComputedQuote)
    requires
        quote.wf(),
        config.wf(),
        quote_computable(*quote, *config),
    ensures
        exists|day: Date| day.wf() && quote_computed_as(r, *quote, *client, *config, day),
{
    let day = today();
    compute_quote_at(quote, client, config, day)
}

/// The quote status table, row by row: an accepted quote is accepted, else
/// a declined one declined, else an unsent one a draft; a sent quote is
/// expired exactly when its expiry date is strictly before today, and sent
/// otherwise (on its expiry day it is still sent).
pub proof fn law_quote_status_table(quote: Quote, expires: Date, today: Date)
    ensures
        quote.accepted is Some ==> quote_status_of(quote, expires, today) == QuoteStatus::Accepted,
        (quote.accepted is None && quote.declined is Some) ==> quote_status_of(quote, expires, today)
            == QuoteStatus::Declined,
        (quote.accepted is None && quote.declined is None && quote.sent is None) ==> quote_status_of(quote, expires, today)
            == QuoteStatus::Draft,
        (quote.accepted is None && quote.declined is None && quote.sent is Some) ==> {
            &&& (quote_status_of(quote, expires, today) == QuoteStatus::Expired) == (expires.days < today.days)
            &&& (quote_status_of(quote, expires, today) == QuoteStatus::Sent) == (today.days <= expires.days)
        },
{
}

/// Time only moves a sent quote towards expiry: once expired on some day,
/// it is expired on every later day, and sent on every earlier day up to
/// its expiry date.
pub proof fn law_quote_expiry_is_monotone(quote: Quote, expires: Date, day: Date, later: Date)
    requires
        quote.accepted is None && quote.declined is None && quote.sent is Some,
        day.days <= later.days,
    ensures
        quote_status_of(quote, expires, day) == QuoteStatus::Expired
            ==> quote_status_of(quote, expires, later) == QuoteStatus::Expired,
        quote_status_of(quote, expires, later) == QuoteStatus::Sent
            ==> quote_status_of(quote, expires, day) == QuoteStatus::Sent,
{
}

/// A quote's own expiry date is kept; without one it expires its validity
/// period after its date: `[quote].expires_days`, else
/// `[defaults].expires_days`, else 30 days.
pub proof fn law_quote_expiry_date(r: ComputedQuote, quote: Quote, client: Client, config: FolioConfig, today: Date)
    requires
        quote_computable(quote, config),
        quote_computed_as(r, quote, client, config, today),
    ensures
        quote.expires matches Some(d) ==> r.expires == d,
        (quote.expires is None && config.quote is Some && config.quote->0.expires_days is Some)
            ==> r.expires.days == quote.date.days + config.quote->0.expires_days->0,
        (quote.expires is None && !(config.quote is Some && config.quote->0.expires_days is Some)
            && config.defaults.expires_days is Some)
            ==> r.expires.days == quote.date.days + config.defaults.expires_days->0,
        (quote.expires is None && !(config.quote is Some && config.quote->0.expires_days is Some)
            && config.defaults.expires_days is None) ==> r.expires.days == quote.date.days + 30,
{
}

} // verus!
