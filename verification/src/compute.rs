//! Derived invoice fields: totals, tax, due date, outstanding amount, status.
//!
//! All arithmetic goes through `rust_decimal` (see [`crate::decimal`]).  The
//! specification below follows the computation step by step:
//!
//! | field        | value                                        |
//! |--------------|----------------------------------------------|
//! | item total   | `round2(quantity × rate)`                    |
//! | subtotal     | `round2(Σ item totals)`                      |
//! | tax amount   | `round2(Σ item totals × (tax_rate / 100))`   |
//! | total        | `round2(Σ item totals + tax amount)`         |
//! | outstanding  | `max(0, round2(total − paid))`, `0` if voided, else `total` |
use vstd::prelude::*;
use crate::date::{today, Date, MAX_DAY, MIN_DAY};
use crate::decimal::{
    checked_add, checked_div, checked_mul, checked_sub, decimal_difference, decimal_product,
    decimal_quotient, decimal_sum, less_than, of_pair, opt_pair, pair_fits, round2, round_dp, Decimal,
};
use crate::types::{
    copy_paid, copy_sent, copy_voided, same_sent, setting_or, Client, ComputedInvoice, ComputedLineItem, FolioConfig, Invoice, InvoiceStatus,
    LineItem,
};

verus! {

/// An optional plain pair taken as an optional decimal.
pub open spec fn dec_of(o: Option<(int, nat)>) -> Option<Decimal> {
    match o {
        Some(p) => Some(of_pair(p)),
        None => None,
    }
}

/// `a × b` as `rust_decimal` computes it.
pub open spec fn spec_mul(a: Decimal, b: Decimal) -> Option<Decimal> {
    dec_of(decimal_product(a.mantissa as int, a.scale as nat, b.mantissa as int, b.scale as nat))
}

/// `a + b` as `rust_decimal` computes it.
pub open spec fn spec_add(a: Decimal, b: Decimal) -> Option<Decimal> {
    dec_of(decimal_sum(a.mantissa as int, a.scale as nat, b.mantissa as int, b.scale as nat))
}

/// `a - b` as `rust_decimal` computes it.
pub open spec fn spec_sub(a: Decimal, b: Decimal) -> Option<Decimal> {
    dec_of(decimal_difference(a.mantissa as int, a.scale as nat, b.mantissa as int, b.scale as nat))
}

/// `a / b` as `rust_decimal` computes it.
pub open spec fn spec_div(a: Decimal, b: Decimal) -> Option<Decimal> {
    dec_of(decimal_quotient(a.mantissa as int, a.scale as nat, b.mantissa as int, b.scale as nat))
}

pub open spec fn zero_dec() -> Decimal {
    Decimal { mantissa: 0, scale: 0 }
}

pub open spec fn hundred_dec() -> Decimal {
    Decimal { mantissa: 100, scale: 0 }
}

/// The total of one line: `quantity × rate`, rounded to cents.
pub open spec fn line_total(item: LineItem) -> Option<Decimal> {
    match spec_mul(item.quantity, item.rate) {
        Some(p) => Some(round2(p)),
        None => None,
    }
}

/// The sum of the line totals, added up from zero in order.
pub open spec fn items_sum(items: Seq<LineItem>) -> Option<Decimal>
    decreases items.len(),
{
    if items.len() == 0 {
        Some(zero_dec())
    } else {
        match (items_sum(items.drop_last()), line_total(items.last())) {
            (Some(s), Some(t)) => spec_add(s, t),
            _ => None,
        }
    }
}

/// The tax on `sum` at `rate` percent, rounded to cents.
pub open spec fn tax_of(sum: Decimal, rate: Decimal) -> Option<Decimal> {
    match spec_div(rate, hundred_dec()) {
        Some(f) => match spec_mul(sum, f) {
            Some(t) => Some(round2(t)),
            None => None,
        },
        None => None,
    }
}

/// The total: `sum + tax`, rounded to cents.
pub open spec fn total_of(sum: Decimal, tax: Decimal) -> Option<Decimal> {
    match spec_add(sum, tax) {
        Some(t) => Some(round2(t)),
        None => None,
    }
}

/// Subtotal, tax amount and total of a list of items at a tax rate.
pub open spec fn amounts_of(items: Seq<LineItem>, rate: Decimal) -> Option<(Decimal, Decimal, Decimal)> {
    match items_sum(items) {
        Some(s) => match tax_of(s, rate) {
            Some(t) => match total_of(s, t) {
                Some(total) => Some((round2(s), t, total)),
                None => None,
            },
            None => None,
        },
        None => None,
    }
}

/// The exact product `a × b`, when it is nonzero and `rust_decimal` can
/// hold it without rounding.
pub open spec fn exact_product(a: Decimal, b: Decimal) -> Option<Decimal> {
    if a.mantissa != 0 && b.mantissa != 0 && pair_fits(a.mantissa * b.mantissa, (a.scale + b.scale) as nat) {
        Some(Decimal { mantissa: (a.mantissa * b.mantissa) as i128, scale: (a.scale + b.scale) as u32 })
    } else {
        None
    }
}

/// Line totals are `quantity × rate` rounded to cents whenever the product
/// is exact.
pub open spec fn line_totals_exact(items: Seq<LineItem>, out: Seq<ComputedLineItem>) -> bool {
    forall|i: int|
        0 <= i < items.len() && 0 <= i < out.len() ==> (exact_product(items[i].quantity, items[i].rate) matches Some(p)
            ==> (#[trigger] out[i]).total == round2(p))
}

/// Every decimal of the items is one `rust_decimal` can hold.
pub open spec fn items_wf(items: Seq<LineItem>) -> bool {
    forall|i: int| 0 <= i < items.len() ==> (#[trigger] items[i]).quantity.wf() && items[i].rate.wf()
}

impl Invoice {
    /// Every decimal and date of the invoice is one `rust_decimal` and
    /// `chrono` can hold.
    pub open spec fn wf(self) -> bool {
        &&& self.date.wf()
        &&& (self.due matches Some(d) ==> d.wf())
        &&& (self.tax_rate matches Some(t) ==> t.wf())
        &&& items_wf(self.items@)
        &&& (self.paid matches Some(p) ==> p.amount.wf())
    }
}

impl FolioConfig {
    /// Every decimal of the configuration is one `rust_decimal` can hold.
    pub open spec fn wf(self) -> bool {
        self.defaults.tax_rate matches Some(t) ==> t.wf()
    }
}

/// The tax rate in force: the invoice's, else `[defaults].tax_rate`, else 0.
pub open spec fn resolved_tax_rate(own: Option<Decimal>, config: FolioConfig) -> Decimal {
    match own {
        Some(t) => t,
        None => match config.defaults.tax_rate {
            Some(t) => t,
            None => zero_dec(),
        },
    }
}

/// The first of three optional strings that is set.
pub open spec fn first_set(a: Option<String>, b: Option<String>, c: Option<String>) -> Option<String> {
    match a {
        Some(_) => a,
        None => match b {
            Some(_) => b,
            None => c,
        },
    }
}

/// The number of days until an invoice falls due: the client's, else
/// `[defaults].due_days`, else 30.
pub open spec fn resolved_due_days(client: Client, config: FolioConfig) -> u32 {
    match client.due_days {
        Some(d) => d,
        None => match config.defaults.due_days {
            Some(d) => d,
            None => 30,
        },
    }
}

/// The due date: the invoice's own, else its date plus the due days, if
/// that day is one `chrono` can represent.
pub open spec fn resolved_due(invoice: Invoice, client: Client, config: FolioConfig) -> Option<Date> {
    match invoice.due {
        Some(d) => Some(d),
        None => {
            let n = invoice.date.days + resolved_due_days(client, config);
            if MIN_DAY <= n <= MAX_DAY {
                Some(Date { days: n as i32 })
            } else {
                None
            }
        },
    }
}

/// What is still owed on an invoice with the given total.
pub open spec fn outstanding_of(invoice: Invoice, total: Decimal) -> Option<Decimal> {
    match invoice.paid {
        Some(p) => match spec_sub(total, p.amount) {
            Some(rem) => if rem.units() < 0 {
                Some(zero_dec())
            } else {
                Some(round2(rem))
            },
            None => None,
        },
        None => if invoice.voided is Some {
            Some(zero_dec())
        } else {
            Some(total)
        },
    }
}

/// The status table: voided, else paid (partially when the payment is below
/// the total), else draft when unsent, else overdue once the due date has
/// passed, else sent.
pub open spec fn status_of(invoice: Invoice, total: Decimal, due: Date, today: Date) -> InvoiceStatus {
    if invoice.voided is Some {
        InvoiceStatus::Voided
    } else if invoice.paid is Some {
        if invoice.paid->0.amount.units() < total.units() {
            InvoiceStatus::PartiallyPaid
        } else {
            InvoiceStatus::Paid
        }
    } else if invoice.sent is None {
        InvoiceStatus::Draft
    } else if due.days < today.days {
        InvoiceStatus::Overdue
    } else {
        InvoiceStatus::Sent
    }
}

/// The arithmetic of the invoice stays within what `rust_decimal` and
/// `chrono` can represent, so that computing it cannot overflow.
pub open spec fn invoice_computable(invoice: Invoice, client: Client, config: FolioConfig) -> bool {
    let amounts = amounts_of(invoice.items@, resolved_tax_rate(invoice.tax_rate, config));
    &&& amounts is Some
    &&& outstanding_of(invoice, amounts.unwrap().2) is Some
    &&& resolved_due(invoice, client, config) is Some
}

/// The line items carry over unchanged and gain their totals.
pub open spec fn items_computed(items: Seq<LineItem>, out: Seq<ComputedLineItem>) -> bool {
    &&& out.len() == items.len()
    &&& forall|i: int|
        0 <= i < items.len() ==> {
            &&& (#[trigger] out[i]).description == items[i].description
            &&& out[i].quantity == items[i].quantity
            &&& out[i].unit == items[i].unit
            &&& out[i].rate == items[i].rate
            &&& line_total(items[i]) == Some(out[i].total)
        }
}

/// `ComputedInvoice` is exactly what the invoice, client, configuration and
/// today's date determine.
pub open spec fn invoice_computed_as(
    r: ComputedInvoice,
    invoice: Invoice,
    client: Client,
    config: FolioConfig,
    today: Date,
) -> bool {
    let rate = resolved_tax_rate(invoice.tax_rate, config);
    let (subtotal, tax, total) = amounts_of(invoice.items@, rate)->0;
    let due = resolved_due(invoice, client, config)->0;
    &&& r.id == invoice.id
    &&& r.client == invoice.client
    &&& r.date == invoice.date
    &&& r.due == due
    &&& r.currency@ == setting_or(first_set(invoice.currency, client.currency, config.defaults.currency), "USD"@)
    &&& r.template@ == setting_or(first_set(invoice.template, client.template, config.defaults.template), "basic"@)
    &&& r.primary_color == first_set(invoice.primary_color, config.defaults.primary_color, None)
    &&& r.notes == first_set(
        invoice.notes,
        match client.defaults { Some(d) => d.notes, None => None },
        config.defaults.notes,
    )
    &&& r.tax_rate == rate
    &&& items_computed(invoice.items@, r.items@)
    &&& line_totals_exact(invoice.items@, r.items@)
    &&& r.subtotal == subtotal
    &&& r.tax_amount == tax
    &&& r.total == total
    &&& Some(r.outstanding) == outstanding_of(invoice, total)
    &&& r.status == status_of(invoice, total, due, today)
    &&& same_sent(r.sent, invoice.sent)
    &&& r.paid == invoice.paid
    &&& r.voided == invoice.voided
}


/// If a prefix of the items cannot be summed, neither can the whole list.
proof fn lemma_items_sum_prefix_none(items: Seq<LineItem>, j: int)
    requires
        0 <= j <= items.len(),
        items_sum(items.take(j)) is None,
    ensures
        items_sum(items) is None,
    decreases items.len() - j,
{
    if j < items.len() {
        assert(items.take(j + 1).drop_last() =~= items.take(j));
        lemma_items_sum_prefix_none(items, j + 1);
    } else {
        assert(items.take(j) =~= items);
    }
}

/// The items with their totals, and the sum of those totals; `None` when
/// `rust_decimal` overflows.
fn compute_items(items: &Vec<LineItem>) -> (r: Option<(Vec<ComputedLineItem>, Decimal)>)
    requires
        items_wf(items@),
    ensures
        match r {
            Some((out, sum)) => items_computed(items@, out@) && items_sum(items@) == Some(sum) && sum.wf()
                && line_totals_exact(items@, out@),
            None => items_sum(items@) is None,
        },
{
    let mut out: Vec<ComputedLineItem> = Vec::new();
    let mut sum = Decimal::zero();
    let mut i: usize = 0;
    assert(items@.take(0) =~= Seq::<LineItem>::empty());
    while i < items.len()
        invariant
            0 <= i <= items.len(),
            items_wf(items@),
            sum.wf(),
            items_sum(items@.take(i as int)) == Some(sum),
            items_computed(items@.take(i as int), out@),
            line_totals_exact(items@, out@),
        decreases items.len() - i,
    {
        let item = &items[i];
        assert(items@.take(i + 1).drop_last() =~= items@.take(i as int));
        assert(items@.take(i + 1).last() == items@[i as int]);
        let product = match checked_mul(item.quantity, item.rate) {
            Some(p) => p,
            None => {
                proof {
                    lemma_items_sum_prefix_none(items@, i + 1);
                }
                return None;
            },
        };
        let total = round_dp(product, 2);
        let next = match checked_add(sum, total) {
            Some(n) => n,
            None => {
                proof {
                    lemma_items_sum_prefix_none(items@, i + 1);
                }
                return None;
            },
        };
        let ghost prev = out@;
        out.push(ComputedLineItem {
            description: item.description.clone(),
            quantity: item.quantity,
            unit: item.unit.clone(),
            rate: item.rate,
            total,
        });
        sum = next;
        i = i + 1;
        assert forall|k: int| 0 <= k < i implies {
            &&& (#[trigger] out@[k]).description == items@.take(i as int)[k].description
            &&& out@[k].quantity == items@.take(i as int)[k].quantity
            &&& out@[k].unit == items@.take(i as int)[k].unit
            &&& out@[k].rate == items@.take(i as int)[k].rate
            &&& line_total(items@.take(i as int)[k]) == Some(out@[k].total)
        } by {
            if k < i - 1 {
                assert(out@[k] == prev[k]);
                assert(items@.take(i as int)[k] == items@.take(i - 1)[k]);
            }
        }
        assert forall|k: int| 0 <= k < items@.len() && 0 <= k < out@.len() implies (exact_product(items@[k].quantity, items@[k].rate) matches Some(p)
            ==> (#[trigger] out@[k]).total == round2(p)) by {
            if k < i - 1 {
                assert(out@[k] == prev[k]);
                assert(items@.take(i as int)[k] == items@.take(i - 1)[k]);
            }
        }
    }
    assert(items@.take(items.len() as int) =~= items@);
    Some((out, sum))
}

/// Items with totals, subtotal, tax amount and total, at a tax rate; `None`
/// when `rust_decimal` overflows.
pub fn compute_amounts(items: &Vec<LineItem>, rate: Decimal) -> (r: Option<(Vec<ComputedLineItem>, Decimal, Decimal, Decimal)>)
    requires
        items_wf(items@),
        rate.wf(),
    ensures
        match r {
            Some((out, subtotal, tax, total)) => {
                &&& items_computed(items@, out@)
                &&& line_totals_exact(items@, out@)
                &&& amounts_of(items@, rate) == Some((subtotal, tax, total))
                &&& subtotal.wf() && tax.wf() && total.wf()
                // At a zero tax rate there is no tax and the total is the subtotal.
                &&& rate.mantissa == 0 ==> tax == zero_dec() && total.units() == subtotal.units()
            },
            None => amounts_of(items@, rate) is None,
        },
{
    let (out, sum) = match compute_items(items) {
        Some(x) => x,
        None => return None,
    };
    let factor = match checked_div(rate, Decimal::from_int(100)) {
        Some(f) => f,
        None => return None,
    };
    let tax_raw = match checked_mul(sum, factor) {
        Some(t) => t,
        None => return None,
    };
    let tax = round_dp(tax_raw, 2);
    let total_raw = match checked_add(sum, tax) {
        Some(t) => t,
        None => return None,
    };
    let total = round_dp(total_raw, 2);
    let subtotal = round_dp(sum, 2);
    proof {
        if rate.mantissa == 0 && sum.mantissa == 0 {
            if sum.scale > 2 {
                crate::decimal::lemma_pow10_pos((sum.scale - 2) as nat);
                let p = crate::decimal::pow10((sum.scale - 2) as nat) as int;
                assert(0int / p == 0 && 0int % p == 0) by (nonlinear_arith)
                    requires
                        p >= 1,
                ;
            }
            assert(subtotal.mantissa == 0);
            assert(subtotal.units() == 0);
            assert(total.units() == 0);
        }
    }
    Some((out, subtotal, tax, total))
}

/// The invoice's status on `today`: voided, else paid or partially paid,
/// else draft when unsent, else overdue once `due` has passed, else sent.
pub fn derive_status(invoice: &Invoice, total: Decimal, due: &Date, today: &Date) -> (r: InvoiceStatus)
    requires
        invoice.wf(),
        total.wf(),
    ensures
        r == status_of(*invoice, total, *due, *today),
{
    if invoice.voided.is_some() {
        return InvoiceStatus::Voided;
    }
    if let Some(paid) = &invoice.paid {
        if less_than(paid.amount, total) {
            return InvoiceStatus::PartiallyPaid;
        }
        return InvoiceStatus::Paid;
    }
    if invoice.sent.is_none() {
        return InvoiceStatus::Draft;
    }
    if due.before(today) {
        InvoiceStatus::Overdue
    } else {
        InvoiceStatus::Sent
    }
}

/// The first of three optional strings that is set, copied.
pub fn first_set_of(a: &Option<String>, b: &Option<String>, c: &Option<String>) -> (r: Option<String>)
    ensures
        r == first_set(*a, *b, *c),
{
    match a {
        Some(_) => a.clone(),
        None => match b {
            Some(_) => b.clone(),
            None => c.clone(),
        },
    }
}

/// What is still owed: `total − paid` (never below zero, rounded to cents),
/// zero for a voided invoice, the total otherwise; `None` when
/// `rust_decimal` overflows.
fn compute_outstanding(invoice: &Invoice, total: Decimal) -> (r: Option<Decimal>)
    requires
        invoice.wf(),
        total.wf(),
    ensures
        r == outstanding_of(*invoice, total),
        r matches Some(x) ==> x.wf(),
        r matches Some(x) ==> (invoice.paid is Some ==> x.units() >= 0),
{
    if let Some(paid) = &invoice.paid {
        let remaining = match checked_sub(total, paid.amount) {
            Some(x) => x,
            None => return None,
        };
        if less_than(remaining, Decimal::zero()) {
            Some(Decimal::zero())
        } else {
            proof {
                lemma_round2_nonnegative(remaining);
            }
            Some(round_dp(remaining, 2))
        }
    } else if invoice.voided.is_some() {
        Some(Decimal::zero())
    } else {
        Some(total)
    }
}

/// Computes every derived field of an invoice as of `today`, or `None` when
/// the amounts overflow `rust_decimal` or the due date leaves `chrono`'s
/// range.
pub fn try_compute_invoice_at(invoice: &Invoice, client: &Client, config: &FolioConfig, today: Date) -> (r: Option<ComputedInvoice>)
    requires
        invoice.wf(),
        config.wf(),
    ensures
        r is Some <==> invoice_computable(*invoice, *client, *config),
        r matches Some(c) ==> invoice_computed_as(c, *invoice, *client, *config, today),
        // Once a payment is recorded, nothing negative is ever owed.
        r matches Some(c) ==> (invoice.paid is Some ==> c.outstanding.units() >= 0),
        // Without a due date of its own, the invoice falls due the client's
        // number of days after its date, whatever `[defaults]` says.
        r matches Some(c) ==> (invoice.due is None && client.due_days is Some
            ==> c.due.days == invoice.date.days + client.due_days->0),
        // An invoice's own due date is kept.
        r matches Some(c) ==> (invoice.due matches Some(d) ==> c.due == d),
{
    let tax_rate = match invoice.tax_rate {
        Some(t) => t,
        None => match config.defaults.tax_rate {
            Some(t) => t,
            None => Decimal::zero(),
        },
    };
    let currency = match first_set_of(&invoice.currency, &client.currency, &config.defaults.currency) {
        Some(c) => c,
        None => String::from_str("USD"),
    };
    let template = match first_set_of(&invoice.template, &client.template, &config.defaults.template) {
        Some(t) => t,
        None => String::from_str("basic"),
    };
    let primary_color = first_set_of(&invoice.primary_color, &config.defaults.primary_color, &None);
    let client_notes = match &client.defaults {
        Some(d) => d.notes.clone(),
        None => None,
    };
    let notes = first_set_of(&invoice.notes, &client_notes, &config.defaults.notes);
    let due_days: u32 = match client.due_days {
        Some(d) => d,
        None => match config.defaults.due_days {
            Some(d) => d,
            None => 30,
        },
    };
    let due = match invoice.due {
        Some(d) => d,
        None => match invoice.date.checked_add_days(due_days as i64) {
            Some(d) => d,
            None => return None,
        },
    };
    let (items, subtotal, tax_amount, total) = match compute_amounts(&invoice.items, tax_rate) {
        Some(x) => x,
        None => return None,
    };
    let outstanding = match compute_outstanding(invoice, total) {
        Some(o) => o,
        None => return None,
    };
    let status = derive_status(invoice, total, &due, &today);
    Some(ComputedInvoice {
        id: invoice.id.clone(),
        client: invoice.client.clone(),
        date: invoice.date,
        due,
        currency,
        template,
        primary_color,
        tax_rate,
        notes,
        items,
        subtotal,
        tax_amount,
        total,
        outstanding,
        status,
        sent: copy_sent(&invoice.sent),
        paid: copy_paid(&invoice.paid),
        voided: copy_voided(&invoice.voided),
    })
}


/// Computes every derived field of an invoice as of `today`.
pub fn compute_invoice_at(invoice: &Invoice, client: &Client, config: &FolioConfig, today: Date) -> (r: ComputedInvoice)
    requires
        invoice.wf(),
        config.wf(),
        invoice_computable(*invoice, *client, *config),
    ensures
        invoice_computed_as(r, *invoice, *client, *config, today),
        invoice.paid is Some ==> r.outstanding.units() >= 0,
        (invoice.due is None && client.due_days is Some) ==> r.due.days == invoice.date.days + client.due_days->0,
        invoice.due matches Some(d) ==> r.due == d,
{
    match try_compute_invoice_at(invoice, client, config, today) {
        Some(c) => c,
        None => vstd::pervasive::unreached(),
    }
}

/// Computes every derived field of an invoice as of today's local date.
pub fn compute_invoice(invoice: &Invoice, client: &Client, config: &FolioConfig) -> (r: ComputedInvoice)
    requires
        invoice.wf(),
        config.wf(),
        invoice_computable(*invoice, *client, *config),
    ensures
        exists|day: Date| day.wf() && invoice_computed_as(r, *invoice, *client, *config, day),
        invoice.paid is Some ==> r.outstanding.units() >= 0,
        (invoice.due is None && client.due_days is Some) ==> r.due.days == invoice.date.days + client.due_days->0,
        invoice.due matches Some(d) ==> r.due == d,
{
    let day = today();
    compute_invoice_at(invoice, client, config, day)
}

/// Rounding keeps the sign: a number that is not negative rounds to one
/// that is not negative.
pub proof fn lemma_round2_nonnegative(d: Decimal)
    requires
        d.wf(),
        d.units() >= 0,
    ensures
        round2(d).units() >= 0,
{
    crate::decimal::lemma_pow10_pos((crate::decimal::MAX_SCALE - d.scale) as nat);
    if d.mantissa < 0 {
        assert(d.mantissa * crate::decimal::pow10((crate::decimal::MAX_SCALE - d.scale) as nat) < 0) by (nonlinear_arith)
            requires
                d.mantissa < 0,
                crate::decimal::pow10((crate::decimal::MAX_SCALE - d.scale) as nat) >= 1,
        ;
    }
    let r = round2(d);
    crate::decimal::lemma_pow10_pos((crate::decimal::MAX_SCALE - r.scale) as nat);
    if d.scale > 2 {
        let p = crate::decimal::pow10((d.scale - 2) as nat) as int;
        crate::decimal::lemma_pow10_pos((d.scale - 2) as nat);
        let mag = crate::decimal::abs(d.mantissa as int);
        assert(0 <= mag / p <= mag) by (nonlinear_arith)
            requires
                mag >= 0,
                p >= 1,
        ;
        assert(d.mantissa >= 0);
    }
    assert(r.mantissa >= 0);
    assert(r.mantissa * crate::decimal::pow10((crate::decimal::MAX_SCALE - r.scale) as nat) >= 0) by (nonlinear_arith)
        requires
            r.mantissa >= 0,
            crate::decimal::pow10((crate::decimal::MAX_SCALE - r.scale) as nat) >= 1,
    ;
}

/// A voided invoice with no payment owes nothing.
pub proof fn law_voided_unpaid_owes_nothing(invoice: Invoice, total: Decimal)
    requires
        invoice.voided is Some,
        invoice.paid is None,
    ensures
        outstanding_of(invoice, total) == Some(zero_dec()),
        forall|due: Date, today: Date| status_of(invoice, total, due, today) == InvoiceStatus::Voided,
{
}

/// Payment decides the status ahead of the calendar: a paid invoice is
/// `paid` or `partially_paid`, never `overdue`, whatever the dates.
pub proof fn law_payment_overrides_due_date(invoice: Invoice, total: Decimal, due: Date, today: Date)
    requires
        invoice.voided is None,
        invoice.paid is Some,
    ensures
        status_of(invoice, total, due, today) == (if invoice.paid->0.amount.units() < total.units() {
            InvoiceStatus::PartiallyPaid
        } else {
            InvoiceStatus::Paid
        }),
{
}

/// The status table, row by row: voided wins; then a payment makes the
/// invoice paid or partially paid; then an unsent invoice is a draft; a sent
/// one is overdue exactly when its due date has passed, else sent.
pub proof fn law_status_table(invoice: Invoice, total: Decimal, due: Date, today: Date)
    ensures
        invoice.voided is Some ==> status_of(invoice, total, due, today) == InvoiceStatus::Voided,
        (invoice.voided is None && invoice.paid is Some) ==> (status_of(invoice, total, due, today) == InvoiceStatus::Paid
            || status_of(invoice, total, due, today) == InvoiceStatus::PartiallyPaid),
        (invoice.voided is None && invoice.paid is None && invoice.sent is None) ==> status_of(invoice, total, due, today)
            == InvoiceStatus::Draft,
        (invoice.voided is None && invoice.paid is None && invoice.sent is Some) ==> (
            (status_of(invoice, total, due, today) == InvoiceStatus::Overdue) == (due.days < today.days)
            && (status_of(invoice, total, due, today) == InvoiceStatus::Sent) == (due.days >= today.days)),
{
}

/// An invoice neither paid nor voided owes its whole total.
pub proof fn law_unpaid_owes_total(invoice: Invoice, total: Decimal)
    requires
        invoice.paid is None,
        invoice.voided is None,
    ensures
        outstanding_of(invoice, total) == Some(total),
{
}

/// Client terms come before the configuration: an invoice without a due
/// date of its own falls due exactly the client's `due_days` after its
/// date, whatever `[defaults].due_days` is; and an invoice that has a due
/// date keeps it.
pub proof fn law_client_terms_set_due_date(
    r: ComputedInvoice,
    invoice: Invoice,
    client: Client,
    config: FolioConfig,
    today: Date,
)
    requires
        invoice_computable(invoice, client, config),
        invoice_computed_as(r, invoice, client, config, today),
    ensures
        (invoice.due is None && client.due_days is Some) ==> r.due.days == invoice.date.days + client.due_days->0,
        (invoice.due is None && client.due_days is Some) ==> forall|other: FolioConfig|
            #[trigger] resolved_due(invoice, client, other) == resolved_due(invoice, client, config),
        (invoice.due is None && client.due_days is None && config.defaults.due_days is Some)
            ==> r.due.days == invoice.date.days + config.defaults.due_days->0,
        (invoice.due is None && client.due_days is None && config.defaults.due_days is None)
            ==> r.due.days == invoice.date.days + 30,
        invoice.due matches Some(d) ==> r.due == d,
{
}

/// The invoice's own settings come first, then the client's, then the
/// configuration's, then the built-in default: for the tax rate (no client
/// level), the currency (`USD`) and the template (`basic`).
pub proof fn law_invoice_settings_precedence(
    r: ComputedInvoice,
    invoice: Invoice,
    client: Client,
    config: FolioConfig,
    today: Date,
)
    requires
        invoice_computable(invoice, client, config),
        invoice_computed_as(r, invoice, client, config, today),
    ensures
        invoice.tax_rate matches Some(t) ==> r.tax_rate == t,
        (invoice.tax_rate is None && config.defaults.tax_rate is Some) ==> r.tax_rate == config.defaults.tax_rate->0,
        (invoice.tax_rate is None && config.defaults.tax_rate is None) ==> r.tax_rate.units() == 0,
        invoice.currency matches Some(c) ==> r.currency@ == c@,
        (invoice.currency is None && client.currency is Some) ==> r.currency@ == client.currency->0@,
        (invoice.currency is None && client.currency is None && config.defaults.currency is Some)
            ==> r.currency@ == config.defaults.currency->0@,
        (invoice.currency is None && client.currency is None && config.defaults.currency is None) ==> r.currency@ == "USD"@,
        invoice.template matches Some(t) ==> r.template@ == t@,
        (invoice.template is None && client.template is Some) ==> r.template@ == client.template->0@,
        (invoice.template is None && client.template is None && config.defaults.template is Some)
            ==> r.template@ == config.defaults.template->0@,
        (invoice.template is None && client.template is None && config.defaults.template is None) ==> r.template@ == "basic"@,
{
}

/// What is owed after a payment: nothing once the payment reaches the
/// total, else the rest of the total rounded to cents; never a negative
/// amount.
pub proof fn law_outstanding_after_payment(invoice: Invoice, total: Decimal, rest: Decimal)
    requires
        invoice.paid is Some,
        spec_sub(total, invoice.paid->0.amount) == Some(rest),
    ensures
        rest.units() < 0 ==> outstanding_of(invoice, total) == Some(zero_dec()),
        rest.units() >= 0 ==> outstanding_of(invoice, total) == Some(round2(rest)),
{
}

} // verus!
