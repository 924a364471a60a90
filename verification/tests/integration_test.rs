use folio::compute::{compute_invoice, derive_status};
use folio::date::{Date, Timestamp};
use folio::decimal::Decimal;
use folio::index::{check_pdf_state, compute_source_hash, BuildIndex, PdfState};
use folio::types::{
    Client, Defaults, FolioConfig, Invoice, InvoiceStatus, LineItem, MeConfig, PaidInfo, SentInfo,
    VoidedInfo,
};

// ─── helpers ───────────────────────────────────────────────────────────────

fn now() -> Timestamp {
    let t = chrono::Utc::now();
    Timestamp { secs: t.timestamp(), nanos: t.timestamp_subsec_nanos() }
}

fn ymd(y: i32, m: u32, d: u32) -> Date {
    Date::from_ymd(y, m, d).unwrap()
}

fn make_config() -> FolioConfig {
    FolioConfig {
        me: MeConfig {
            name: "Alice".into(),
            company: Some("Acme".into()),
            email: "alice@example.com".into(),
            address: vec!["1 Main St".into()],
            logo: None,
        },
        defaults: Defaults {
            currency: Some("USD".into()),
            tax_rate: Some(Decimal::from_int(10)),
            due_days: Some(30),
            template: Some("basic".into()),
            id_format: None,
            primary_color: None,
            notes: None,
            quote_id_format: None,
            expires_days: None,
        },
        email: None,
        build: None,
        paths: None,
        invoice: None,
        quote: None,
    }
}

fn make_client() -> Client {
    Client {
        name: "Bob Corp".into(),
        contact: Some("Bob".into()),
        email: "bob@example.com".into(),
        address: vec!["2 Client Ave".into()],
        currency: None,
        due_days: None,
        template: None,
        email_opts: None,
        notes: None,
        defaults: None,
        slug: "bob-corp".into(),
    }
}

fn make_invoice(id: &str, date: Date) -> Invoice {
    Invoice {
        id: id.into(),
        client: "bob-corp".into(),
        date,
        due: None,
        currency: None,
        template: None,
        primary_color: None,
        tax_rate: None,
        notes: None,
        items: vec![LineItem {
            description: "Dev work".into(),
            quantity: Decimal::from_int(10),
            unit: Some("hours".into()),
            rate: Decimal::from_int(100),
        }],
        sent: None,
        paid: None,
        voided: None,
    }
}

// ─── compute_invoice ───────────────────────────────────────────────────────

#[test]
fn test_compute_totals() {
    let config = make_config();
    let client = make_client();
    let date = ymd(2026, 1, 15);
    let invoice = make_invoice("INV-2026-001", date);

    let computed = compute_invoice(&invoice, &client, &config);

    // 10 hours * $100 = $1000 subtotal
    assert_eq!(computed.subtotal, Decimal::from_int(1000));
    // 10% tax = $100
    assert_eq!(computed.tax_amount, Decimal::from_int(100));
    // total = $1100
    assert_eq!(computed.total, Decimal::from_int(1100));
    // no payment yet => outstanding == total
    assert_eq!(computed.outstanding, Decimal::from_int(1100));
    // due = date + 30 days
    assert_eq!(computed.due, ymd(2026, 2, 14));
    assert_eq!(computed.currency, "USD");
    assert_eq!(computed.template, "basic");
}

#[test]
fn test_compute_zero_tax() {
    let mut config = make_config();
    config.defaults.tax_rate = Some(Decimal::zero());
    let client = make_client();
    let date = ymd(2026, 1, 1);
    let invoice = make_invoice("INV-2026-001", date);

    let computed = compute_invoice(&invoice, &client, &config);
    assert_eq!(computed.tax_amount, Decimal::zero());
    assert_eq!(computed.total, computed.subtotal);
}

// ─── status derivation ─────────────────────────────────────────────────────

#[test]
fn test_status_draft() {
    let invoice = make_invoice("INV-2026-001", ymd(2026, 1, 1));
    let due = ymd(2026, 2, 1);
    let today = ymd(2026, 1, 15);
    let status = derive_status(&invoice, Decimal::from_int(1000), &due, &today);
    assert_eq!(status, InvoiceStatus::Draft);
}

#[test]
fn test_status_sent() {
    let mut invoice = make_invoice("INV-2026-001", ymd(2026, 1, 1));
    invoice.sent = Some(SentInfo {
        at: now(),
        method: "email".into(),
        to: "bob@example.com".into(),
        cc: None,
    });
    let due = ymd(2026, 2, 1);
    let today = ymd(2026, 1, 15);
    let status = derive_status(&invoice, Decimal::from_int(1000), &due, &today);
    assert_eq!(status, InvoiceStatus::Sent);
}

#[test]
fn test_status_overdue() {
    let mut invoice = make_invoice("INV-2026-001", ymd(2026, 1, 1));
    invoice.sent = Some(SentInfo {
        at: now(),
        method: "email".into(),
        to: "bob@example.com".into(),
        cc: None,
    });
    let due = ymd(2026, 1, 10);
    let today = ymd(2026, 2, 1);
    let status = derive_status(&invoice, Decimal::from_int(1000), &due, &today);
    assert_eq!(status, InvoiceStatus::Overdue);
}

#[test]
fn test_status_paid() {
    let mut invoice = make_invoice("INV-2026-001", ymd(2026, 1, 1));
    invoice.paid = Some(PaidInfo {
        at: ymd(2026, 1, 20),
        amount: Decimal::from_int(1000),
        method: None,
        reference: None,
    });
    let due = ymd(2026, 2, 1);
    let today = ymd(2026, 1, 25);
    let status = derive_status(&invoice, Decimal::from_int(1000), &due, &today);
    assert_eq!(status, InvoiceStatus::Paid);
}

#[test]
fn test_status_partially_paid() {
    let mut invoice = make_invoice("INV-2026-001", ymd(2026, 1, 1));
    invoice.paid = Some(PaidInfo {
        at: ymd(2026, 1, 20),
        amount: Decimal::from_int(500),
        method: None,
        reference: None,
    });
    let due = ymd(2026, 2, 1);
    let today = ymd(2026, 1, 25);
    let status = derive_status(&invoice, Decimal::from_int(1000), &due, &today);
    assert_eq!(status, InvoiceStatus::PartiallyPaid);
}

#[test]
fn test_status_voided() {
    let mut invoice = make_invoice("INV-2026-001", ymd(2026, 1, 1));
    invoice.voided = Some(VoidedInfo {
        at: ymd(2026, 1, 5),
        reason: Some("error".into()),
    });
    let due = ymd(2026, 2, 1);
    let today = ymd(2026, 1, 25);
    let status = derive_status(&invoice, Decimal::from_int(1000), &due, &today);
    assert_eq!(status, InvoiceStatus::Voided);
}

// ─── source hash ───────────────────────────────────────────────────────────

#[test]
fn test_source_hash_deterministic() {
    let h1 = compute_source_hash("invoice", "client", "template", "me");
    let h2 = compute_source_hash("invoice", "client", "template", "me");
    assert_eq!(h1, h2);
}

#[test]
fn test_source_hash_changes_on_diff_input() {
    let h1 = compute_source_hash("invoice-v1", "client", "template", "me");
    let h2 = compute_source_hash("invoice-v2", "client", "template", "me");
    assert_ne!(h1, h2);
}

#[test]
fn test_source_hash_is_8_hex_chars() {
    let h = compute_source_hash("a", "b", "c", "d");
    assert_eq!(h.len(), 8);
    assert!(h.chars().all(|c| c.is_ascii_hexdigit()));
}

// ─── BuildIndex staleness ──────────────────────────────────────────────────

#[test]
fn test_pdf_state_never_built() {
    let index = BuildIndex::default();
    assert_eq!(
        check_pdf_state(&index, "INV-2026-001", "abc12345"),
        PdfState::NeverBuilt
    );
}

#[test]
fn test_pdf_state_fresh() {
    let mut index = BuildIndex::default();
    index.record("INV-2026-001", "abc12345");
    assert_eq!(
        check_pdf_state(&index, "INV-2026-001", "abc12345"),
        PdfState::Fresh
    );
}

#[test]
fn test_pdf_state_stale() {
    let mut index = BuildIndex::default();
    index.record("INV-2026-001", "abc12345");
    assert_eq!(
        check_pdf_state(&index, "INV-2026-001", "deadbeef"),
        PdfState::Stale
    );
}
