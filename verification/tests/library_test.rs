use chrono::Datelike;
use folio::cmd::builds::{build_target, BuildArgs, BuildTarget};
use folio::cmd::client::{default_slug, notes_preview};
use folio::cmd::doc::{doc_file_name, doc_pdf_state, doc_scaffold, doc_title, truncate, DocPdfState};
use folio::cmd::init::gitignore_text;
use folio::cmd::list::{invoice_status_selected, list_kind, pdf_indicator, ListKind};
use folio::cmd::new::{format_id, id_sequence_number, next_invoice_seq, parse_line_item, require_items};
use folio::cmd::paid::record_payment;
use folio::cmd::quote::{accept_quote, decline_quote, invoice_from_quote};
use folio::cmd::send::{check_invoice_sendable, sent_record};
use folio::cmd::summary::{count_quotes, quote_pipeline, summarize, QuoteRow, SummaryRow};
use folio::compute::compute_amounts;
use folio::date::{parse_ymd, Date, Timestamp, MAX_DAY, MIN_DAY};
use folio::decimal::Decimal;
use folio::doc_store::{doc_output_path, doc_rel_path, documents_dir, list_docs};
use folio::email::{api_outcome, email_provider, resend_request, sendgrid_request, EmailMessage, EmailProvider};
use folio::error::FolioError;
use folio::index::{check_pdf_state, BuildIndex, PdfState};
use folio::markdown::{split_frontmatter, strip_tags};
use folio::paths::join_path;
use folio::store::{append_block, year_dir_selected, FilesystemStore};
use folio::templates::{get_template_html, list_bundled};
use folio::types::{
    Defaults, EmailConfig, FolioConfig, Invoice, InvoiceStatus, LineItem, MeConfig, PaidInfo, Quote,
    QuoteStatus,
};

fn ymd(y: i32, m: u32, d: u32) -> Date {
    Date::from_ymd(y, m, d).unwrap()
}

fn dec(s: &str) -> Decimal {
    let d: rust_decimal::Decimal = s.parse().unwrap();
    Decimal { mantissa: d.mantissa(), scale: d.scale() }
}

fn now() -> Timestamp {
    let t = chrono::Utc::now();
    Timestamp { secs: t.timestamp(), nanos: t.timestamp_subsec_nanos() }
}

fn item() -> LineItem {
    LineItem {
        description: "Design".into(),
        quantity: dec("2"),
        unit: Some("days".into()),
        rate: dec("450"),
    }
}

fn invoice(id: &str) -> Invoice {
    Invoice {
        id: id.into(),
        client: "acme".into(),
        date: ymd(2026, 3, 1),
        due: None,
        currency: None,
        template: None,
        primary_color: None,
        tax_rate: None,
        notes: None,
        items: vec![item()],
        sent: None,
        paid: None,
        voided: None,
    }
}

fn quote(id: &str) -> Quote {
    Quote {
        id: id.into(),
        client: "acme".into(),
        date: ymd(2026, 3, 1),
        expires: None,
        currency: Some("EUR".into()),
        template: Some("modern".into()),
        primary_color: None,
        tax_rate: Some(dec("20")),
        notes: Some("Thanks".into()),
        items: vec![item()],
        sent: None,
        accepted: None,
        declined: None,
    }
}

fn config() -> FolioConfig {
    FolioConfig {
        me: MeConfig {
            name: "Alice".into(),
            company: None,
            email: "alice@example.com".into(),
            address: vec![],
            logo: None,
        },
        defaults: Defaults {
            currency: None,
            tax_rate: None,
            due_days: None,
            template: None,
            id_format: None,
            primary_color: None,
            notes: None,
            quote_id_format: None,
            expires_days: None,
        },
        email: None,
        build: None,
        paths: None,
        invoice: None,
        quote: None,
    }
}

// ─── dates and decimals ────────────────────────────────────────────────────

#[test]
fn date_range_matches_chrono() {
    assert_eq!(chrono::NaiveDate::MIN.num_days_from_ce(), MIN_DAY);
    assert_eq!(chrono::NaiveDate::MAX.num_days_from_ce(), MAX_DAY);
}

#[test]
fn date_from_ymd_and_parse_agree() {
    assert_eq!(parse_ymd("2026-02-14"), Some(ymd(2026, 2, 14)));
    assert_eq!(parse_ymd("2026-02-30"), None);
    assert_eq!(Date::from_ymd(2026, 2, 30), None);
    assert_eq!(ymd(2026, 1, 15).checked_add_days(30), Some(ymd(2026, 2, 14)));
    assert_eq!(ymd(2026, 3, 1).checked_add_days(-1), Some(ymd(2026, 2, 28)));
    assert_eq!(Date { days: MAX_DAY }.checked_add_days(1), None);
}

#[test]
fn decimals_compare_by_value() {
    assert_eq!(dec("1100.00"), Decimal::from_int(1100));
    assert_ne!(dec("1100.01"), Decimal::from_int(1100));
    // Line totals round to cents, midpoints to the even neighbour.
    let line = |rate: &str| LineItem { description: "x".into(), quantity: dec("1"), unit: None, rate: dec(rate) };
    let (items, subtotal, tax, total) = compute_amounts(&vec![line("2.345"), line("2.355")], dec("10")).unwrap();
    assert_eq!(items[0].total, dec("2.34"));
    assert_eq!(items[1].total, dec("2.36"));
    assert_eq!(subtotal, dec("4.70"));
    assert_eq!(tax, dec("0.47"));
    assert_eq!(total, dec("5.17"));
    // A zero tax rate adds nothing.
    let (_, subtotal, tax, total) = compute_amounts(&vec![line("0.1"), line("0.2")], Decimal::zero()).unwrap();
    assert_eq!(subtotal, dec("0.3"));
    assert_eq!(tax, Decimal::zero());
    assert_eq!(total, subtotal);
}

// ─── IDs ───────────────────────────────────────────────────────────────────

#[test]
fn format_id_pads_and_substitutes() {
    assert_eq!(format_id("INV-{year}-{seq:03}", 2026, 7), "INV-2026-007");
    assert_eq!(format_id("INV-{year}-{seq:03}", 2026, 1234), "INV-2026-1234");
    assert_eq!(format_id("Q{year}/{seq}", 2025, 12), "Q2025/12");
    assert_eq!(format_id("{seq:4}", 2026, 5), "0005");
    assert_eq!(format_id("{seq:0000}", 2026, 5), "5");
    assert_eq!(format_id("{seq:ab}", 2026, 5), "05");
    assert_eq!(format_id("{seq:}", 2026, 5), "5");
    assert_eq!(format_id("plain", 2026, 5), "plain");
}

#[test]
fn next_sequence_is_one_past_the_largest() {
    let ids: Vec<String> = vec!["INV-2026-001".into(), "INV-2026-005".into(), "INV-2026-x".into()];
    assert_eq!(next_invoice_seq(&ids), 6);
    assert_eq!(next_invoice_seq(&vec![]), 1);
    assert_eq!(id_sequence_number("INV-2026-+12"), Some(12));
    assert_eq!(id_sequence_number("INV-2026-"), None);
    assert_eq!(id_sequence_number("42"), Some(42));
}

#[test]
fn line_items_need_decimals() {
    let ok = parse_line_item("Work".into(), "1.5", "hours".into(), "80").unwrap();
    assert_eq!(ok.quantity, dec("1.5"));
    assert_eq!(ok.rate, Decimal::from_int(80));
    match parse_line_item("Work".into(), "x", "hours".into(), "80") {
        Err(FolioError::Other(m)) => assert_eq!(m, "invalid quantity \"x\""),
        other => panic!("unexpected {:?}", other),
    }
    match parse_line_item("Work".into(), "1", "hours".into(), "") {
        Err(FolioError::Other(m)) => assert_eq!(m, "invalid rate \"\""),
        other => panic!("unexpected {:?}", other),
    }
    assert!(require_items(&vec![]).is_err());
    assert!(require_items(&vec![item()]).is_ok());
}

// ─── payments, voids, quotes ───────────────────────────────────────────────

#[test]
fn payment_defaults_to_total_and_happens_once() {
    let total = Decimal::from_int(900);
    let paid = record_payment(invoice("INV-2026-001"), total, None, ymd(2026, 3, 20), None, None).unwrap();
    let info = paid.paid.clone().unwrap();
    assert_eq!(info.amount, total);
    assert_eq!(info.at, ymd(2026, 3, 20));
    match record_payment(paid, total, Some(Decimal::from_int(1)), ymd(2026, 3, 21), None, None) {
        Err(FolioError::AlreadyPaid { id }) => assert_eq!(id, "INV-2026-001"),
        other => panic!("unexpected {:?}", other),
    }
}

#[test]
fn quotes_are_accepted_and_declined_once() {
    let accepted = accept_quote(quote("QUO-2026-001"), ymd(2026, 4, 1), Some("INV-2026-003".into())).unwrap();
    assert_eq!(accepted.accepted.as_ref().unwrap().invoice_id.as_deref(), Some("INV-2026-003"));
    match accept_quote(accepted, ymd(2026, 4, 2), None) {
        Err(FolioError::Other(m)) => assert_eq!(m, "Quote QUO-2026-001 is already accepted"),
        other => panic!("unexpected {:?}", other),
    }
    let declined = decline_quote(quote("QUO-2026-002"), ymd(2026, 4, 1), Some("Over budget".into())).unwrap();
    match decline_quote(declined, ymd(2026, 4, 2), None) {
        Err(FolioError::Other(m)) => assert_eq!(m, "Quote QUO-2026-002 is already declined"),
        other => panic!("unexpected {:?}", other),
    }
}

#[test]
fn converted_invoice_carries_the_quote() {
    let q = quote("QUO-2026-001");
    let inv = invoice_from_quote(&q, "INV-2026-009".into(), ymd(2026, 4, 1));
    assert_eq!(inv.id, "INV-2026-009");
    assert_eq!(inv.client, "acme");
    assert_eq!(inv.date, ymd(2026, 4, 1));
    assert_eq!(inv.currency.as_deref(), Some("EUR"));
    assert_eq!(inv.template.as_deref(), Some("modern"));
    assert_eq!(inv.tax_rate, Some(dec("20")));
    assert_eq!(inv.items.len(), 1);
    assert!(inv.due.is_none() && inv.sent.is_none() && inv.paid.is_none() && inv.voided.is_none());
}

#[test]
fn sending_twice_needs_force() {
    let mut inv = invoice("INV-2026-001");
    assert!(check_invoice_sendable(&inv, false).is_ok());
    inv.sent = Some(sent_record(now(), false, "bob@example.com".into(), vec![]));
    assert!(matches!(check_invoice_sendable(&inv, false), Err(FolioError::AlreadySent { .. })));
    assert!(check_invoice_sendable(&inv, true).is_ok());
    let manual = sent_record(now(), true, "bob@example.com".into(), vec!["cc@example.com".into()]);
    assert_eq!(manual.method, "manual");
    assert!(manual.cc.is_none());
    let emailed = sent_record(now(), false, "bob@example.com".into(), vec!["cc@example.com".into()]);
    assert_eq!(emailed.method, "email");
    assert_eq!(emailed.cc, Some(vec!["cc@example.com".to_string()]));
}

// ─── summary ───────────────────────────────────────────────────────────────

fn row(client: &str, currency: &str, status: InvoiceStatus, total: &str, outstanding: &str, paid: Option<&str>) -> SummaryRow {
    SummaryRow {
        client: client.into(),
        currency: currency.into(),
        status,
        total: dec(total),
        outstanding: dec(outstanding),
        paid: paid.map(dec),
    }
}

#[test]
fn summary_leaves_voided_invoices_out() {
    let rows = vec![
        row("acme", "USD", InvoiceStatus::Paid, "1100", "0", Some("1100")),
        row("bob", "EUR", InvoiceStatus::Sent, "250.50", "250.50", None),
        row("acme", "USD", InvoiceStatus::Voided, "999", "0", None),
        row("acme", "USD", InvoiceStatus::PartiallyPaid, "100", "40", Some("60")),
    ];
    let s = summarize(&rows).unwrap();
    assert_eq!(s.total_billed, dec("1450.50"));
    assert_eq!(s.total_paid, dec("1160"));
    assert_eq!(s.total_outstanding, dec("290.50"));
    assert_eq!(s.by_client.len(), 2);
    assert_eq!(s.by_client[0].0, "acme");
    assert_eq!(s.by_client[0].1, dec("1200"));
    assert_eq!(s.by_client[0].2, dec("1160"));
    assert_eq!(s.by_currency.len(), 2);
    assert_eq!(s.by_currency[1].1, dec("250.50"));
    assert_eq!(s.status_counts.len(), 3);
    assert!(s.status_counts.iter().all(|(st, n)| *st != InvoiceStatus::Voided && *n == 1));

    // Adding a voided invoice changes nothing.
    let mut more = rows.clone();
    more.push(row("zed", "JPY", InvoiceStatus::Voided, "5", "0", None));
    let t = summarize(&more).unwrap();
    assert_eq!(t.total_billed, s.total_billed);
    assert_eq!(t.by_client.len(), s.by_client.len());
    assert_eq!(t.by_currency.len(), s.by_currency.len());
}

#[test]
fn summary_overflow_gives_none() {
    let big = "79228162514264337593543950335";
    let rows = vec![
        row("a", "USD", InvoiceStatus::Sent, big, "0", None),
        row("a", "USD", InvoiceStatus::Sent, big, "0", None),
    ];
    assert!(summarize(&rows).is_none());
    assert!(summarize(&vec![]).is_some());
}

#[test]
fn quote_pipeline_splits_accepted_from_pending() {
    let rows = vec![
        QuoteRow { status: QuoteStatus::Accepted, total: dec("500") },
        QuoteRow { status: QuoteStatus::Sent, total: dec("300.25") },
        QuoteRow { status: QuoteStatus::Declined, total: dec("100") },
    ];
    let p = quote_pipeline(&rows).unwrap();
    assert_eq!(p.quoted_total, dec("900.25"));
    assert_eq!(p.accepted_total, dec("500"));
    assert_eq!(p.pending_total, dec("400.25"));
    assert_eq!(count_quotes(&rows, QuoteStatus::Sent), 1);
    assert_eq!(count_quotes(&rows, QuoteStatus::Expired), 0);
}

// ─── listing ───────────────────────────────────────────────────────────────

#[test]
fn unpaid_filter_matches_open_invoices() {
    let unpaid = Some("unpaid".to_string());
    assert!(invoice_status_selected(InvoiceStatus::Draft, &unpaid));
    assert!(invoice_status_selected(InvoiceStatus::Sent, &unpaid));
    assert!(invoice_status_selected(InvoiceStatus::Overdue, &unpaid));
    assert!(!invoice_status_selected(InvoiceStatus::Paid, &unpaid));
    assert!(!invoice_status_selected(InvoiceStatus::Voided, &unpaid));
    assert!(invoice_status_selected(InvoiceStatus::PartiallyPaid, &Some("partially_paid".into())));
    assert!(!invoice_status_selected(InvoiceStatus::Paid, &Some("sent".into())));
    assert!(invoice_status_selected(InvoiceStatus::Paid, &None));
    assert_eq!(list_kind("invoice"), ListKind::Invoices);
    assert_eq!(list_kind("quote"), ListKind::Quotes);
    assert_eq!(list_kind("everything"), ListKind::All);
    assert_eq!(pdf_indicator(PdfState::Fresh), "✓");
    assert_eq!(pdf_indicator(PdfState::Stale), "~");
    assert_eq!(pdf_indicator(PdfState::NeverBuilt), "—");
}

#[test]
fn build_needs_an_id_or_a_selection() {
    let mut args = BuildArgs {
        id: None,
        all: false,
        year: None,
        client: None,
        status: None,
        force: false,
        open: false,
        template: None,
        output: None,
    };
    match build_target(&args) {
        Err(FolioError::Other(m)) => assert_eq!(m, "Specify an invoice ID, --all, --year, or --client"),
        other => panic!("unexpected {:?}", other),
    }
    args.year = Some(2026);
    assert!(matches!(build_target(&args), Ok(BuildTarget::Selected(f)) if f.year == Some(2026)));
    args.id = Some("INV-2026-001".into());
    assert!(matches!(build_target(&args), Ok(BuildTarget::One(id)) if id == "INV-2026-001"));
}

#[test]
fn recording_a_build_makes_only_that_pdf_fresh() {
    let mut index = BuildIndex::default();
    index.record("INV-2026-001", "aaaa0000");
    index.record("INV-2026-002", "bbbb1111");
    index.record("INV-2026-001", "cccc2222");
    assert_eq!(check_pdf_state(&index, "INV-2026-001", "cccc2222"), PdfState::Fresh);
    assert_eq!(check_pdf_state(&index, "INV-2026-001", "aaaa0000"), PdfState::Stale);
    assert_eq!(check_pdf_state(&index, "INV-2026-002", "bbbb1111"), PdfState::Fresh);
    assert_eq!(index.builds.len(), 2);
}

// ─── documents ─────────────────────────────────────────────────────────────

#[test]
fn document_helpers() {
    assert_eq!(truncate("hello world", 5), "hell…");
    assert_eq!(truncate("hello", 5), "hello");
    assert_eq!(doc_file_name("proposal"), "proposal.md");
    assert_eq!(doc_file_name("2026/q3-brief.md"), "2026/q3-brief.md");
    assert_eq!(doc_title("2026/q3-brief.md"), "Q3 brief");
    assert_eq!(doc_title("onboarding_welcome.md"), "Onboarding welcome");
    assert_eq!(
        doc_scaffold("Proposal", "2026-05-01", "Alice", &Some("modern".into())),
        "---\ntitle: Proposal\ndate: 2026-05-01\nauthor: Alice\ntemplate: modern\n---\n\n# Proposal\n\n"
    );
    assert_eq!(
        doc_scaffold("Proposal", "2026-05-01", "Alice", &None),
        "---\ntitle: Proposal\ndate: 2026-05-01\nauthor: Alice\n---\n\n# Proposal\n\n"
    );
    assert_eq!(doc_pdf_state(false, Some(1), Some(2)), DocPdfState::Missing);
    assert_eq!(doc_pdf_state(true, Some(1), Some(2)), DocPdfState::Fresh);
    assert_eq!(doc_pdf_state(true, Some(3), Some(2)), DocPdfState::Stale);
    assert_eq!(doc_pdf_state(true, None, Some(2)), DocPdfState::Stale);
}

#[test]
fn document_paths() {
    assert_eq!(documents_dir("/r/clients", "acme"), "/r/clients/acme/documents");
    assert_eq!(
        doc_output_path("/r/clients/acme/documents/proposals/q3.md", "/r/clients", "/r/output"),
        "/r/output/clients/acme/documents/proposals/q3.pdf"
    );
    let found: Vec<String> = vec![
        "/d/b.md".into(),
        "/d/notes.txt".into(),
        "/d/a/z.md".into(),
        "/d/a-c.md".into(),
        "/d/.md".into(),
    ];
    assert_eq!(list_docs(&found), vec!["/d/a/z.md".to_string(), "/d/a-c.md".into(), "/d/b.md".into()]);
}

#[test]
fn client_helpers() {
    assert_eq!(default_slug("Acme  Corp Ltd"), "acme-corp-ltd");
    assert_eq!(default_slug("  Bob "), "bob");
    assert_eq!(notes_preview("Bank: First\r\nAccount: 1"), "Bank: First");
    assert_eq!(notes_preview(&"x".repeat(80)), "x".repeat(60));
    assert_eq!(notes_preview(""), "");
}

// ─── paths, stores, templates, email, markdown, init ───────────────────────

#[test]
fn store_paths() {
    let store = FilesystemStore::new("/repo");
    assert_eq!(store.invoice_path("INV-2026-001"), "/repo/invoices/2026/INV-2026-001.toml");
    assert_eq!(store.invoice_path("DRAFT"), "/repo/invoices/unknown/DRAFT.toml");
    assert_eq!(store.client_path("acme"), "/repo/clients/acme.toml");
    assert_eq!(join_path("/a", "/b"), "/b");
    assert_eq!(join_path("a/", "b"), "a/b");
    assert!(year_dir_selected("2026", Some(2026)));
    assert!(!year_dir_selected("2025", Some(2026)));
    assert!(year_dir_selected("drafts", Some(2026)));
}

#[test]
fn templates_and_email() {
    let names: Vec<String> = list_bundled().into_iter().map(|t| t.name).collect();
    assert_eq!(names, vec!["basic", "classic", "modern", "floral", "slate", "signature"]);
    assert!(list_bundled().iter().any(|t| t.name == "signature" && t.is_bundled));
    assert!(matches!(get_template_html("x", None, None), Err(FolioError::TemplateNotFound { .. })));
    assert_eq!(get_template_html("x", Some("c".into()), Some("b".into())).unwrap(), "c");
    let mut cfg = config();
    match email_provider(&cfg) {
        Err(FolioError::Other(m)) => assert_eq!(m, "Email not configured in folio.toml"),
        other => panic!("unexpected {:?}", other),
    }
    cfg.email = Some(EmailConfig {
        provider: Some("pigeon".into()),
        from: None,
        from_name: None,
        smtp: None,
        sendgrid: None,
        resend: None,
        templates: None,
    });
    match email_provider(&cfg) {
        Err(FolioError::Other(m)) => assert_eq!(m, "Unknown email provider: pigeon"),
        other => panic!("unexpected {:?}", other),
    }
    cfg.email.as_mut().unwrap().provider = None;
    assert!(matches!(email_provider(&cfg), Ok(EmailProvider::Smtp)));
}

#[test]
fn frontmatter_and_tags() {
    let (fm, body) = split_frontmatter("---\ntitle: X\n---\n\nBody");
    assert_eq!(fm.as_deref(), Some("title: X"));
    assert_eq!(body, "Body");
    let (fm, body) = split_frontmatter("No frontmatter");
    assert!(fm.is_none());
    assert_eq!(body, "No frontmatter");
    assert_eq!(strip_tags("<b>Bold</b> text"), "Bold text");
    assert_eq!(gitignore_text(), "output/\n.folio/\n");
}

#[test]
fn paid_info_keeps_the_reference() {
    let p = PaidInfo { at: ymd(2026, 1, 1), amount: dec("5"), method: Some("paypal".into()), reference: Some("T-1".into()) };
    let q = p.copy();
    assert_eq!(q.reference.as_deref(), Some("T-1"));
    assert_eq!(q.amount, dec("5"));
}

#[test]
fn init_files_are_filled_in() {
    let toml = folio::cmd::init::init_config_toml("Jane", "jane.dev", "jane@jane.dev", "1 Road", "Town");
    assert!(toml.starts_with("[me]\nname    = \"Jane\"\ncompany = \"jane.dev\"\nemail   = \"jane@jane.dev\"\naddress = [\"1 Road\", \"Town\"]\n"));
    assert!(toml.contains("id_format = \"INV-{year}-{seq:03}\""));
    assert!(toml.contains("subject = \"{{document_type}} {{invoice.id}} from {{me.company}}\""));
    assert!(toml.contains("from_name = \"Jane\""));
    let readme = folio::cmd::init::init_readme("jane.dev");
    assert!(readme.starts_with("# jane.dev — Invoices & Quotes\n"));
}

#[test]
fn document_selection_under_a_path() {
    let docs: Vec<String> = vec![
        "/r/clients/acme/documents/2026/q1.md".into(),
        "/r/clients/acme/documents/2026/q2.md".into(),
        "/r/clients/acme/documents/proposal.md".into(),
    ];
    let chosen = folio::cmd::doc::build_selection("/r/clients", "acme", &Some("2026".into()), docs.clone()).unwrap();
    assert_eq!(chosen.len(), 2);
    match folio::cmd::doc::build_selection("/r/clients", "acme", &Some("2027".into()), docs.clone()) {
        Err(FolioError::Other(m)) => assert_eq!(m, "No .md files found under /r/clients/acme/documents/2027"),
        other => panic!("unexpected {:?}", other),
    }
    assert_eq!(folio::cmd::doc::build_selection("/r/clients", "acme", &None, docs).unwrap().len(), 3);
}

#[test]
fn quote_emails_prefer_the_template_body() {
    let cfg = config();
    let (subject, body) = folio::cmd::quote::quote_email_templates(&cfg, Some("<p>custom</p>".into()));
    assert_eq!(subject, "{{ document_type }} {{ invoice.id }} from {{ me.company }}");
    assert_eq!(body, "<p>custom</p>");
    let (_, body) = folio::cmd::quote::quote_email_templates(&cfg, None);
    assert!(body.starts_with("Hi {{ client.contact }},"));
    let (subject, _) = folio::cmd::send::invoice_email_templates(&cfg);
    assert_eq!(subject, "Invoice {{ invoice.id }} from {{ me.company }}");
}

#[test]
fn render_paths_and_templates() {
    assert_eq!(folio::cmd::render::render_output_path("notes/report.md", &None), "notes/report.pdf");
    assert_eq!(folio::cmd::render::render_output_path("README.md", &None), "README.pdf");
    assert_eq!(folio::cmd::render::render_output_path("a.md", &Some("out/x.pdf".into())), "out/x.pdf");
    assert_eq!(folio::cmd::render::render_template_name(&None, &None), "basic");
    assert_eq!(folio::cmd::render::render_template_name(&None, &Some("modern".into())), "modern");
    assert_eq!(
        folio::cmd::doc::doc_template_name(&None, &None, &Some("slate".into())),
        "slate"
    );
}

#[test]
fn names_sort_in_str_order() {
    let names: Vec<String> = vec!["beta".into(), "Alpha".into(), "alpha".into(), "al".into(), "é".into(), "z".into(), "alpha".into()];
    let sorted = folio::text::sort_names(names.clone());
    let mut expected = names;
    expected.sort();
    assert_eq!(sorted, expected);
    assert!(folio::text::text_less("al", "alpha"));
    assert!(!folio::text::text_less("alpha", "alpha"));
    assert!(folio::text::text_less("Z", "a"));
}

#[test]
fn sequence_numbers_run_out_at_the_top() {
    let full: Vec<String> = vec!["INV-2026-4294967295".into()];
    assert_eq!(folio::cmd::new::checked_next_seq(&full), None);
    let some: Vec<String> = vec!["INV-2026-009".into(), "QUO-2026-010".into()];
    assert_eq!(folio::cmd::new::checked_next_seq(&some), Some(11));
    assert_eq!(folio::cmd::new::max_sequence(&some), 10);
}

fn mail_setup() -> (EmailConfig, FolioConfig, EmailMessage) {
    let email = EmailConfig {
        provider: Some("sendgrid".into()),
        from: Some("billing@example.com".into()),
        from_name: None,
        smtp: None,
        sendgrid: None,
        resend: None,
        templates: None,
    };
    let mut cfg = config();
    cfg.email = Some(email.clone());
    let msg = EmailMessage {
        to: "client@example.com".into(),
        cc: vec![],
        bcc: vec![],
        subject: "Invoice \"INV-1\"".into(),
        body: "<p>Hi\n</p>".into(),
        attachment_path: None,
        attachment_name: None,
    };
    (email, cfg, msg)
}

#[test]
fn sendgrid_request_body() {
    let (email, cfg, msg) = mail_setup();
    match sendgrid_request(&email, &cfg, &msg, &None, &None) {
        Err(FolioError::Other(m)) => assert_eq!(m, "FOLIO_SENDGRID_API_KEY not set"),
        other => panic!("unexpected {:?}", other),
    }
    let q = sendgrid_request(&email, &cfg, &msg, &Some("k1".into()), &None).unwrap();
    assert_eq!(q.url, "https://api.sendgrid.com/v3/mail/send");
    assert_eq!(q.authorization, "Bearer k1");
    let expected = format!(
        "{{\"personalizations\":[{{\"to\":[{{\"email\":\"client@example.com\"}}]}}],\"from\":{{\"email\":\"billing@example.com\",\"name\":\"{}\"}},\"subject\":\"Invoice \\\"INV-1\\\"\",\"content\":[{{\"type\":\"text/html\",\"value\":\"<p>Hi\\n</p>\"}}]}}",
        cfg.me.name
    );
    assert_eq!(q.body, expected);
    let parsed: serde_json::Value = serde_json::from_str(&q.body).unwrap();
    assert_eq!(parsed["subject"], "Invoice \"INV-1\"");
    assert_eq!(parsed["content"][0]["value"], "<p>Hi\n</p>");

    let mut msg2 = msg.clone();
    msg2.cc = vec!["a@x.com".into(), "b@x.com".into()];
    msg2.attachment_path = Some("/tmp/x.pdf".into());
    let q = sendgrid_request(&email, &cfg, &msg2, &Some("k1".into()), &Some(b"Man".to_vec())).unwrap();
    let parsed: serde_json::Value = serde_json::from_str(&q.body).unwrap();
    assert_eq!(parsed["personalizations"][0]["cc"][1]["email"], "b@x.com");
    assert_eq!(parsed["attachments"][0]["content"], "TWFu");
    assert_eq!(parsed["attachments"][0]["filename"], "invoice.pdf");
    assert_eq!(parsed["attachments"][0]["type"], "application/pdf");
}

#[test]
fn resend_request_body() {
    let (email, cfg, mut msg) = mail_setup();
    match resend_request(&email, &cfg, &msg, &None, &None) {
        Err(FolioError::Other(m)) => assert_eq!(m, "FOLIO_RESEND_API_KEY not set"),
        other => panic!("unexpected {:?}", other),
    }
    msg.cc = vec!["a@x.com".into()];
    msg.attachment_name = Some("INV-1.pdf".into());
    let q = resend_request(&email, &cfg, &msg, &Some("re_1".into()), &Some(b"hello".to_vec())).unwrap();
    assert_eq!(q.url, "https://api.resend.com/emails");
    assert_eq!(q.authorization, "Bearer re_1");
    let expected = format!(
        "{{\"from\":\"{} <billing@example.com>\",\"to\":[\"client@example.com\"],\"cc\":[\"a@x.com\"],\"subject\":\"Invoice \\\"INV-1\\\"\",\"html\":\"<p>Hi\\n</p>\",\"attachments\":[{{\"filename\":\"INV-1.pdf\",\"content\":\"aGVsbG8=\"}}]}}",
        cfg.me.name
    );
    assert_eq!(q.body, expected);
    let parsed: serde_json::Value = serde_json::from_str(&q.body).unwrap();
    assert_eq!(parsed["attachments"][0]["content"], "aGVsbG8=");
}

#[test]
fn provider_outcome() {
    assert!(api_outcome("SendGrid", 202, "").is_ok());
    assert!(api_outcome("Resend", 200, "{}").is_ok());
    match api_outcome("SendGrid", 401, "bad key") {
        Err(FolioError::Other(m)) => assert_eq!(m, "SendGrid returned HTTP 401: bad key"),
        other => panic!("unexpected {:?}", other),
    }
    match api_outcome("Resend", 300, "") {
        Err(FolioError::Other(m)) => assert_eq!(m, "Resend returned HTTP 300: "),
        other => panic!("unexpected {:?}", other),
    }
}

#[test]
fn calendar_day_numbers() {
    assert_eq!(ymd(1, 1, 1).days, 1);
    assert_eq!(ymd(0, 1, 1).days, -365);
    assert_eq!(ymd(-1, 12, 31).days, -366);
    assert_eq!(ymd(2024, 3, 1).days, 738946);
    assert_eq!(ymd(-262143, 1, 1).days, MIN_DAY);
    assert_eq!(ymd(262142, 12, 31).days, MAX_DAY);
    assert!(Date::from_ymd(262143, 1, 1).is_none());
    assert!(Date::from_ymd(2023, 2, 29).is_none());
    assert!(Date::from_ymd(1900, 2, 29).is_none());
    assert!(Date::from_ymd(2000, 2, 29).is_some());
    assert!(Date::from_ymd(2024, 4, 31).is_none());
    assert!(Date::from_ymd(2024, 13, 1).is_none());
    for (y, m, d) in [(2024, 2, 29), (-4, 2, 29), (-100, 3, 1), (1999, 12, 31)] {
        let c = chrono::NaiveDate::from_ymd_opt(y, m, d).unwrap();
        assert_eq!(ymd(y, m, d).days, c.num_days_from_ce());
    }
}

#[test]
fn blocks_are_appended_in_place() {
    let text = "# keep this comment\nid = \"INV-2026-001\"\n";
    let block = "[paid]\nat = \"2026-05-15\"\n";
    let r = append_block(text, block);
    assert_eq!(r, "# keep this comment\nid = \"INV-2026-001\"\n\n[paid]\nat = \"2026-05-15\"\n");
    assert!(r.starts_with(text));
    assert_eq!(append_block("id = 1", "[voided]\n"), "id = 1\n\n[voided]\n");
    assert_eq!(append_block("", "[sent]\n"), "[sent]\n");
    let parsed: toml::Table = toml::from_str(&r).unwrap();
    assert!(parsed.contains_key("paid"));
}

#[test]
fn document_paths_round_trip() {
    let src = "/r/clients/acme/documents/proposals/q3.md";
    let rel = doc_rel_path(src, "/r/clients", "acme");
    assert_eq!(rel, "proposals/q3.md");
    assert_eq!(std::path::Path::new(&documents_dir("/r/clients", "acme")).join(&rel), std::path::Path::new(src));
    assert_eq!(doc_rel_path("/elsewhere/x.md", "/r/clients", "acme"), "/elsewhere/x.md");
    assert_eq!(doc_output_path("/elsewhere/x.md", "/r/clients", "/r/output"), "/elsewhere/x.pdf");
    let ids: Vec<String> = (1..=3).map(|n| format_id("INV-{year}-{seq:03}", 2026, n)).collect();
    for (n, id) in ids.iter().enumerate() {
        assert!(id.starts_with("INV-2026-"));
        assert_eq!(id_sequence_number(id), Some(n as u32 + 1));
    }
}
