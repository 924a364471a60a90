//! `folio init`: the files a new repository starts with.
//!
//! `folio.toml` is written from the answers given (name, company, email
//! and two address lines), beside a `.gitignore` and a starter `README.md`.
use vstd::prelude::*;
use crate::error::FolioError;

verus! {

/// Arguments of `folio init`.
#[derive(Clone, Debug)]
pub struct InitArgs {
    /// Your full name (skips the interactive prompt).
    pub name: Option<String>,
    /// Your company name or domain (skips the interactive prompt).
    pub company: Option<String>,
}

/// The error when the directory already holds a repository.
pub fn already_initialised() -> (r: FolioError)
    ensures
        r matches FolioError::Other(m) && m@ == "folio.toml already exists in current directory"@,
{
    FolioError::Other(String::from_str("folio.toml already exists in current directory"))
}

/// The `.gitignore` of a new repository: PDFs and the build cache stay out.
pub fn gitignore_text() -> (r: String)
    ensures
        r@ == "output/\n.folio/\n"@,
{
    String::from_str("output/\n.folio/\n")
}

/// The `folio.toml` of a new repository.
pub open spec fn config_text(name: Seq<char>, company: Seq<char>, email: Seq<char>, line1: Seq<char>, line2: Seq<char>) -> Seq<char> {
        "[me]\nname    = \""@
        + name
        + "\"\ncompany = \""@
        + company
        + "\"\nemail   = \""@
        + email
        + "\"\naddress = [\""@
        + line1
        + "\", \""@
        + line2
        + "\"]\n\n# Shared across both invoices and quotes\n[defaults]\ncurrency      = \"USD\"\ntax_rate      = 0.0\ntemplate      = \"basic\"     # basic | classic | modern | floral | slate | signature\n# primary_color = \"#7c3aed\" # optional accent colour for all documents\n# notes = \"\"                # optional notes printed on every document (e.g. bank details)\n\n# Invoice defaults\n[invoice]\nid_format = \"INV-{year}-{seq:03}\"\ndue_days  = 30\n# template = \"modern\"       # optional; overrides [defaults].template for invoices only\n\n# Quote defaults\n[quote]\nid_format    = \"QUO-{year}-{seq:03}\"\nexpires_days = 30\n# template = \"modern\"       # optional; overrides [defaults].template for quotes only\n\n[email]\nprovider  = \"smtp\"\nfrom      = \""@
        + email
        + "\"\nfrom_name = \""@
        + name
        + "\"\n\n[email.smtp]\nhost     = \"smtp.gmail.com\"\nport     = 587\nusername = \""@
        + email
        + "\"\n# password via env var: FOLIO_SMTP_PASSWORD\n\n[email.templates]\nsubject = \"{{document_type}} {{invoice.id}} from {{me.company}}\"\n# body is provided by templates/{template_name}/email.html\n# uncomment and edit to override:\n# body = \"\"\"\n# Hi {{client.contact}},\n#\n# Please find attached {{document_type | lower}} {{invoice.id}}.\n#\n# {{me.name}}\n# \"\"\"\n"@
}

pub fn init_config_toml(name: &str, company: &str, email: &str, line1: &str, line2: &str) -> (r: String)
    ensures
        r@ == config_text(name@, company@, email@, line1@, line2@),
{
    let mut r = String::from_str("[me]\nname    = \"");
    r.append(name);
    r.append("\"\ncompany = \"");
    r.append(company);
    r.append("\"\nemail   = \"");
    r.append(email);
    r.append("\"\naddress = [\"");
    r.append(line1);
    r.append("\", \"");
    r.append(line2);
    r.append("\"]\n\n# Shared across both invoices and quotes\n[defaults]\ncurrency      = \"USD\"\ntax_rate      = 0.0\ntemplate      = \"basic\"     # basic | classic | modern | floral | slate | signature\n# primary_color = \"#7c3aed\" # optional accent colour for all documents\n# notes = \"\"                # optional notes printed on every document (e.g. bank details)\n\n# Invoice defaults\n[invoice]\nid_format = \"INV-{year}-{seq:03}\"\ndue_days  = 30\n# template = \"modern\"       # optional; overrides [defaults].template for invoices only\n\n# Quote defaults\n[quote]\nid_format    = \"QUO-{year}-{seq:03}\"\nexpires_days = 30\n# template = \"modern\"       # optional; overrides [defaults].template for quotes only\n\n[email]\nprovider  = \"smtp\"\nfrom      = \"");
    r.append(email);
    r.append("\"\nfrom_name = \"");
    r.append(name);
    r.append("\"\n\n[email.smtp]\nhost     = \"smtp.gmail.com\"\nport     = 587\nusername = \"");
    r.append(email);
    r.append("\"\n# password via env var: FOLIO_SMTP_PASSWORD\n\n[email.templates]\nsubject = \"{{document_type}} {{invoice.id}} from {{me.company}}\"\n# body is provided by templates/{template_name}/email.html\n# uncomment and edit to override:\n# body = \"\"\"\n# Hi {{client.contact}},\n#\n# Please find attached {{document_type | lower}} {{invoice.id}}.\n#\n# {{me.name}}\n# \"\"\"\n");
    r
}

/// The starter `README.md` of a new repository.
pub open spec fn readme_text(company: Seq<char>) -> Seq<char> {
        "# "@
        + company
        + " — Invoices & Quotes\n\nManaged with [folio](https://github.com/m-haisham/folio) — plaintext invoice\nand quotation management that lives entirely in this git repository.\n\n---\n\n## Quick start\n\n### 1. Add a client\n\nCreate `clients/<slug>.toml`, e.g. `clients/acme.toml`:\n\n```toml\nname    = \"Acme Corp\"\ncontact = \"Jane Doe\"\nemail   = \"jane@acme.com\"\naddress = [\"123 Business St\", \"New York, NY 10001\", \"USA\"]\n\n# Optional payment details shown on every document for this client\n[defaults]\nnotes = \"\"\"\nPayment via bank transfer:\nBank:    First National Bank\nAccount: 1234567890\n\"\"\"\n```\n\n### 2. Send a quote first\n\n```sh\nfolio quote new --client acme     # creates quotes/2026/QUO-2026-001.toml\nfolio quote build QUO-2026-001    # renders to output/QUO-2026-001.pdf\nfolio quote send  QUO-2026-001    # emails the PDF and records [sent]\n```\n\n### 3. Convert to an invoice when accepted\n\n```sh\nfolio quote accept QUO-2026-001 --convert\n# → marks quote accepted, creates invoices/2026/INV-2026-001.toml\n```\n\n### 4. Or create an invoice directly\n\n```sh\nfolio invoice new --client acme\nfolio invoice build INV-2026-001\nfolio invoice send  INV-2026-001\n```\n\n### 5. Mark as paid\n\n```sh\nfolio paid INV-2026-001 --amount 1200.00 --method bank_transfer --ref TXN-001\n```\n\n### 6. Review everything\n\n```sh\nfolio list                  # all invoices and quotes\nfolio list --type invoice   # invoices only\nfolio list --type quote     # quotes only\nfolio summary               # financial totals + quote pipeline\n```\n\n---\n\n## Repository layout\n\n```\nfolio.toml          ← global config (you, defaults, email)\n.gitignore          ← output/ and .folio/ are excluded\n\nclients/\n  acme.toml         ← one file per client (slug = filename)\n\ninvoices/\n  2026/\n    INV-2026-001.toml\n\nquotes/\n  2026/\n    QUO-2026-001.toml\n\ntemplates/          ← optional custom Tera/HTML templates\noutput/             ← generated PDFs (gitignored)\n.folio/             ← build-state cache (gitignored)\n```\n\n> Directories are created automatically when the first document is saved —\n> there is nothing to set up manually.\n\n---\n\n## Tips\n\n- Edit `folio.toml` to change currency, tax rate, template, or accent colour.\n- Set `[defaults].notes` (or `clients/<slug>.toml [defaults].notes`) for\n  payment details that appear on every document.\n- Run `folio templates` to list bundled templates, or export one to customise:\n  `folio templates export modern --output templates/studio`\n- All document files are plain TOML — commit freely, diff clearly.\n"@
}

pub fn init_readme(company: &str) -> (r: String)
    ensures
        r@ == readme_text(company@),
{
    let mut r = String::from_str("# ");
    r.append(company);
    r.append(" — Invoices & Quotes\n\nManaged with [folio](https://github.com/m-haisham/folio) — plaintext invoice\nand quotation management that lives entirely in this git repository.\n\n---\n\n## Quick start\n\n### 1. Add a client\n\nCreate `clients/<slug>.toml`, e.g. `clients/acme.toml`:\n\n```toml\nname    = \"Acme Corp\"\ncontact = \"Jane Doe\"\nemail   = \"jane@acme.com\"\naddress = [\"123 Business St\", \"New York, NY 10001\", \"USA\"]\n\n# Optional payment details shown on every document for this client\n[defaults]\nnotes = \"\"\"\nPayment via bank transfer:\nBank:    First National Bank\nAccount: 1234567890\n\"\"\"\n```\n\n### 2. Send a quote first\n\n```sh\nfolio quote new --client acme     # creates quotes/2026/QUO-2026-001.toml\nfolio quote build QUO-2026-001    # renders to output/QUO-2026-001.pdf\nfolio quote send  QUO-2026-001    # emails the PDF and records [sent]\n```\n\n### 3. Convert to an invoice when accepted\n\n```sh\nfolio quote accept QUO-2026-001 --convert\n# → marks quote accepted, creates invoices/2026/INV-2026-001.toml\n```\n\n### 4. Or create an invoice directly\n\n```sh\nfolio invoice new --client acme\nfolio invoice build INV-2026-001\nfolio invoice send  INV-2026-001\n```\n\n### 5. Mark as paid\n\n```sh\nfolio paid INV-2026-001 --amount 1200.00 --method bank_transfer --ref TXN-001\n```\n\n### 6. Review everything\n\n```sh\nfolio list                  # all invoices and quotes\nfolio list --type invoice   # invoices only\nfolio list --type quote     # quotes only\nfolio summary               # financial totals + quote pipeline\n```\n\n---\n\n## Repository layout\n\n```\nfolio.toml          ← global config (you, defaults, email)\n.gitignore          ← output/ and .folio/ are excluded\n\nclients/\n  acme.toml         ← one file per client (slug = filename)\n\ninvoices/\n  2026/\n    INV-2026-001.toml\n\nquotes/\n  2026/\n    QUO-2026-001.toml\n\ntemplates/          ← optional custom Tera/HTML templates\noutput/             ← generated PDFs (gitignored)\n.folio/             ← build-state cache (gitignored)\n```\n\n> Directories are created automatically when the first document is saved —\n> there is nothing to set up manually.\n\n---\n\n## Tips\n\n- Edit `folio.toml` to change currency, tax rate, template, or accent colour.\n- Set `[defaults].notes` (or `clients/<slug>.toml [defaults].notes`) for\n  payment details that appear on every document.\n- Run `folio templates` to list bundled templates, or export one to customise:\n  `folio templates export modern --output templates/studio`\n- All document files are plain TOML — commit freely, diff clearly.\n");
    r
}

} // verus!
