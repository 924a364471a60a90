# folio

Plaintext invoice and quotation management: clients, invoices and quotes
live in TOML files in a git repository, and PDFs are rendered from HTML
templates.

The crate is in two parts.

- `src/` is the library, verified with Verus: invoice and quote arithmetic
  and status derivation, the financial summary, sequential IDs, the build
  index and source hashes, Markdown frontmatter and title handling, where
  documents are filed, the JSON requests sent to the SendGrid and Resend
  APIs, and the decision logic of every subcommand.  Calls
  into `rust_decimal`, `chrono`, `sha2`, `hex`, `serde_yaml`,
  `pulldown-cmark` and `std::path` go through small trusted wrappers whose
  contracts state what those crates do.
- `app/` is the command-line program around it: argument parsing, file
  and terminal I/O, TOML (de)serialisation, Tera rendering, email delivery (SMTP with
  `lettre`, the mail APIs with `reqwest`),
  PDF generation through headless Chrome and self-update.

`tests/` exercises the library on concrete values.
