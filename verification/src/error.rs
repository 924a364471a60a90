//! Domain errors.
//!
//! Errors that come from outside libraries (I/O, TOML, templates) are held
//! by their message.
use vstd::prelude::*;

verus! {

/// What can go wrong in `folio`.
#[derive(Clone, Debug)]
pub enum FolioError {
    ClientNotFound { slug: String, path: String },
    InvoiceNotFound { id: String },
    QuoteNotFound { id: String },
    AlreadySent { id: String },
    AlreadyPaid { id: String },
    TemplateNotFound { name: String },
    ChromeNotFound,
    Render(String),
    Io(String),
    TomlDe(String),
    TomlSer(String),
    Other(String),
}

} // verus!
