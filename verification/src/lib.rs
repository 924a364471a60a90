//! Plaintext invoice management: the verified core of `folio`.
//!
//! Money is computed with `rust_decimal`, dates with `chrono`, document
//! hashes with `sha2`/`hex`, Markdown with `pulldown-cmark` and frontmatter
//! with `serde_yaml`; every such call sits behind a small trusted wrapper
//! whose contract the rest of the crate is proved against.

pub mod decimal;
pub mod date;
pub mod types;
pub mod compute;
pub mod quote_compute;
pub mod text;
pub mod paths;
pub mod index;
pub mod markdown;
pub mod doc_store;
pub mod config;
pub mod error;
pub mod store;
pub mod templates;
pub mod email;
pub mod encode;
pub mod cmd;
