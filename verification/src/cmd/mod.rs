//! The logic of each `folio` subcommand, apart from its I/O.
pub mod builds;
pub mod client;
pub mod doc;
pub mod init;
pub mod invoice;
pub mod list;
pub mod new;
pub mod paid;
pub mod preview;
pub mod quote;
pub mod render;
pub mod send;
pub mod summary;
pub mod templates;
pub mod update;
pub mod void;
