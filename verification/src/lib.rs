//! A minimal content-management core: slug derivation and validation for
//! page URLs, Markdown rendering of author content, an in-memory content
//! repository holding pages and the singleton settings record, and the
//! lifecycle operations (create, save, publish, unpublish, delete) and
//! settings operations built on top of them.

pub mod dates;
pub mod errors;
pub mod lifecycle;
pub mod markdown;
pub mod numbers;
pub mod page;
pub mod repo;
pub mod settings;
pub mod settings_ops;
pub mod slug;
