//! Rewriting of legacy per-arity mock macro invocations (`MOCK_METHOD0` ..
//! `MOCK_METHOD10`, with `CONST`, template and call-type variants) into the
//! unified `MOCK_METHOD` form, together with a search facility that counts
//! occurrences of the legacy macro family in a text buffer.
//!
//! The engine is purely computational: it takes a text buffer and returns
//! either "no match" or a fully substituted buffer plus a structured account
//! of which replacements failed and why.  File discovery, parallel dispatch
//! and terminal output are left to callers.

pub mod text;

pub mod errors;

pub mod extract;

pub mod patterns;

pub mod args;

pub mod quals;

pub mod signature;

pub mod search;

pub mod replace;

pub mod laws;

pub use errors::GmockSedError;

pub use extract::lextract;

pub use extract::rextract;

pub use search::search;

pub use search::SearchMode;

pub use search::SearchSummary;

pub use replace::replace;

pub use replace::ReplaceMode;

pub use replace::ReplaceSummary;
