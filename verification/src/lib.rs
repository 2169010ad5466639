//! Discovery of Model Context Protocol servers: a lenient sanitizer for
//! JSON-like settings text, a heuristic classifier for process command lines,
//! and extractors that turn parsed settings into server records.
//!
//! The crate computes on texts that its caller has read: the process table as
//! the process lister printed it, and the contents of settings files. Every
//! function states what it returns over sequences of characters, and the
//! verifier proves it. `strict` holds what is proved of sanitized text.

pub mod text;
pub mod sanitize;
pub mod record;
pub mod classify;
pub mod json;
pub mod extract;
pub mod process;
pub mod discover;
pub mod paths;
pub mod strict;
