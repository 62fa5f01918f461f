//! Rendering pipeline for documentation comments: markdown with a
//! cross-reference micro-syntax (`{@link ...}`, `{@linkcode ...}`) is resolved
//! against a graph of documented symbols, parsed, rewritten (alert callouts,
//! inline video embedding), serialized to HTML and sanitized through a fixed
//! allow-list.
//!
//! Text is handled as UTF-8 bytes (`Vec<u8>` / `&[u8]`) throughout.

pub mod bytes;
pub mod extract;
pub mod graph;
pub mod links;
pub mod md;
pub mod render;
pub mod resolve;
pub mod rewrite;
pub mod sanitize;
pub mod symbols;
