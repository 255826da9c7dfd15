//! Language-server core for validating Jenkins declarative pipeline files.
//!
//! The crate holds the verified logic of the server: the parser that turns
//! the Jenkins validator's textual output into structured diagnostics, the
//! versioned document store with its staleness rules, the classification of
//! Jenkins HTTP responses, and configuration validation. The surrounding
//! process (LSP transport, HTTP requests, file and environment access) lives
//! outside the library and hands it plain values.

pub mod config;
pub mod diagnostics;
pub mod jenkins;
pub mod server;
pub mod text;
pub mod types;
