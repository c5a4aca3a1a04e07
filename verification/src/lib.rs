//! Command parsing and append-only-file replay for a small Redis-like
//! key-value service.

pub mod config;
pub mod laws;
pub mod parse;
pub mod request;
pub mod store;
pub mod words;
